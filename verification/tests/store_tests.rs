use sourses::cli::ItemType;
use sourses::store::{build_filter, parse_since, CaptureStore, Filter, FilterError, QueryError};

#[test]
fn persist_keeps_arrival_order_with_monotonic_timestamps() {
    let mut store = CaptureStore::new();
    store.persist(10, ItemType::Output, "first".to_string());
    store.persist(5, ItemType::Output, "second".to_string());
    store.persist(12, ItemType::Output, "third".to_string());
    assert_eq!(store.len(), 3);
    assert_eq!(store.get(0).text, "first");
    assert_eq!(store.get(1).text, "second");
    assert_eq!(store.get(2).text, "third");
    // a clock that stepped back is pushed up: order never decreases
    assert_eq!(store.get(0).timestamp, 10);
    assert_eq!(store.get(1).timestamp, 10);
    assert_eq!(store.get(2).timestamp, 12);
}

#[test]
fn persist_lines_appends_batch_in_order() {
    let mut store = CaptureStore::new();
    let lines = vec!["a".to_string(), "b".to_string(), "c".to_string()];
    store.persist_lines(77, &lines);
    assert_eq!(store.len(), 3);
    for (i, want) in ["a", "b", "c"].iter().enumerate() {
        let it = store.get(i);
        assert_eq!(it.text, *want);
        assert_eq!(it.timestamp, 77);
        assert_eq!(it.item_type, ItemType::Output);
    }
}

#[test]
fn query_returns_newest_first() {
    let mut store = CaptureStore::new();
    store.persist(1, ItemType::Output, "old".to_string());
    store.persist(2, ItemType::Output, "new".to_string());
    let filter = Filter { types: Vec::new(), pattern: None, cutoff: None };
    let got = store.query(&filter).unwrap();
    assert_eq!(got.len(), 2);
    assert_eq!(got[0].text, "new");
    assert_eq!(got[1].text, "old");
}

#[test]
fn scenario_filter_type_and_since_window() {
    let now: u64 = 100_000;
    let mut store = CaptureStore::new();
    store.persist(now - 1200, ItemType::Output, "twenty minutes ago".to_string());
    store.persist(now - 300, ItemType::Output, "five minutes ago".to_string());
    let filter =
        build_filter(vec![ItemType::Output], None, Some("10m".to_string()), now).unwrap();
    let got = store.query(&filter).unwrap();
    assert_eq!(got.len(), 1);
    assert_eq!(got[0].text, "five minutes ago");
}

#[test]
fn filter_by_type_set() {
    let mut store = CaptureStore::new();
    store.persist(1, ItemType::Url, "https link".to_string());
    store.persist(2, ItemType::Output, "plain".to_string());
    let filter = Filter { types: vec![ItemType::Url], pattern: None, cutoff: None };
    let got = store.query(&filter).unwrap();
    assert_eq!(got.len(), 1);
    assert_eq!(got[0].text, "https link");
}

#[test]
fn filter_by_regex_pattern() {
    let mut store = CaptureStore::new();
    store.persist(1, ItemType::Output, "error: disk full".to_string());
    store.persist(2, ItemType::Output, "all fine".to_string());
    let filter =
        Filter { types: Vec::new(), pattern: Some("^error:".to_string()), cutoff: None };
    let got = store.query(&filter).unwrap();
    assert_eq!(got.len(), 1);
    assert_eq!(got[0].text, "error: disk full");
}

#[test]
fn invalid_regex_is_reported() {
    let mut store = CaptureStore::new();
    store.persist(1, ItemType::Output, "x".to_string());
    let filter = Filter { types: Vec::new(), pattern: Some("(".to_string()), cutoff: None };
    match store.query(&filter) {
        Err(e) => assert_eq!(e, QueryError::InvalidPattern),
        Ok(_) => panic!("an invalid pattern must be reported"),
    }
}

#[test]
fn parse_since_units() {
    assert_eq!(parse_since("45s"), Some(45));
    assert_eq!(parse_since("10m"), Some(600));
    assert_eq!(parse_since("2h"), Some(7200));
    assert_eq!(parse_since("0s"), Some(0));
}

#[test]
fn parse_since_rejects_malformed() {
    assert_eq!(parse_since(""), None);
    assert_eq!(parse_since("m"), None);
    assert_eq!(parse_since("10"), None);
    assert_eq!(parse_since("10x"), None);
    assert_eq!(parse_since("x5m"), None);
    assert_eq!(parse_since("5 m"), None);
    assert_eq!(parse_since("99999999999999999999h"), None);
}

#[test]
fn build_filter_reports_bad_since() {
    match build_filter(Vec::new(), None, Some("soon".to_string()), 1000) {
        Err(e) => assert_eq!(e, FilterError::InvalidSince),
        Ok(_) => panic!("a malformed since word must be reported"),
    }
}

#[test]
fn build_filter_floors_cutoff_at_zero() {
    let f = build_filter(Vec::new(), None, Some("2h".to_string()), 60).unwrap();
    assert_eq!(f.cutoff, Some(0));
    let g = build_filter(Vec::new(), None, None, 60).unwrap();
    assert_eq!(g.cutoff, None);
}

#[test]
fn item_type_labels() {
    assert_eq!(ItemType::Url.label(), "url");
    assert_eq!(ItemType::Path.label(), "path");
    assert_eq!(ItemType::Command.label(), "command");
    assert_eq!(ItemType::Output.label(), "output");
    assert_eq!(ItemType::Env.label(), "env");
    assert_eq!(ItemType::Pid.label(), "pid");
    assert_eq!(ItemType::Error.label(), "error");
    assert_eq!(ItemType::Clipboard.label(), "clipboard");
    assert_eq!(ItemType::Tmux.label(), "tmux");
}
