use sourses::cli::ItemType;
use sourses::mux::{Multiplexer, MuxEvent, StopReason};
use sourses::store::{CaptureStore, Filter};

/// Drive a whole simulated session through the verified pipeline: PTY
/// chunks arrive at the multiplexer, completed lines go to the store,
/// the shell exits, and the query lists everything newest first.
#[test]
fn full_session_pipeline() {
    let mut mux = Multiplexer::new();
    let mut store = CaptureStore::new();
    let mut clock: u64 = 1000;

    let chunks: Vec<&[u8]> = vec![b"$ ec", b"ho hi\nhi\n$ exi", b"t\n"];
    for chunk in chunks {
        let out = mux.on_event(MuxEvent::PtyChunk(chunk.to_vec()));
        assert_eq!(out.echo, Some(chunk.to_vec()));
        store.persist_lines(clock, &out.lines);
        clock += 1;
    }

    let stop = mux.on_event(MuxEvent::PtyEof);
    assert_eq!(stop.stop, Some(StopReason::ShellExited));
    store.persist_lines(clock, &stop.lines);

    // every completed line was persisted once, in completion order
    assert_eq!(store.len(), 3);
    assert_eq!(store.get(0).text, "$ echo hi");
    assert_eq!(store.get(1).text, "hi");
    assert_eq!(store.get(2).text, "$ exit");
    // timestamps never decrease
    assert!(store.get(0).timestamp <= store.get(1).timestamp);
    assert!(store.get(1).timestamp <= store.get(2).timestamp);

    // the query lists them newest first
    let all = store
        .query(&Filter { types: Vec::new(), pattern: None, cutoff: None })
        .unwrap();
    assert_eq!(all.len(), 3);
    assert_eq!(all[0].text, "$ exit");
    assert_eq!(all[2].text, "$ echo hi");
    assert_eq!(all[0].item_type, ItemType::Output);
}
