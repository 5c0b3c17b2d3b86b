use sourses::ingest::LineAssembler;

#[test]
fn scenario_two_lines_one_chunk() {
    let mut lasm = LineAssembler::new();
    let lines = lasm.ingest_text(b"ec\nho hi\n");
    assert_eq!(lines, vec!["ec".to_string(), "ho hi".to_string()]);
    assert_eq!(lasm.flush(), None);
}

#[test]
fn scenario_two_lines_split_chunks() {
    let mut lasm = LineAssembler::new();
    let mut lines = lasm.ingest_text(b"ec\nho ");
    lines.extend(lasm.ingest_text(b"hi\n"));
    assert_eq!(lines, vec!["ec".to_string(), "ho hi".to_string()]);
    assert_eq!(lasm.flush(), None);
}

#[test]
fn split_invariance_byte_by_byte() {
    let stream = b"one\ntwo words\n\nthree\tand four\npartial";
    let mut whole = LineAssembler::new();
    let whole_lines = whole.ingest_text(stream);

    let mut pieces = LineAssembler::new();
    let mut piece_lines: Vec<String> = Vec::new();
    for b in stream.iter() {
        piece_lines.extend(pieces.ingest_text(&[*b]));
    }
    assert_eq!(whole_lines, piece_lines);
    assert_eq!(whole.flush_text(), pieces.flush_text());
}

#[test]
fn item_count_matches_terminators() {
    let mut lasm = LineAssembler::new();
    let lines = lasm.ingest_text(b"a\nb\nc");
    assert_eq!(lines.len(), 2);
    assert_eq!(lines, vec!["a".to_string(), "b".to_string()]);
}

#[test]
fn trailing_fragment_stays_pending_then_flushes() {
    let mut lasm = LineAssembler::new();
    let lines = lasm.ingest_text(b"abc");
    assert!(lines.is_empty());
    assert_eq!(lasm.flush_text(), Some("abc".to_string()));
    assert_eq!(lasm.flush_text(), None);
}

#[test]
fn trailing_whitespace_trimmed() {
    let mut lasm = LineAssembler::new();
    let lines = lasm.ingest_text(b"hi \t\r\n");
    assert_eq!(lines, vec!["hi".to_string()]);
}

#[test]
fn empty_line_emitted_empty() {
    let mut lasm = LineAssembler::new();
    let lines = lasm.ingest_text(b"\n");
    assert_eq!(lines, vec![String::new()]);
}

#[test]
fn invalid_utf8_replaced_not_fatal() {
    let mut lasm = LineAssembler::new();
    let lines = lasm.ingest_text(&[0xff, 0xfe, b'o', b'k', b'\n']);
    assert_eq!(lines.len(), 1);
    assert_eq!(lines[0], "\u{FFFD}\u{FFFD}ok");
}

#[test]
fn byte_level_lines_exact() {
    let mut lasm = LineAssembler::new();
    let lines = lasm.ingest(b"ab\r\ncd\n");
    assert_eq!(lines, vec![b"ab".to_vec(), b"cd".to_vec()]);
    assert_eq!(lasm.flush(), None);
}
