use brain::reader::LineReader;

#[test]
fn feed_hands_out_closed_lines_and_keeps_the_open_one() {
    let mut reader = LineReader::new();
    let lines = reader.feed(b"one\ntwo\nthr");
    assert_eq!(lines, vec![b"one".to_vec(), b"two".to_vec()]);
    let lines = reader.feed(b"ee\n");
    assert_eq!(lines, vec![b"three".to_vec()]);
    assert_eq!(reader.finish(), None);
}

#[test]
fn a_line_cut_in_two_chunks_is_one_line() {
    let whole = b"{\"a\":1}\n{\"b\":2}\n";
    let mut in_one = LineReader::new();
    let expected = in_one.feed(whole);
    for cut in 0..=whole.len() {
        let mut reader = LineReader::new();
        let mut lines = reader.feed(&whole[..cut]);
        lines.extend(reader.feed(&whole[cut..]));
        assert_eq!(lines, expected);
    }
}

#[test]
fn empty_lines_are_lines() {
    let mut reader = LineReader::new();
    let lines = reader.feed(b"\n\nx\n");
    assert_eq!(lines, vec![Vec::<u8>::new(), Vec::<u8>::new(), b"x".to_vec()]);
}

#[test]
fn finish_hands_out_what_no_line_end_closed() {
    let mut reader = LineReader::new();
    assert!(reader.feed(b"tail").is_empty());
    assert_eq!(reader.finish(), Some(b"tail".to_vec()));
    assert_eq!(reader.finish(), None);
    assert!(reader.feed(b"").is_empty());
}
