use chunk_embed::chunking::{parse_chunks, trim_str};

#[test]
fn two_sections() {
    let chunks = parse_chunks("A section\n---\nB section");
    assert_eq!(chunks, vec!["A section".to_string(), "B section".to_string()]);
}

#[test]
fn three_sections_in_order() {
    let chunks = parse_chunks("first---second---third");
    assert_eq!(
        chunks,
        vec!["first".to_string(), "second".to_string(), "third".to_string()]
    );
}

#[test]
fn no_delimiter_gives_one_chunk() {
    let chunks = parse_chunks("hello world");
    assert_eq!(chunks, vec!["hello world".to_string()]);
}

#[test]
fn empty_pieces_are_discarded() {
    let chunks = parse_chunks("one--- ---two");
    assert_eq!(chunks, vec!["one".to_string(), "two".to_string()]);
}

#[test]
fn adjacent_delimiters() {
    let chunks = parse_chunks("a------b");
    assert_eq!(chunks, vec!["a".to_string(), "b".to_string()]);
}

#[test]
fn earliest_occurrence_splits_first() {
    // Four hyphens: the delimiter is the first three, the fourth starts the
    // next piece.
    let chunks = parse_chunks("a----b");
    assert_eq!(chunks, vec!["a".to_string(), "-b".to_string()]);
}

#[test]
fn trailing_delimiter_leaves_no_extra_chunk() {
    let chunks = parse_chunks("x---");
    assert_eq!(chunks, vec!["x".to_string()]);
}

#[test]
fn pieces_are_trimmed() {
    let chunks = parse_chunks("  # A\ntext1  \n---\n\t# B\ntext2\n");
    assert_eq!(chunks, vec!["# A\ntext1".to_string(), "# B\ntext2".to_string()]);
}

#[test]
fn fallback_when_only_delimiter() {
    // Both pieces trim to nothing, so the entire un-split content comes
    // back as a single chunk.
    let chunks = parse_chunks("---");
    assert_eq!(chunks, vec!["---".to_string()]);
}

#[test]
fn fallback_keeps_content_unsplit() {
    let chunks = parse_chunks(" \n---\n ");
    assert_eq!(chunks, vec![" \n---\n ".to_string()]);
}

#[test]
fn fallback_on_empty_content() {
    let chunks = parse_chunks("");
    assert_eq!(chunks, vec![String::new()]);
}

#[test]
fn fallback_on_whitespace_content() {
    let chunks = parse_chunks("  \t\n");
    assert_eq!(chunks, vec!["  \t\n".to_string()]);
}

#[test]
fn trim_removes_ascii_whitespace() {
    assert_eq!(trim_str("  \t hello \r\n"), "hello".to_string());
}

#[test]
fn trim_removes_unicode_whitespace() {
    assert_eq!(trim_str("\u{00A0}x\u{3000}"), "x".to_string());
}

#[test]
fn trim_keeps_inner_whitespace() {
    assert_eq!(trim_str(" a b "), "a b".to_string());
}

#[test]
fn trim_of_whitespace_is_empty() {
    assert_eq!(trim_str(" \u{2028} "), String::new());
}
