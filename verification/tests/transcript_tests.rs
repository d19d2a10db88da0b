use dictate::transcript::{SegmentKind, TranscriptBuffer};

#[test]
fn finds_last_word() {
    let mut buffer = TranscriptBuffer::new();
    buffer.append_typed("hello world  ");
    assert_eq!(buffer.last_word_range(), Some(6..11));
}

#[test]
fn finds_last_sentence() {
    let mut buffer = TranscriptBuffer::new();
    buffer.append_typed("Hello world. This is wrong.  ");
    let range = buffer.last_sentence_range().unwrap();
    assert_eq!(&buffer.text()[range], "This is wrong.");
}

#[test]
fn finds_last_line() {
    let mut buffer = TranscriptBuffer::new();
    buffer.append_typed("one\ntwo three\n");
    let range = buffer.last_line_range().unwrap();
    assert_eq!(&buffer.text()[range], "two three");
}

#[test]
fn tracks_segments() {
    let mut buffer = TranscriptBuffer::new();
    buffer.append_typed("hello");
    buffer.delete_range(0..5);
    assert_eq!(buffer.segments().len(), 2);
    assert_eq!(buffer.segments()[1].kind, SegmentKind::Deleted);
}

#[test]
fn byte_ranges_follow_utf8() {
    let mut buffer = TranscriptBuffer::new();
    assert_eq!(buffer.append_typed("café "), 0..6);
    assert_eq!(buffer.append_typed("au lait"), 6..13);
    assert_eq!(buffer.last_words_range(2), Some(6..13));
    assert_eq!(buffer.last_words_range(3), Some(0..13));
    assert_eq!(buffer.last_words_range(4), None);
    assert_eq!(buffer.last_words_range(0), None);
    let r = buffer.replace_range(6..8, "du");
    assert_eq!(r, 6..8);
    assert_eq!(buffer.text(), "café du lait");
    assert_eq!(buffer.segments().len(), 4);
    assert_eq!(buffer.segments()[3].text, "du");
}

#[test]
fn suffix_match_and_windows() {
    let mut buffer = TranscriptBuffer::new();
    buffer.append_typed("Meet on Monday  ");
    assert_eq!(buffer.last_exact_suffix_match(" monday "), Some(8..14));
    assert_eq!(buffer.last_exact_suffix_match("meet"), None);
    assert_eq!(buffer.last_exact_suffix_match("  "), None);
    assert_eq!(buffer.recent_window(5), "day  ");
    assert_eq!(buffer.recent_window(0), " ");
    assert_eq!(buffer.recent_window(100), "Meet on Monday  ");
    buffer.record_command("scratch that");
    buffer.record_rejected_command("nope");
    assert_eq!(buffer.segments()[2].kind, SegmentKind::RejectedCommand);
    assert_eq!(buffer.segments()[2].typed_range, 16..16);
    buffer.clear();
    assert_eq!(buffer.text(), "");
    assert_eq!(buffer.last_line_range(), None);
    assert_eq!(buffer.last_sentence_range(), None);
}

#[test]
fn last_sentence_skips_final_terminator() {
    let mut buffer = TranscriptBuffer::new();
    buffer.append_typed("Only one sentence.");
    let range = buffer.last_sentence_range().unwrap();
    assert_eq!(&buffer.text()[range], "Only one sentence.");
}
