use rustle::editor::buffer::Buffer as PlainBuffer;
use rustle::editor::view::buffer::Buffer;

#[test]
fn new_buffer_holds_the_contents() {
    let buffer = Buffer::new(Some("one\ntwo\n"));
    assert_eq!(buffer.document.to_string(), "one\ntwo\n");
    assert_eq!(buffer.line_count(), 3);
    assert!(!buffer.is_dirty);
    assert!(!buffer.is_empty());
    let empty = Buffer::new(None);
    assert!(empty.is_empty());
    assert_eq!(empty.line_count(), 1);
}

#[test]
fn lines_keep_their_breaks() {
    let buffer = Buffer::new(Some("one\r\ntwo"));
    assert_eq!(buffer.get_line(0).map(|l| l.to_string()), Some(String::from("one\r\n")));
    assert_eq!(buffer.get_line(1).map(|l| l.to_string()), Some(String::from("two")));
    assert!(buffer.get_line(2).is_none());
}

#[test]
fn insert_and_delete_mark_the_buffer_dirty() {
    let mut buffer = Buffer::new(Some("ac"));
    buffer.insert_char(1, 'b');
    assert_eq!(buffer.document.to_string(), "abc");
    assert!(buffer.is_dirty);
    buffer.mark_saved();
    assert!(!buffer.is_dirty);
    buffer.delete_range_char(0, 2);
    assert_eq!(buffer.document.to_string(), "c");
    assert!(buffer.is_dirty);
}

#[test]
fn search_finds_every_occurrence_by_line_and_column() {
    let buffer = Buffer::new(Some("abab\nxab"));
    assert_eq!(buffer.search_document("ab"), vec![(0, 0), (0, 2), (1, 1)]);
    assert_eq!(buffer.search_document("zz"), Vec::<(usize, usize)>::new());
}

#[test]
fn search_does_not_overlap_matches() {
    let buffer = Buffer::new(Some("aaaa"));
    assert_eq!(buffer.search_document("aa"), vec![(0, 0), (0, 2)]);
}

#[test]
fn empty_query_matches_at_every_index() {
    let buffer = Buffer::new(Some("ab"));
    assert_eq!(buffer.search_document(""), vec![(0, 0), (0, 1), (0, 2)]);
}

#[test]
fn search_counts_columns_in_chars() {
    let buffer = Buffer::new(Some("\u{e9}t\u{e9}"));
    assert_eq!(buffer.search_document("\u{e9}"), vec![(0, 0), (0, 2)]);
}

#[test]
fn plain_buffer_lines_as_strings() {
    let buffer = PlainBuffer::new(Some("x\ny"));
    assert_eq!(buffer.get_line(0), Some(String::from("x\n")));
    assert_eq!(buffer.get_line(1), Some(String::from("y")));
    assert_eq!(buffer.get_line(2), None);
    assert_eq!(PlainBuffer::new(None).get_line(0), Some(String::new()));
}

#[test]
fn deleting_the_inserted_char_restores_the_text() {
    let mut buffer = Buffer::new(Some("h\u{e9}llo\nworld"));
    for pos in 0..=11 {
        buffer.insert_char(pos, 'Z');
        buffer.delete_range_char(pos, 1);
        assert_eq!(buffer.document.to_string(), "h\u{e9}llo\nworld");
        assert!(buffer.is_dirty);
    }
}
