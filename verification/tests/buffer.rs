use nestvim::buffer::TextBuffer;
use nestvim::types::NestvimError;

#[test]
fn test_insert_char() {
    let mut buf = TextBuffer::new();
    buf.insert_char(1, 0, 'a');
    assert_eq!(buf.get_line(1), "a");
    assert!(buf.dirty);
    assert_eq!(buf.modification_count(), 1);
}

#[test]
fn test_delete_char() {
    let mut buf = TextBuffer::with_text("ab\n");
    buf.delete(1, 0);
    assert_eq!(buf.get_line(1), "b\n");
    assert!(buf.dirty);
}

#[test]
fn test_merge_with_prev_line() {
    let mut buf = TextBuffer::with_text("hello\nworld\n");
    buf.merge_with_prev_line(2);
    assert_eq!(buf.to_string(), "helloworld\n");
    assert!(buf.dirty);
}

#[test]
fn test_save_resets_dirty() {
    let mut buf = TextBuffer::with_text("test\n");
    buf.file_path = Some("/tmp/test_nestvim.txt".to_string());
    match buf.save_request() {
        Ok((path, content)) => {
            assert_eq!(path, "/tmp/test_nestvim.txt");
            assert_eq!(content, "test\n");
        }
        Err(_) => panic!("Save failed"),
    }
    buf.mark_saved();
    assert!(!buf.dirty);
}

#[test]
fn save_without_file_is_refused() {
    let buf = TextBuffer::with_text("x");
    assert!(matches!(buf.save_request(), Err(NestvimError::NoFilePath)));
}

#[test]
fn line_count_counts_final_empty_line() {
    assert_eq!(TextBuffer::new().line_count(), 1);
    assert_eq!(TextBuffer::with_text("a\nb\n").line_count(), 3);
    assert_eq!(TextBuffer::with_text("a\r\nb").line_count(), 2);
}

#[test]
fn get_line_outside_the_text_is_empty() {
    let buf = TextBuffer::with_text("a\nb\n");
    assert_eq!(buf.get_line(0), "");
    assert_eq!(buf.get_line(2), "b\n");
    assert_eq!(buf.get_line(3), "");
    assert_eq!(buf.get_line(4), "");
}

#[test]
fn insert_clamps_column_and_line() {
    let mut buf = TextBuffer::with_text("ab\ncd");
    buf.insert(1, 10, "X");
    assert_eq!(buf.to_string(), "ab\nXcd");
    let mut end = TextBuffer::with_text("ab");
    end.insert(2, 0, "X");
    assert_eq!(end.to_string(), "abX");
    let mut past = TextBuffer::with_text("ab");
    past.insert(3, 0, "X");
    assert_eq!(past.to_string(), "ab");
    assert!(!past.dirty);
    assert_eq!(past.modification_count(), 0);
}

#[test]
fn delete_past_the_text_does_nothing() {
    let mut buf = TextBuffer::with_text("ab");
    buf.delete(1, 2);
    buf.delete(5, 0);
    assert_eq!(buf.to_string(), "ab");
    assert!(!buf.dirty);
}

#[test]
fn merge_gives_length_of_previous_line() {
    let mut buf = TextBuffer::with_text("hello\nworld\n");
    assert_eq!(buf.merge_with_prev_line(1), 0);
    assert_eq!(buf.modification_count(), 0);
    assert_eq!(buf.merge_with_prev_line(2), 5);
    assert_eq!(buf.modification_count(), 1);
}

#[test]
fn word_lookup() {
    let buf = TextBuffer::with_text("foo bar\n");
    assert_eq!(buf.get_word_at(1, 2), ("foo".to_string(), 0, 3));
    assert_eq!(buf.get_word_at(1, 4), ("bar".to_string(), 4, 7));
    assert_eq!(buf.get_word_at(1, 3), ("foo".to_string(), 0, 3));
    assert_eq!(buf.get_word_at(1, 20), (String::new(), 20, 20));
    assert_eq!(buf.get_word_at(3, 0), (String::new(), 0, 0));
    assert_eq!(buf.get_word_at_cursor(1, 5), "bar");
    assert_eq!(buf.get_word_range(1, 0), ("foo".to_string(), 0, 3));
}

#[test]
fn line_range_keeps_each_line_break() {
    let buf = TextBuffer::with_text("a\nb\nc");
    assert_eq!(buf.get_line_range(1, 2), "a\nb\n");
    assert_eq!(buf.get_line_range(3, 3), "c");
    assert_eq!(buf.get_line_range(2, 1), "");
    assert_eq!(buf.get_line_range(0, 2), "");
    assert_eq!(buf.get_line_range(2, 9), "b\nc");
    assert_eq!(buf.get_line_range(4, 9), "");
}

#[test]
fn char_range() {
    let buf = TextBuffer::with_text("hello\nworld\n");
    assert_eq!(buf.get_char_range(1, 1, 1, 3), "el");
    assert_eq!(buf.get_char_range(1, 3, 2, 2), "lo\nwo");
    assert_eq!(buf.get_char_range(1, 5, 2, 0), "\n");
    assert_eq!(buf.get_char_range(1, 9, 2, 0), "");
    let abc = TextBuffer::with_text("abc\ndef\n");
    assert_eq!(abc.get_char_range(1, 1, 2, 2), "bc\nde");
    assert_eq!(abc.get_char_range(1, 0, 1, 2), "ab");
    assert_eq!(buf.get_char_range(1, 3, 1, 3), "");
    assert_eq!(buf.get_char_range(2, 0, 1, 0), "");
}

#[test]
fn delete_line_gives_its_text() {
    let mut buf = TextBuffer::with_text("a\nb\n");
    assert_eq!(buf.delete_line(1), "a\n");
    assert_eq!(buf.to_string(), "b\n");
    assert_eq!(buf.delete_line(7), "");
    assert_eq!(buf.modification_count(), 1);
}

#[test]
fn delete_range_gives_removed_text() {
    let mut buf = TextBuffer::with_text("hello");
    assert_eq!(buf.delete_range(1, 1, 1, 3), "el");
    assert_eq!(buf.to_string(), "hlo");
    let mut two = TextBuffer::with_text("abc\ndef\n");
    assert_eq!(two.delete_range(1, 1, 2, 2), "bc\nde");
    assert_eq!(two.to_string(), "af\n");
    assert_eq!(two.delete_range(2, 0, 1, 0), "");
    assert_eq!(two.to_string(), "af\n");
}

#[test]
fn remove_range_and_positions() {
    let mut buf = TextBuffer::with_text("abc\ndef");
    assert_eq!(buf.len_chars(), 7);
    assert_eq!(buf.line_to_char(1), 4);
    buf.remove_range(1, 5);
    assert_eq!(buf.to_string(), "aef");
    buf.remove_range(2, 2);
    assert_eq!(buf.modification_count(), 1);
}

#[test]
fn search_finds_every_occurrence() {
    let buf = TextBuffer::with_text("foo\nbo");
    let hits: Vec<(usize, usize, usize)> = buf
        .search("o")
        .iter()
        .map(|r| (r.line, r.start_col, r.end_col))
        .collect();
    assert_eq!(hits, vec![(1, 1, 2), (1, 2, 3), (2, 1, 2)]);
    assert!(buf.search("").is_empty());
    let overlapping: Vec<usize> = TextBuffer::with_text("aaa").search("aa").iter().map(|r| r.start_col).collect();
    assert_eq!(overlapping, vec![0, 1]);
}
