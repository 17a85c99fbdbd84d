use edit_rs::errors::IndexOutOfRange;
use edit_rs::text_buffer::TextBuffer;

#[test]
fn load_nothing_gives_one_empty_line() {
    let b = TextBuffer::load(None);
    assert_eq!(b.line_count(), 1);
    assert_eq!(b.line_length(0), Ok(0));
    assert_eq!(b.serialize(), "");
    assert_eq!(b.char_count(), 0);
}

#[test]
fn load_empty_text_gives_one_empty_line() {
    let b = TextBuffer::load(Some(""));
    assert_eq!(b.line_count(), 1);
    assert_eq!(b.line_length(0), Ok(0));
    assert_eq!(b.serialize(), "");
}

#[test]
fn load_splits_lines() {
    let b = TextBuffer::load(Some("abc\ndef"));
    assert_eq!(b.line_count(), 2);
    assert_eq!(b.line_length(0), Ok(3));
    assert_eq!(b.line_length(1), Ok(3));
    assert_eq!(b.line_length(2), Err(IndexOutOfRange));
    assert_eq!(b.char_count(), 7);
    assert_eq!(b.serialize(), "abc\ndef");
}

#[test]
fn load_keeps_trailing_newline_as_empty_line() {
    let b = TextBuffer::load(Some("abc\n"));
    assert_eq!(b.line_count(), 2);
    assert_eq!(b.line_length(0), Ok(3));
    assert_eq!(b.line_length(1), Ok(0));
    assert_eq!(b.serialize(), "abc\n");
}

#[test]
fn insert_shifts_characters_right() {
    let mut b = TextBuffer::load(Some("ac"));
    assert_eq!(b.insert_char(0, 1, 'b'), Ok(()));
    assert_eq!(b.serialize(), "abc");
    assert_eq!(b.line_length(0), Ok(3));
}

#[test]
fn insert_newline_splits_the_line() {
    let mut b = TextBuffer::load(Some("ab"));
    assert_eq!(b.insert_char(0, 1, '\n'), Ok(()));
    assert_eq!(b.line_count(), 2);
    assert_eq!(b.line_length(0), Ok(1));
    assert_eq!(b.line_length(1), Ok(1));
    assert_eq!(b.serialize(), "a\nb");
}

#[test]
fn insert_rejects_addresses_outside_the_buffer() {
    let mut b = TextBuffer::load(Some("ab"));
    assert_eq!(b.insert_char(1, 0, 'x'), Err(IndexOutOfRange));
    assert_eq!(b.insert_char(0, 3, 'x'), Err(IndexOutOfRange));
    assert_eq!(b.serialize(), "ab");
}

#[test]
fn delete_shifts_characters_left() {
    let mut b = TextBuffer::load(Some("abc"));
    assert_eq!(b.delete_char(0, 1), Ok(()));
    assert_eq!(b.serialize(), "ac");
}

#[test]
fn delete_at_line_end_merges_with_next_line() {
    let mut b = TextBuffer::load(Some("ab\ncd"));
    assert_eq!(b.delete_char(0, 2), Ok(()));
    assert_eq!(b.line_count(), 1);
    assert_eq!(b.line_length(0), Ok(4));
    assert_eq!(b.serialize(), "abcd");
}

#[test]
fn delete_rejects_addresses_that_hold_no_character() {
    let mut b = TextBuffer::load(Some("ab\ncd"));
    assert_eq!(b.delete_char(2, 0), Err(IndexOutOfRange));
    assert_eq!(b.delete_char(0, 3), Err(IndexOutOfRange));
    assert_eq!(b.delete_char(1, 2), Err(IndexOutOfRange));
    assert_eq!(b.serialize(), "ab\ncd");
}

#[test]
fn out_of_range_error_names_itself() {
    assert_eq!(IndexOutOfRange.message(), "index out of range");
}

#[test]
fn line_count_is_at_least_one_after_edits() {
    let mut b = TextBuffer::load(None);
    assert!(b.line_count() >= 1);
    assert_eq!(b.insert_char(0, 0, '\n'), Ok(()));
    assert_eq!(b.delete_char(0, 0), Ok(()));
    assert!(b.line_count() >= 1);
}

#[test]
fn serialize_then_load_round_trips_edited_buffer() {
    let mut b = TextBuffer::load(None);
    assert_eq!(b.insert_char(0, 0, 'h'), Ok(()));
    assert_eq!(b.insert_char(0, 1, 'i'), Ok(()));
    assert_eq!(b.insert_char(0, 2, '\n'), Ok(()));
    assert_eq!(b.insert_char(1, 0, 'y'), Ok(()));
    assert_eq!(b.delete_char(1, 0), Ok(()));
    let text = b.serialize();
    let reloaded = TextBuffer::load(Some(text.as_str()));
    assert_eq!(reloaded.line_count(), b.line_count());
    assert_eq!(reloaded.line_length(0), b.line_length(0));
    assert_eq!(reloaded.line_length(1), b.line_length(1));
    assert_eq!(reloaded.serialize(), text);
    assert_eq!(text, "hi\n");
}
