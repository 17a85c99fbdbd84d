use edit_rs::cursor::CursorModel;
use edit_rs::text_buffer::TextBuffer;

#[test]
fn move_left_at_column_zero_is_idempotent() {
    let mut c = CursorModel::new();
    c.move_left();
    c.move_left();
    assert_eq!(c.position(), (0, 0));
}

#[test]
fn move_up_at_first_line_is_idempotent() {
    let b = TextBuffer::load(Some("abc\ndef"));
    let mut c = CursorModel::new();
    c.move_up(&b);
    c.move_up(&b);
    assert_eq!(c.position(), (0, 0));
}

#[test]
fn move_down_at_last_line_is_idempotent() {
    let b = TextBuffer::load(Some("abc\ndef"));
    let mut c = CursorModel::new();
    c.move_down(&b);
    c.move_down(&b);
    c.move_down(&b);
    assert_eq!(c.position(), (1, 0));
}

#[test]
fn move_right_stops_on_last_character() {
    let b = TextBuffer::load(Some("abc"));
    let mut c = CursorModel::new();
    c.move_right(&b);
    assert_eq!(c.position(), (0, 1));
    c.move_right(&b);
    assert_eq!(c.position(), (0, 2));
    c.move_right(&b);
    assert_eq!(c.position(), (0, 2));
}

#[test]
fn move_right_on_empty_line_stays_at_zero() {
    let b = TextBuffer::load(Some(""));
    let mut c = CursorModel::new();
    c.move_right(&b);
    assert_eq!(c.position(), (0, 0));
}

#[test]
fn down_then_right_lands_on_line_end_not_beyond() {
    let b = TextBuffer::load(Some("abc\ndef"));
    let mut c = CursorModel::new();
    assert_eq!(c.position(), (0, 0));
    c.move_down(&b);
    c.move_right(&b);
    c.move_right(&b);
    c.move_right(&b);
    assert_eq!(c.position(), (1, 2));
}

#[test]
fn column_is_clamped_against_the_destination_line_at_read_time() {
    let b = TextBuffer::load(Some("abcd\nx"));
    let mut c = CursorModel::new();
    c.move_right(&b);
    c.move_right(&b);
    c.move_right(&b);
    assert_eq!(c.position(), (0, 3));
    c.move_down(&b);
    assert_eq!(c.position(), (1, 3));
    assert_eq!(c.clamped_column(&b), 1);
}
