use edit_rs::app::App;
use edit_rs::errors::FileNameError;
use edit_rs::file_handler::FileHandler;
use edit_rs::mode::{Key, Mode};

fn fresh_unnamed_session() -> App {
    App::new(FileHandler::new(None, None))
}

#[test]
fn session_starts_in_normal_mode_at_origin() {
    let app = fresh_unnamed_session();
    assert_eq!(app.mode, Mode::Normal);
    assert_eq!(app.cursor_position.line, 0);
    assert_eq!(app.cursor_position.column, 0);
    assert!(app.is_running());
}

#[test]
fn printable_key_in_normal_mode_mutates_nothing() {
    let mut app = fresh_unnamed_session();
    let before = app.file_handler.file_contents.serialize();
    let save = app.handle_key_press(Key::Char('x'));
    assert_eq!(save, None);
    assert_eq!(app.mode, Mode::Normal);
    assert_eq!(app.file_handler.file_contents.serialize(), before);
    assert_eq!(app.cursor_position.line, 0);
    assert_eq!(app.cursor_position.column, 0);
}

#[test]
fn typing_then_saving_without_a_name_reports_it() {
    let mut app = fresh_unnamed_session();
    app.handle_key_press(Key::Char('i'));
    assert_eq!(app.mode, Mode::Insert);
    app.handle_key_press(Key::Char('h'));
    app.handle_key_press(Key::Char('i'));
    app.handle_key_press(Key::Esc);
    assert_eq!(app.mode, Mode::Normal);
    app.handle_key_press(Key::Char(':'));
    assert_eq!(app.mode, Mode::Command);
    let save = app.handle_key_press(Key::Char('w'));
    assert_eq!(save, None);
    assert_eq!(app.file_handler.file_contents.serialize(), "hi");
    assert_eq!(app.footer_text, "provide a file name");
}

#[test]
fn saving_with_a_bound_name_hands_back_the_text() {
    let mut app = App::new(FileHandler::new(Some("notes.txt".to_string()), Some("abc")));
    app.handle_key_press(Key::Char(':'));
    let save = app.handle_key_press(Key::Char('w'));
    assert_eq!(save, Some("abc".to_string()));
    assert_eq!(app.mode, Mode::Command);
    app.note_save_result(true);
    assert_eq!(app.footer_text, "file saved");
    app.note_save_result(false);
    assert_eq!(app.footer_text, "write error");
}

#[test]
fn colon_then_q_quits_and_stops_the_loop() {
    let mut app = fresh_unnamed_session();
    app.handle_key_press(Key::Char(':'));
    app.handle_key_press(Key::Char('q'));
    assert_eq!(app.mode, Mode::Quit);
    assert!(!app.is_running());
    app.handle_key_press(Key::Char('i'));
    assert_eq!(app.mode, Mode::Quit);
}

#[test]
fn escape_leaves_command_mode() {
    let mut app = fresh_unnamed_session();
    app.handle_key_press(Key::Char(':'));
    app.handle_key_press(Key::Esc);
    assert_eq!(app.mode, Mode::Normal);
}

#[test]
fn insert_mode_enters_text_at_the_cursor() {
    let mut app = App::new(FileHandler::new(None, Some("ad")));
    app.handle_key_press(Key::Char('l'));
    assert_eq!(app.cursor_position.column, 1);
    app.handle_key_press(Key::Char('i'));
    app.handle_key_press(Key::Char('b'));
    app.handle_key_press(Key::Char('c'));
    assert_eq!(app.file_handler.file_contents.serialize(), "abcd");
    assert_eq!(app.cursor_position.column, 3);
}

#[test]
fn entering_a_line_break_opens_a_new_line() {
    let mut app = App::new(FileHandler::new(None, Some("ab")));
    app.handle_key_press(Key::Char('l'));
    app.handle_key_press(Key::Char('i'));
    app.handle_key_press(Key::Char('\n'));
    assert_eq!(app.file_handler.file_contents.serialize(), "a\nb");
    assert_eq!(app.cursor_position.line, 1);
    assert_eq!(app.cursor_position.column, 0);
}

#[test]
fn navigation_moves_the_cursor_in_normal_mode() {
    let mut app = App::new(FileHandler::new(None, Some("abc\ndef")));
    app.handle_key_press(Key::Char('j'));
    app.handle_key_press(Key::Char('l'));
    app.handle_key_press(Key::Char('l'));
    app.handle_key_press(Key::Char('l'));
    assert_eq!(app.cursor_position.line, 1);
    assert_eq!(app.cursor_position.column, 2);
    app.handle_key_press(Key::Char('k'));
    app.handle_key_press(Key::Char('h'));
    assert_eq!(app.cursor_position.line, 0);
    assert_eq!(app.cursor_position.column, 1);
}

#[test]
fn mode_labels_match_the_modes() {
    assert_eq!(Mode::Normal.str(), "Normal");
    assert_eq!(Mode::Insert.str(), "Insert");
    assert_eq!(Mode::Command.str(), "Command");
    assert_eq!(Mode::Quit.str(), "Quit");
    assert_eq!(Mode::default(), Mode::Normal);
}

#[test]
fn save_without_a_name_is_a_named_error() {
    let handler = FileHandler::new(None, None);
    assert_eq!(handler.save_file(), Err(FileNameError));
    assert_eq!(
        FileNameError.message(),
        "filename should be provided in order to write file"
    );
}

#[test]
fn save_with_a_name_serializes_the_buffer() {
    let handler = FileHandler::new(Some("a.txt".to_string()), Some("x\ny"));
    assert_eq!(handler.save_file(), Ok("x\ny".to_string()));
}
