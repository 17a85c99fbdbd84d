//! The editing session: owns one mode machine, one buffer, one cursor
//! and the optional bound file name, and applies at most one mutation
//! per received key event. Everything that touches the terminal or the
//! file system stays outside; a save surfaces here as the text to write.

use vstd::prelude::*;

use crate::cursor::{
    clamped, spec_move_down, spec_move_left, spec_move_right, spec_move_up, CursorModel,
};
use crate::file_handler::FileHandler;
use crate::mode::{spec_transition, Key, Mode};
use crate::text_model::{insert_at, joined};

verus! {

/// One editing session over one buffer, one cursor and one mode.
pub struct App {
    pub mode: Mode,
    pub file_handler: FileHandler,
    pub scroll_bar_state: usize,
    pub cursor_position: CursorModel,
    pub footer_text: String,
}

/// Where the cursor lands when navigation dispatches one of the four
/// movement characters; any other character leaves it in place.
pub open spec fn moved_cursor(c: CursorModel, b: Seq<Seq<char>>, movement_char: char) -> CursorModel {
    if movement_char == 'h' {
        spec_move_left(c)
    } else if movement_char == 'j' {
        spec_move_down(c, b.len() as int)
    } else if movement_char == 'k' {
        spec_move_up(c)
    } else if movement_char == 'l' {
        spec_move_right(c, b[c.line as int].len() as int)
    } else {
        c
    }
}

/// How one character entered in `Insert` mode transforms the session:
/// the column is clamped to the line at read time, the character goes in
/// at that address, and the cursor advances past it — to the start of
/// the freshly opened line for a line break. A buffer already at the
/// machine size limit is left unchanged.
pub open spec fn insert_outcome(pre: App, ch: char, post: App) -> bool {
    let b = pre.file_handler.file_contents@;
    let l = pre.cursor_position.line as int;
    let ec = clamped(pre.cursor_position.column as int, b[l].len() as int);
    if joined(b).len() < usize::MAX {
        &&& post.file_handler.file_contents@ == insert_at(b, l, ec, ch)
        &&& post.cursor_position == (if ch == '\n' {
            CursorModel { line: (pre.cursor_position.line + 1) as usize, column: 0 }
        } else {
            CursorModel { line: pre.cursor_position.line, column: (ec + 1) as usize }
        })
    } else {
        &&& post.file_handler.file_contents@ == b
        &&& post.cursor_position == pre.cursor_position
    }
}

impl App {
    /// The session's invariant: the buffer is well-formed and the cursor
    /// always addresses one of its lines.
    pub open spec fn wf(&self) -> bool {
        &&& self.file_handler.file_contents.wf()
        &&& (self.cursor_position.line as int) < self.file_handler.file_contents@.len()
    }

    /// The session's buffer, as lines.
    pub open spec fn buffer(&self) -> Seq<Seq<char>> {
        self.file_handler.file_contents@
    }

    /// A fresh session over the given handler: `Normal` mode, cursor at
    /// the fixed start position.
    pub fn new(file_handler: FileHandler) -> (app: App)
        requires
            file_handler.file_contents.wf(),
        ensures
            app.wf(),
            app.mode == Mode::Normal,
            app.file_handler == file_handler,
            app.scroll_bar_state == 0,
            app.cursor_position == (CursorModel { line: 0, column: 0 }),
            app.footer_text@ == "placeholder"@,
    {
        proof {
            file_handler.file_contents.lemma_wf_props();
        }
        App {
            mode: Mode::default(),
            file_handler,
            scroll_bar_state: 0,
            cursor_position: CursorModel::new(),
            footer_text: "placeholder".to_owned(),
        }
    }

    /// The session runs until the mode machine reaches `Quit`.
    pub fn is_running(&self) -> (r: bool)
        ensures
            r == (self.mode != Mode::Quit),
    {
        self.mode != Mode::Quit
    }

    /// Enters one character at the cursor address (column clamped to the
    /// line) and advances the cursor past it.
    pub fn insert_char(&mut self, ch: char)
        requires
            old(self).wf(),
        ensures
            final(self).wf(),
            insert_outcome(*old(self), ch, *final(self)),
            final(self).mode == old(self).mode,
            final(self).file_handler.file_name == old(self).file_handler.file_name,
            final(self).scroll_bar_state == old(self).scroll_bar_state,
            final(self).footer_text == old(self).footer_text,
    {
        proof {
            self.file_handler.file_contents.lemma_wf_props();
            crate::text_model::lemma_start_in_bounds(
                self.file_handler.file_contents@,
                self.cursor_position.line as int,
            );
        }
        if self.file_handler.file_contents.char_count() == usize::MAX {
            return ;
        }
        let line = self.cursor_position.line;
        let col = self.cursor_position.clamped_column(&self.file_handler.file_contents);
        let _r = self.file_handler.file_contents.insert_char(line, col, ch);
        if ch == '\n' {
            self.cursor_position = CursorModel { line: line + 1, column: 0 };
        } else {
            self.cursor_position = CursorModel { line, column: col + 1 };
        }
    }

    /// Dispatches one navigation character to the cursor.
    pub fn handle_cursor_movement(&mut self, movement_char: char)
        requires
            old(self).wf(),
        ensures
            final(self).wf(),
            final(self).cursor_position == moved_cursor(
                old(self).cursor_position,
                old(self).buffer(),
                movement_char,
            ),
            final(self).mode == old(self).mode,
            final(self).file_handler == old(self).file_handler,
            final(self).scroll_bar_state == old(self).scroll_bar_state,
            final(self).footer_text == old(self).footer_text,
    {
        if movement_char == 'h' {
            self.cursor_position.move_left();
        } else if movement_char == 'j' {
            self.cursor_position.move_down(&self.file_handler.file_contents);
        } else if movement_char == 'k' {
            self.cursor_position.move_up(&self.file_handler.file_contents);
        } else if movement_char == 'l' {
            self.cursor_position.move_right(&self.file_handler.file_contents);
        }
    }

    /// Produces the text a save must write, or records that no name is
    /// bound. With a bound name the result is the serialized buffer; the
    /// caller writes it and reports back through `note_save_result`.
    /// Without one the footer asks for a file name and nothing is
    /// written — the buffer on disk stays as it was.
    pub fn save_file(&mut self) -> (r: Option<String>)
        requires
            old(self).wf(),
        ensures
            final(self).wf(),
            final(self).mode == old(self).mode,
            final(self).cursor_position == old(self).cursor_position,
            final(self).scroll_bar_state == old(self).scroll_bar_state,
            final(self).file_handler == old(self).file_handler,
            old(self).file_handler.file_name is Some ==> (r matches Some(s) && s@ == joined(
                old(self).buffer(),
            ) && final(self).footer_text == old(self).footer_text),
            old(self).file_handler.file_name is None ==> (r is None && final(self).footer_text@
                == "provide a file name"@),
    {
        match self.file_handler.save_file() {
            Ok(s) => Some(s),
            Err(_) => {
                self.footer_text = "provide a file name".to_owned();
                None
            },
        }
    }

    /// Records the outcome of writing a requested save to storage.
    pub fn note_save_result(&mut self, ok: bool)
        requires
            old(self).wf(),
        ensures
            final(self).wf(),
            final(self).mode == old(self).mode,
            final(self).cursor_position == old(self).cursor_position,
            final(self).scroll_bar_state == old(self).scroll_bar_state,
            final(self).file_handler == old(self).file_handler,
            ok ==> final(self).footer_text@ == "file saved"@,
            !ok ==> final(self).footer_text@ == "write error"@,
    {
        if ok {
            self.footer_text = "file saved".to_owned();
        } else {
            self.footer_text = "write error".to_owned();
        }
    }

    /// Applies one key press: the mode moves along the transition
    /// relation, navigation moves the cursor, `Insert` enters text, and
    /// `w` in `Command` mode requests a save. Only a character key in
    /// `Insert` mode may mutate the buffer. The result is the text the
    /// caller must write to the bound name, when a save was requested
    /// and a name is bound.
    pub fn handle_key_press(&mut self, key: Key) -> (save: Option<String>)
        requires
            old(self).wf(),
        ensures
            final(self).wf(),
            final(self).mode == spec_transition(old(self).mode, key),
            final(self).file_handler.file_name == old(self).file_handler.file_name,
            final(self).scroll_bar_state == old(self).scroll_bar_state,
            !(old(self).mode == Mode::Insert && key matches Key::Char(_)) ==> final(self).buffer()
                == old(self).buffer(),
            old(self).mode == Mode::Insert ==> (key matches Key::Char(ch) ==> insert_outcome(
                *old(self),
                ch,
                *final(self),
            )),
            old(self).mode == Mode::Normal ==> (key matches Key::Char(m)
                ==> final(self).cursor_position == moved_cursor(
                old(self).cursor_position,
                old(self).buffer(),
                m,
            )),
            !(old(self).mode == Mode::Normal && key matches Key::Char(_)) && !(old(self).mode
                == Mode::Insert && key matches Key::Char(_))
                ==> final(self).cursor_position == old(self).cursor_position,
            (old(self).mode == Mode::Command && key == Key::Char('w'))
                ==> (old(self).file_handler.file_name is Some ==> (save matches Some(s) && s@
                == joined(old(self).buffer()) && final(self).footer_text == old(self).footer_text))
                && (old(self).file_handler.file_name is None ==> (save is None && final(
                self).footer_text@ == "provide a file name"@)),
            !(old(self).mode == Mode::Command && key == Key::Char('w'))
                ==> save is None && final(self).footer_text == old(self).footer_text,
    {
        match key {
            Key::Char(ch) => {
                if ch == 'q' && self.mode == Mode::Command {
                    self.mode = Mode::Quit;
                    None
                } else if ch == 'w' && self.mode == Mode::Command {
                    self.save_file()
                } else if ch == 'i' && self.mode == Mode::Normal {
                    self.mode = Mode::Insert;
                    None
                } else if ch == ':' && self.mode == Mode::Normal {
                    self.mode = Mode::Command;
                    None
                } else if self.mode == Mode::Normal {
                    self.handle_cursor_movement(ch);
                    None
                } else if self.mode == Mode::Insert {
                    self.insert_char(ch);
                    None
                } else {
                    None
                }
            },
            Key::Esc => {
                if self.mode == Mode::Insert || self.mode == Mode::Command {
                    self.mode = Mode::Normal;
                }
                None
            },
            Key::Other => None,
        }
    }
}

} // verus!
