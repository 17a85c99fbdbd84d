//! The finite state machine that gates which key events mean what:
//! `Normal` navigates and dispatches commands, `Insert` enters text,
//! `Command` holds a pending action, and `Quit` ends the session.

use vstd::prelude::*;

verus! {

/// Which class of key events is currently meaningful.
#[derive(Debug, Clone, Copy, PartialEq, Eq, Structural)]
pub enum Mode {
    Normal,
    Insert,
    Command,
    Quit,
}

/// One discrete key press delivered by the input source: a printable
/// character, the escape key, or any other key (ignored).
#[derive(Debug, Clone, Copy, PartialEq, Eq, Structural)]
pub enum Key {
    Char(char),
    Esc,
    Other,
}

/// The transition relation of the mode machine. From `Normal`: `i`
/// enters `Insert`, `:` enters `Command`, everything else stays.
/// From `Insert`: `Escape` returns to `Normal`, everything else stays.
/// From `Command`: `q` quits, `Escape` returns to `Normal`, everything
/// else (including `w`, which saves) stays. `Quit` has no way out.
pub open spec fn spec_transition(m: Mode, key: Key) -> Mode {
    match m {
        Mode::Normal => if key == Key::Char('i') {
            Mode::Insert
        } else if key == Key::Char(':') {
            Mode::Command
        } else {
            Mode::Normal
        },
        Mode::Insert => if key == Key::Esc {
            Mode::Normal
        } else {
            Mode::Insert
        },
        Mode::Command => if key == Key::Char('q') {
            Mode::Quit
        } else if key == Key::Esc {
            Mode::Normal
        } else {
            Mode::Command
        },
        Mode::Quit => Mode::Quit,
    }
}

/// `Quit` is absorbing: no key event leaves it, so a session that
/// reached it stays stopped.
pub proof fn lemma_quit_absorbing(key: Key)
    ensures
        spec_transition(Mode::Quit, key) == Mode::Quit,
{
}

impl Mode {
    /// The label the rendering surface shows for this mode.
    pub fn str(&self) -> (r: String)
        ensures
            *self == Mode::Normal ==> r@ == "Normal"@,
            *self == Mode::Insert ==> r@ == "Insert"@,
            *self == Mode::Command ==> r@ == "Command"@,
            *self == Mode::Quit ==> r@ == "Quit"@,
    {
        match self {
            Mode::Normal => "Normal".to_owned(),
            Mode::Insert => "Insert".to_owned(),
            Mode::Command => "Command".to_owned(),
            Mode::Quit => "Quit".to_owned(),
        }
    }
}

impl Default for Mode {
    /// A session starts in `Normal`.
    fn default() -> (m: Mode)
        ensures
            m == Mode::Normal,
    {
        Mode::Normal
    }
}

} // verus!
