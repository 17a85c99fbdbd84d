//! The active edit/view position within a buffer. Every movement is
//! total: it clamps to the buffer's boundaries instead of failing, and
//! never by itself changes the editing mode. Vertical motion keeps the
//! column as it is; readers clamp the column against the destination
//! line at read time.

use vstd::prelude::*;

use crate::text_buffer::TextBuffer;

verus! {

/// A 2D (line, column) position over a `TextBuffer`, both 0-based.
#[derive(Debug, Clone, Copy, PartialEq, Eq, Structural)]
pub struct CursorModel {
    pub line: usize,
    pub column: usize,
}

/// The highest column navigation may sit on: the last character of a
/// non-empty line, column zero of an empty line — never one past the end.
pub open spec fn nav_limit(len: int) -> int {
    if len == 0 {
        0
    } else {
        len - 1
    }
}

/// A column clamped against a line of the given length at read time.
pub open spec fn clamped(col: int, len: int) -> int {
    if col <= len {
        col
    } else {
        len
    }
}

/// Where one leftward step lands: one column back, stopping at zero.
pub open spec fn spec_move_left(c: CursorModel) -> CursorModel {
    if c.column > 0 {
        CursorModel { line: c.line, column: (c.column - 1) as usize }
    } else {
        c
    }
}

/// Where one rightward step lands over a line of the given length: one
/// column forward, stopping at (and falling back to) the navigable limit.
pub open spec fn spec_move_right(c: CursorModel, len: int) -> CursorModel {
    if (c.column as int) < nav_limit(len) {
        CursorModel { line: c.line, column: (c.column + 1) as usize }
    } else {
        CursorModel { line: c.line, column: nav_limit(len) as usize }
    }
}

/// Where one upward step lands: one line up, stopping at the first line.
pub open spec fn spec_move_up(c: CursorModel) -> CursorModel {
    if c.line > 0 {
        CursorModel { line: (c.line - 1) as usize, column: c.column }
    } else {
        c
    }
}

/// Where one downward step lands over a buffer of the given line count:
/// one line down, stopping at the last line.
pub open spec fn spec_move_down(c: CursorModel, line_count: int) -> CursorModel {
    if (c.line as int) + 1 < line_count {
        CursorModel { line: (c.line + 1) as usize, column: c.column }
    } else {
        c
    }
}

impl CursorModel {
    /// The fixed start position of a fresh session.
    pub fn new() -> (c: CursorModel)
        ensures
            c == (CursorModel { line: 0, column: 0 }),
    {
        CursorModel { line: 0, column: 0 }
    }

    /// The current coordinates.
    pub fn position(&self) -> (p: (usize, usize))
        ensures
            p.0 == self.line,
            p.1 == self.column,
    {
        (self.line, self.column)
    }

    /// One column left; a no-op at column zero. Never wraps lines.
    pub fn move_left(&mut self)
        ensures
            *final(self) == spec_move_left(*old(self)),
    {
        if self.column > 0 {
            self.column = self.column - 1;
        }
    }

    /// One column right, clamped to the line's navigable limit.
    pub fn move_right(&mut self, buffer: &TextBuffer)
        requires
            buffer.wf(),
            (old(self).line as int) < buffer@.len(),
        ensures
            *final(self) == spec_move_right(*old(self), buffer@[old(self).line as int].len() as int),
    {
        let len = match buffer.line_length(self.line) {
            Ok(l) => l,
            Err(_) => 0,
        };
        let limit = if len == 0 {
            0
        } else {
            len - 1
        };
        if self.column < limit {
            self.column = self.column + 1;
        } else {
            self.column = limit;
        }
    }

    /// One line up; a no-op at the first line. The column is kept.
    pub fn move_up(&mut self, _buffer: &TextBuffer)
        ensures
            *final(self) == spec_move_up(*old(self)),
    {
        if self.line > 0 {
            self.line = self.line - 1;
        }
    }

    /// One line down; a no-op at the last line. The column is kept.
    pub fn move_down(&mut self, buffer: &TextBuffer)
        requires
            buffer.wf(),
            (old(self).line as int) < buffer@.len(),
        ensures
            *final(self) == spec_move_down(*old(self), buffer@.len() as int),
            (final(self).line as int) < buffer@.len(),
    {
        let count = buffer.line_count();
        if self.line + 1 < count {
            self.line = self.line + 1;
        }
    }

    /// The column this cursor reads as over the buffer: clamped against
    /// the addressed line's length.
    pub fn clamped_column(&self, buffer: &TextBuffer) -> (c: usize)
        requires
            buffer.wf(),
            (self.line as int) < buffer@.len(),
        ensures
            c == clamped(self.column as int, buffer@[self.line as int].len() as int),
            c <= buffer@[self.line as int].len(),
    {
        let len = match buffer.line_length(self.line) {
            Ok(l) => l,
            Err(_) => 0,
        };
        if self.column <= len {
            self.column
        } else {
            len
        }
    }
}

/// Moving left at column zero never changes the position, however often
/// it is repeated; likewise moving up at the first line and moving down
/// at the last line.
pub proof fn lemma_moves_idempotent_at_edges(c: CursorModel, line_count: int)
    ensures
        c.column == 0 ==> spec_move_left(c) == c,
        c.line == 0 ==> spec_move_up(c) == c,
        (c.line as int) == line_count - 1 ==> spec_move_down(c, line_count) == c,
{
}

/// Every position reachable by any sequence of moves stays addressable:
/// each move keeps the line below the line count, and the read-time
/// clamped column never exceeds the addressed line's length.
pub proof fn lemma_moves_stay_in_bounds(c: CursorModel, len: int, line_count: int)
    requires
        (c.line as int) < line_count,
        0 <= len,
    ensures
        (spec_move_left(c).line as int) < line_count,
        (spec_move_right(c, len).line as int) < line_count,
        (spec_move_up(c).line as int) < line_count,
        (spec_move_down(c, line_count).line as int) < line_count,
        0 <= clamped(c.column as int, len) <= len,
{
}

} // verus!
