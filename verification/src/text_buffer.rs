//! The editable text of one document, organized into lines. The text
//! itself lives in a rope; a verified index of per-line lengths keeps
//! every line query cheap and lets each edit address the rope by
//! character position. The abstraction is the sequence of lines.

use vstd::prelude::*;

use ropey::Rope;

use crate::errors::IndexOutOfRange;
use crate::rope_store::{
    rope_char, rope_from_str, rope_insert_char, rope_len_chars, rope_new, rope_remove_range,
    rope_text, rope_to_string,
};
use crate::text_model::{
    delete_at, insert_at, joined, lemma_insert_in_line, lemma_joined_len, lemma_joined_push_char,
    lemma_joined_push_line, lemma_merge_lines, lemma_remove_in_line, lemma_split_line,
    lemma_start_in_bounds, line_ok, lines_ok, start_of,
};

verus! {

/// The full text of one file as an ordered sequence of lines.
pub struct TextBuffer {
    rope: Rope,
    line_lens: Vec<usize>,
    lines: Ghost<Seq<Seq<char>>>,
}

impl View for TextBuffer {
    type V = Seq<Seq<char>>;

    closed spec fn view(&self) -> Seq<Seq<char>> {
        self.lines@
    }
}

impl TextBuffer {
    /// The rope holds the joined lines, the length index matches the
    /// lines, and there is always at least one line.
    pub closed spec fn wf(&self) -> bool {
        &&& lines_ok(self.lines@)
        &&& self.line_lens@.len() == self.lines@.len()
        &&& (forall|i: int|
            0 <= i < self.lines@.len() ==> self.line_lens@[i] == #[trigger] self.lines@[i].len())
        &&& rope_text(self.rope) == joined(self.lines@)
        &&& joined(self.lines@).len() <= usize::MAX
    }

    /// What well-formedness guarantees about the abstraction: the lines
    /// are a well-formed document whose joined text fits in memory.
    pub proof fn lemma_wf_props(&self)
        requires
            self.wf(),
        ensures
            lines_ok(self@),
            self@.len() >= 1,
            joined(self@).len() <= usize::MAX,
    {
    }

    /// Decodes text into a line-addressed buffer; with no content, an
    /// empty single-line buffer.
    pub fn load(contents: Option<&str>) -> (b: TextBuffer)
        ensures
            b.wf(),
            joined(b@) == (match contents {
                Some(s) => s@,
                None => Seq::<char>::empty(),
            }),
            contents is None ==> b@ == seq![Seq::<char>::empty()],
    {
        let rope = match contents {
            Some(s) => rope_from_str(s),
            None => rope_new(),
        };
        let n = rope_len_chars(&rope);
        let mut line_lens: Vec<usize> = Vec::new();
        line_lens.push(0);
        let ghost mut lines: Seq<Seq<char>> = seq![Seq::<char>::empty()];
        let mut i: usize = 0;
        while i < n
            invariant
                n == rope_text(rope).len(),
                rope_text(rope).len() <= usize::MAX,
                i <= n,
                lines_ok(lines),
                line_lens@.len() == lines.len(),
                forall|k: int| 0 <= k < lines.len() ==> line_lens@[k] == #[trigger] lines[k].len(),
                joined(lines) == rope_text(rope).take(i as int),
            decreases n - i,
        {
            let c = rope_char(&rope, i);
            proof {
                assert(rope_text(rope).take(i as int + 1) =~= rope_text(rope).take(i as int).push(
                    rope_text(rope)[i as int],
                ));
            }
            if c == '\n' {
                proof {
                    lemma_joined_push_line(lines);
                }
                line_lens.push(0);
                proof {
                    lines = lines.push(Seq::<char>::empty());
                }
            } else {
                proof {
                    lemma_joined_push_char(lines, c);
                    lemma_joined_len(lines);
                    lemma_start_in_bounds(lines, lines.len() - 1);
                }
                let last = line_lens.len() - 1;
                let v = line_lens[last];
                line_lens.set(last, v + 1);
                proof {
                    lines = lines.update(lines.len() - 1, lines.last().push(c));
                }
            }
            i = i + 1;
        }
        proof {
            assert(rope_text(rope).take(n as int) =~= rope_text(rope));
        }
        TextBuffer { rope, line_lens, lines: Ghost(lines) }
    }

    /// A buffer always has at least one (possibly empty) line.
    pub fn line_count(&self) -> (n: usize)
        requires
            self.wf(),
        ensures
            n == self@.len(),
            n >= 1,
    {
        self.line_lens.len()
    }

    /// The number of characters on the addressed line.
    pub fn line_length(&self, line: usize) -> (r: Result<usize, IndexOutOfRange>)
        requires
            self.wf(),
        ensures
            (r is Ok) <==> (line as int) < self@.len(),
            r matches Ok(l) ==> l == self@[line as int].len(),
            r is Err ==> r == Err::<usize, IndexOutOfRange>(IndexOutOfRange),
    {
        if line < self.line_lens.len() {
            Ok(self.line_lens[line])
        } else {
            Err(IndexOutOfRange)
        }
    }

    /// The total number of characters of the joined text.
    pub fn char_count(&self) -> (n: usize)
        requires
            self.wf(),
        ensures
            n == joined(self@).len(),
    {
        rope_len_chars(&self.rope)
    }

    /// The character position in the flat text of (line, column).
    fn char_index(&self, line: usize, column: usize) -> (idx: usize)
        requires
            self.wf(),
            (line as int) < self@.len(),
            column <= self@[line as int].len(),
        ensures
            idx == start_of(self@, line as int) + column,
            idx + (self@[line as int].len() - column) <= joined(self@).len(),
    {
        let mut idx: usize = 0;
        let mut j: usize = 0;
        while j < line
            invariant
                self.wf(),
                (line as int) < self@.len(),
                j <= line,
                idx == start_of(self@, j as int),
            decreases line - j,
        {
            proof {
                lemma_start_in_bounds(self@, j as int + 1);
            }
            idx = idx + self.line_lens[j] + 1;
            j = j + 1;
        }
        proof {
            lemma_start_in_bounds(self@, line as int);
        }
        idx + column
    }

    /// Inserts `ch` at the given address, shifting what follows right; a
    /// `'\n'` splits the line there. Rejects an address outside the
    /// buffer, leaving it unchanged.
    pub fn insert_char(&mut self, line: usize, column: usize, ch: char) -> (r: Result<
        (),
        IndexOutOfRange,
    >)
        requires
            old(self).wf(),
            joined(old(self)@).len() < usize::MAX,
        ensures
            final(self).wf(),
            ((line as int) < old(self)@.len() && column <= old(self)@[line as int].len()) ==> (r
                is Ok && final(self)@ == insert_at(old(self)@, line as int, column as int, ch)),
            !((line as int) < old(self)@.len() && column <= old(self)@[line as int].len()) ==> (r
                is Err && *final(self) == *old(self)),
    {
        if line >= self.line_lens.len() {
            return Err(IndexOutOfRange);
        }
        let llen = self.line_lens[line];
        if column > llen {
            return Err(IndexOutOfRange);
        }
        let pos = self.char_index(line, column);
        rope_insert_char(&mut self.rope, pos, ch);
        if ch == '\n' {
            proof {
                lemma_split_line(self.lines@, line as int, column as int);
            }
            let tail = llen - column;
            self.line_lens.set(line, column);
            self.line_lens.insert(line + 1, tail);
            proof {
                let old_lines = self.lines@;
                let new_lines = insert_at(old_lines, line as int, column as int, '\n');
                self.lines@ = new_lines;
                assert(self.line_lens@ =~= Seq::new(
                    new_lines.len(),
                    |i: int| new_lines[i].len() as usize,
                )) by {
                    assert(new_lines.len() == old_lines.len() + 1);
                    assert(new_lines[line as int] == old_lines[line as int].subrange(
                        0,
                        column as int,
                    ));
                    assert(new_lines[line as int + 1] == old_lines[line as int].subrange(
                        column as int,
                        old_lines[line as int].len() as int,
                    ));
                    assert(forall|i: int|
                        0 <= i < line ==> #[trigger] new_lines[i] == old_lines[i]);
                    assert(forall|i: int|
                        line + 1 < i < new_lines.len() ==> #[trigger] new_lines[i] == old_lines[i
                            - 1]);
                }
            }
        } else {
            proof {
                lemma_insert_in_line(self.lines@, line as int, column as int, ch);
                lemma_start_in_bounds(self.lines@, line as int);
            }
            self.line_lens.set(line, llen + 1);
            proof {
                let old_lines = self.lines@;
                self.lines@ = old_lines.update(
                    line as int,
                    old_lines[line as int].insert(column as int, ch),
                );
            }
        }
        Ok(())
    }

    /// Removes the character at the given address, shifting what follows
    /// left. The position one past the end of a non-final line holds the
    /// separator: removing it merges the line with the one after it
    /// (equivalently, the start of a non-first line is merged into its
    /// predecessor). Rejects an address that holds no character.
    pub fn delete_char(&mut self, line: usize, column: usize) -> (r: Result<(), IndexOutOfRange>)
        requires
            old(self).wf(),
        ensures
            final(self).wf(),
            ((line as int) < old(self)@.len() && (column < old(self)@[line as int].len() || (column
                == old(self)@[line as int].len() && (line as int) + 1 < old(self)@.len()))) ==> (r
                is Ok && final(self)@ == delete_at(old(self)@, line as int, column as int)),
            !((line as int) < old(self)@.len() && (column < old(self)@[line as int].len() || (
            column == old(self)@[line as int].len() && (line as int) + 1 < old(self)@.len())))
                ==> (r is Err && *final(self) == *old(self)),
    {
        if line >= self.line_lens.len() {
            return Err(IndexOutOfRange);
        }
        let llen = self.line_lens[line];
        if column < llen {
            let pos = self.char_index(line, column);
            let ghost pre = rope_text(self.rope);
            rope_remove_range(&mut self.rope, pos, pos + 1);
            proof {
                assert(pre.subrange(0, pos as int) + pre.subrange(pos as int + 1, pre.len() as int)
                    =~= pre.remove(pos as int));
                lemma_remove_in_line(self.lines@, line as int, column as int);
            }
            self.line_lens.set(line, llen - 1);
            proof {
                let old_lines = self.lines@;
                self.lines@ = old_lines.update(
                    line as int,
                    old_lines[line as int].remove(column as int),
                );
            }
            Ok(())
        } else if column == llen && line + 1 < self.line_lens.len() {
            let pos = self.char_index(line, column);
            proof {
                lemma_start_in_bounds(self@, line as int + 1);
                assert(start_of(self@, line as int + 1) == start_of(self@, line as int)
                    + self@[line as int].len() + 1);
            }
            let ghost pre = rope_text(self.rope);
            rope_remove_range(&mut self.rope, pos, pos + 1);
            proof {
                assert(pre.subrange(0, pos as int) + pre.subrange(pos as int + 1, pre.len() as int)
                    =~= pre.remove(pos as int));
                lemma_merge_lines(self.lines@, line as int);
            }
            let next_len = self.line_lens[line + 1];
            proof {
                lemma_start_in_bounds(self.lines@, line as int);
                lemma_start_in_bounds(self.lines@, line as int + 1);
                assert(start_of(self.lines@, line as int + 1) == start_of(self.lines@, line as int)
                    + self.lines@[line as int].len() + 1);
            }
            self.line_lens.set(line, llen + next_len);
            self.line_lens.remove(line + 1);
            proof {
                let old_lines = self.lines@;
                let new_lines = delete_at(old_lines, line as int, column as int);
                self.lines@ = new_lines;
                assert(self.line_lens@ =~= Seq::new(
                    new_lines.len(),
                    |i: int| new_lines[i].len() as usize,
                )) by {
                    assert(new_lines.len() == old_lines.len() - 1);
                    assert(new_lines[line as int] == old_lines[line as int] + old_lines[line as int
                        + 1]);
                    assert(forall|i: int|
                        0 <= i < line ==> #[trigger] new_lines[i] == old_lines[i]);
                    assert(forall|i: int|
                        line < i < new_lines.len() ==> #[trigger] new_lines[i] == old_lines[i
                            + 1]);
                }
            }
            Ok(())
        } else {
            Err(IndexOutOfRange)
        }
    }

    /// Renders all lines back to one text, joined by `'\n'`, suitable for
    /// writing verbatim to storage.
    pub fn serialize(&self) -> (s: String)
        requires
            self.wf(),
        ensures
            s@ == joined(self@),
    {
        rope_to_string(&self.rope)
    }
}

} // verus!
