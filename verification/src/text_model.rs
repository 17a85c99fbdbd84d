//! Mathematical model of a text document: a non-empty sequence of lines
//! (each free of line breaks) together with the flat character sequence
//! obtained by joining the lines with `'\n'`.

use vstd::prelude::*;

verus! {

/// A line never contains the separator character.
pub open spec fn line_ok(l: Seq<char>) -> bool {
    forall|j: int| 0 <= j < l.len() ==> l[j] != '\n'
}

/// A well-formed document: at least one line, and no line contains `'\n'`.
pub open spec fn lines_ok(lines: Seq<Seq<char>>) -> bool {
    &&& lines.len() >= 1
    &&& forall|i: int| 0 <= i < lines.len() ==> line_ok(#[trigger] lines[i])
}

/// The flat text of a document: its lines joined by `'\n'`.
pub open spec fn joined(lines: Seq<Seq<char>>) -> Seq<char>
    decreases lines.len(),
{
    if lines.len() == 0 {
        Seq::empty()
    } else if lines.len() == 1 {
        lines[0]
    } else {
        lines[0] + seq!['\n'] + joined(lines.drop_first())
    }
}

/// Character index at which line `k` starts within the joined text.
pub open spec fn start_of(lines: Seq<Seq<char>>, k: int) -> int
    decreases k,
{
    if k <= 0 {
        0
    } else {
        start_of(lines, k - 1) + lines[k - 1].len() + 1
    }
}

/// `start_of` against the tail of the document, shifted by the first line.
proof fn lemma_start_of_drop(lines: Seq<Seq<char>>, k: int)
    requires
        lines.len() >= 1,
        1 <= k <= lines.len(),
    ensures
        start_of(lines.drop_first(), k - 1) == start_of(lines, k) - lines[0].len() - 1,
    decreases k,
{
    if k == 1 {
        assert(start_of(lines, 0) == 0);
        assert(start_of(lines.drop_first(), 0) == 0);
        assert(start_of(lines, 1) == lines[0].len() + 1);
    } else {
        lemma_start_of_drop(lines, k - 1);
        assert(lines.drop_first()[k - 2] == lines[k - 1]);
    }
}

/// The joined text ends exactly where the last line ends.
pub proof fn lemma_joined_len(lines: Seq<Seq<char>>)
    requires
        lines.len() >= 1,
    ensures
        joined(lines).len() == start_of(lines, lines.len() - 1) + lines[lines.len() - 1].len(),
    decreases lines.len(),
{
    if lines.len() > 1 {
        lemma_joined_len(lines.drop_first());
        lemma_start_of_drop(lines, lines.len() - 1);
    }
}

/// Every line lies within the joined text.
pub proof fn lemma_start_in_bounds(lines: Seq<Seq<char>>, k: int)
    requires
        0 <= k < lines.len(),
    ensures
        k <= start_of(lines, k),
        start_of(lines, k) + lines[k].len() <= joined(lines).len(),
    decreases lines.len() - k,
{
    if k + 1 < lines.len() {
        lemma_start_in_bounds(lines, k + 1);
    } else {
        lemma_joined_len(lines);
    }
    if k > 0 {
        lemma_start_in_bounds_low(lines, k);
    }
}

/// The document that results from inserting `c` inside line `k` at `col`
/// (for `c != '\n'`), or from splitting line `k` at `col` (for `c == '\n'`).
pub open spec fn insert_at(lines: Seq<Seq<char>>, k: int, col: int, c: char) -> Seq<Seq<char>> {
    if c == '\n' {
        lines.subrange(0, k) + seq![lines[k].subrange(0, col)]
            + seq![lines[k].subrange(col, lines[k].len() as int)] + lines.subrange(
            k + 1,
            lines.len() as int,
        )
    } else {
        lines.update(k, lines[k].insert(col, c))
    }
}

/// The document that results from removing the character at `col` of line
/// `k` (for `col < lines[k].len()`), or from merging line `k` with the line
/// after it (for `col == lines[k].len()`).
pub open spec fn delete_at(lines: Seq<Seq<char>>, k: int, col: int) -> Seq<Seq<char>> {
    if col < lines[k].len() {
        lines.update(k, lines[k].remove(col))
    } else {
        lines.subrange(0, k) + seq![lines[k] + lines[k + 1]] + lines.subrange(
            k + 2,
            lines.len() as int,
        )
    }
}

/// Inserting into the right part of a concatenation.
proof fn lemma_insert_shift(a: Seq<char>, b: Seq<char>, i: int, c: char)
    requires
        0 <= i <= b.len(),
    ensures
        (a + b).insert(a.len() + i, c) == a + b.insert(i, c),
{
    assert((a + b).insert(a.len() + i, c) =~= a + b.insert(i, c));
}

/// Removing from the right part of a concatenation.
proof fn lemma_remove_shift(a: Seq<char>, b: Seq<char>, i: int)
    requires
        0 <= i < b.len(),
    ensures
        (a + b).remove(a.len() + i) == a + b.remove(i),
{
    assert((a + b).remove(a.len() + i) =~= a + b.remove(i));
}

/// Editing a line edits the joined text at the line's start offset.
pub proof fn lemma_insert_in_line(lines: Seq<Seq<char>>, k: int, col: int, c: char)
    requires
        0 <= k < lines.len(),
        0 <= col <= lines[k].len(),
    ensures
        joined(lines.update(k, lines[k].insert(col, c))) == joined(lines).insert(
            start_of(lines, k) + col,
            c,
        ),
    decreases k,
{
    let upd = lines.update(k, lines[k].insert(col, c));
    if k == 0 {
        if lines.len() == 1 {
            assert(joined(upd) =~= joined(lines).insert(col, c));
        } else {
            assert(upd.drop_first() =~= lines.drop_first());
            assert(joined(upd) == lines[0].insert(col, c) + seq!['\n'] + joined(
                lines.drop_first(),
            ));
            assert(joined(upd) =~= joined(lines).insert(col, c));
        }
    } else {
        let ld = lines.drop_first();
        lemma_insert_in_line(ld, k - 1, col, c);
        lemma_start_of_drop(lines, k);
        lemma_start_in_bounds(ld, k - 1);
        assert(ld[k - 1] == lines[k]);
        assert(upd.drop_first() =~= ld.update(k - 1, lines[k].insert(col, c)));
        assert(joined(upd) == lines[0] + seq!['\n'] + joined(ld).insert(
            start_of(ld, k - 1) + col,
            c,
        ));
        lemma_insert_shift(
            lines[0] + seq!['\n'],
            joined(ld),
            start_of(ld, k - 1) + col,
            c,
        );
        assert((lines[0] + seq!['\n']).len() == lines[0].len() + 1);
    }
}

/// Splitting a line inserts a separator into the joined text.
pub proof fn lemma_split_line(lines: Seq<Seq<char>>, k: int, col: int)
    requires
        0 <= k < lines.len(),
        0 <= col <= lines[k].len(),
    ensures
        joined(insert_at(lines, k, col, '\n')) == joined(lines).insert(
            start_of(lines, k) + col,
            '\n',
        ),
    decreases k,
{
    let spl = insert_at(lines, k, col, '\n');
    assert(spl.len() == lines.len() + 1);
    if k == 0 {
        if lines.len() == 1 {
            assert(spl.len() == 2);
            assert(spl[0] == lines[0].subrange(0, col));
            assert(spl[1] == lines[0].subrange(col, lines[0].len() as int));
            assert(joined(spl) == spl[0] + seq!['\n'] + joined(spl.drop_first()));
            assert(joined(spl.drop_first()) == spl[1]);
            assert(joined(spl) =~= joined(lines).insert(col, '\n'));
        } else {
            let rest = seq![lines[0].subrange(col, lines[0].len() as int)] + lines.subrange(
                1,
                lines.len() as int,
            );
            assert(spl.drop_first() =~= rest);
            assert(rest.drop_first() =~= lines.drop_first());
            assert(joined(rest) == rest[0] + seq!['\n'] + joined(lines.drop_first()));
            assert(joined(spl) == lines[0].subrange(0, col) + seq!['\n'] + joined(rest));
            assert(joined(spl) =~= joined(lines).insert(col, '\n'));
        }
    } else {
        let ld = lines.drop_first();
        lemma_split_line(ld, k - 1, col);
        lemma_start_of_drop(lines, k);
        lemma_start_in_bounds(ld, k - 1);
        assert(ld[k - 1] == lines[k]);
        assert(spl.drop_first() =~= insert_at(ld, k - 1, col, '\n'));
        assert(joined(spl) == lines[0] + seq!['\n'] + joined(ld).insert(
            start_of(ld, k - 1) + col,
            '\n',
        ));
        lemma_insert_shift(
            lines[0] + seq!['\n'],
            joined(ld),
            start_of(ld, k - 1) + col,
            '\n',
        );
        assert((lines[0] + seq!['\n']).len() == lines[0].len() + 1);
    }
}

/// Removing a character of a line removes it from the joined text.
pub proof fn lemma_remove_in_line(lines: Seq<Seq<char>>, k: int, col: int)
    requires
        0 <= k < lines.len(),
        0 <= col < lines[k].len(),
    ensures
        joined(lines.update(k, lines[k].remove(col))) == joined(lines).remove(
            start_of(lines, k) + col,
        ),
    decreases k,
{
    let upd = lines.update(k, lines[k].remove(col));
    if k == 0 {
        if lines.len() == 1 {
            assert(joined(upd) =~= joined(lines).remove(col));
        } else {
            assert(upd.drop_first() =~= lines.drop_first());
            assert(joined(upd) == lines[0].remove(col) + seq!['\n'] + joined(lines.drop_first()));
            assert(joined(upd) =~= joined(lines).remove(col));
        }
    } else {
        let ld = lines.drop_first();
        lemma_remove_in_line(ld, k - 1, col);
        lemma_start_of_drop(lines, k);
        lemma_start_in_bounds(ld, k - 1);
        assert(ld[k - 1] == lines[k]);
        assert(upd.drop_first() =~= ld.update(k - 1, lines[k].remove(col)));
        assert(joined(upd) == lines[0] + seq!['\n'] + joined(ld).remove(start_of(ld, k - 1) + col));
        lemma_remove_shift(lines[0] + seq!['\n'], joined(ld), start_of(ld, k - 1) + col);
        assert((lines[0] + seq!['\n']).len() == lines[0].len() + 1);
    }
}

/// Merging a line with its successor removes the separator between them.
pub proof fn lemma_merge_lines(lines: Seq<Seq<char>>, k: int)
    requires
        0 <= k,
        k + 1 < lines.len(),
    ensures
        joined(delete_at(lines, k, lines[k].len() as int)) == joined(lines).remove(
            start_of(lines, k) + lines[k].len(),
        ),
    decreases k,
{
    let mrg = delete_at(lines, k, lines[k].len() as int);
    assert(mrg.len() == lines.len() - 1);
    if k == 0 {
        if lines.len() == 2 {
            assert(mrg =~= seq![lines[0] + lines[1]]);
            assert(joined(mrg) == lines[0] + lines[1]);
            assert(joined(lines.drop_first()) == lines[1]);
            assert(joined(mrg) =~= joined(lines).remove(lines[0].len() as int));
        } else {
            let ld = lines.drop_first();
            assert(mrg[0] == lines[0] + lines[1]);
            assert(mrg.drop_first() =~= ld.drop_first());
            assert(joined(ld) == ld[0] + seq!['\n'] + joined(ld.drop_first()));
            assert(joined(mrg) == (lines[0] + lines[1]) + seq!['\n'] + joined(ld.drop_first()));
            assert(joined(mrg) =~= joined(lines).remove(lines[0].len() as int));
        }
    } else {
        let ld = lines.drop_first();
        lemma_merge_lines(ld, k - 1);
        lemma_start_of_drop(lines, k);
        lemma_start_in_bounds(ld, k - 1);
        lemma_start_in_bounds(ld, k);
        assert(start_of(ld, k) == start_of(ld, k - 1) + ld[k - 1].len() + 1);
        assert(ld[k - 1] == lines[k]);
        assert(ld[k] == lines[k + 1]);
        assert(mrg.drop_first() =~= delete_at(ld, k - 1, ld[k - 1].len() as int));
        assert(joined(mrg) == lines[0] + seq!['\n'] + joined(ld).remove(
            start_of(ld, k - 1) + lines[k].len(),
        ));
        lemma_remove_shift(
            lines[0] + seq!['\n'],
            joined(ld),
            start_of(ld, k - 1) + lines[k].len(),
        );
        assert((lines[0] + seq!['\n']).len() == lines[0].len() + 1);
    }
}

/// Appending a character to the last line appends it to the joined text.
pub proof fn lemma_joined_push_char(lines: Seq<Seq<char>>, c: char)
    requires
        lines.len() >= 1,
    ensures
        joined(lines.update(lines.len() - 1, lines.last().push(c))) == joined(lines).push(c),
{
    let k = lines.len() - 1;
    lemma_insert_in_line(lines, k, lines[k].len() as int, c);
    lemma_joined_len(lines);
    assert(lines[k].insert(lines[k].len() as int, c) =~= lines[k].push(c));
    assert(joined(lines).insert(joined(lines).len() as int, c) =~= joined(lines).push(c));
}

/// Opening a fresh empty line appends a separator to the joined text.
pub proof fn lemma_joined_push_line(lines: Seq<Seq<char>>)
    requires
        lines.len() >= 1,
    ensures
        joined(lines.push(Seq::empty())) == joined(lines).push('\n'),
{
    let k = lines.len() - 1;
    lemma_split_line(lines, k, lines[k].len() as int);
    lemma_joined_len(lines);
    assert(insert_at(lines, k, lines[k].len() as int, '\n') =~~= lines.push(Seq::empty()));
    assert(joined(lines).insert(joined(lines).len() as int, '\n') =~= joined(lines).push('\n'));
}

/// Two well-formed documents with the same joined text are the same
/// document: joining is injective, so the flat text determines the lines.
#[verifier::rlimit(50)]
pub proof fn lemma_joined_injective(a: Seq<Seq<char>>, b: Seq<Seq<char>>)
    requires
        lines_ok(a),
        lines_ok(b),
        joined(a) == joined(b),
    ensures
        a == b,
    decreases a.len(),
{
    let j = joined(a);
    if a.len() == 1 && b.len() == 1 {
        assert(a =~= b);
    } else if a.len() == 1 {
        assert(j == b[0] + seq!['\n'] + joined(b.drop_first()));
        assert(j[b[0].len() as int] == '\n');
        assert(line_ok(a[0]));
        assert(false);
    } else if b.len() == 1 {
        assert(j == a[0] + seq!['\n'] + joined(a.drop_first()));
        assert(j[a[0].len() as int] == '\n');
        assert(line_ok(b[0]));
        assert(false);
    } else {
        let ad = a.drop_first();
        let bd = b.drop_first();
        assert(j == a[0] + seq!['\n'] + joined(ad));
        assert(j == b[0] + seq!['\n'] + joined(bd));
        if a[0].len() < b[0].len() {
            assert(j[a[0].len() as int] == '\n');
            assert(j[a[0].len() as int] == b[0][a[0].len() as int]);
            assert(line_ok(b[0]));
            assert(false);
        }
        if b[0].len() < a[0].len() {
            assert(j[b[0].len() as int] == '\n');
            assert(j[b[0].len() as int] == a[0][b[0].len() as int]);
            assert(line_ok(a[0]));
            assert(false);
        }
        assert(a[0].len() == b[0].len());
        assert forall|i: int| 0 <= i < a[0].len() implies a[0][i] == b[0][i] by {
            assert(j[i] == a[0][i]);
            assert(j[i] == b[0][i]);
        }
        assert(a[0] =~= b[0]);
        assert(joined(ad).len() == joined(bd).len());
        assert forall|i: int| 0 <= i < joined(ad).len() implies joined(ad)[i] == joined(bd)[i] by {
            assert(j[a[0].len() + 1 + i] == joined(ad)[i]);
            assert(j[b[0].len() + 1 + i] == joined(bd)[i]);
        }
        assert(joined(ad) =~= joined(bd));
        assert(forall|i: int| 0 <= i < ad.len() ==> line_ok(#[trigger] ad[i])) by {
            assert(forall|i: int| 0 <= i < ad.len() ==> ad[i] == a[i + 1]);
        }
        assert(forall|i: int| 0 <= i < bd.len() ==> line_ok(#[trigger] bd[i])) by {
            assert(forall|i: int| 0 <= i < bd.len() ==> bd[i] == b[i + 1]);
        }
        lemma_joined_injective(ad, bd);
        assert forall|i: int| 0 <= i < a.len() implies a[i] == b[i] by {
            if i >= 1 {
                assert(a[i] == ad[i - 1]);
                assert(b[i] == bd[i - 1]);
            }
        }
        assert(a =~= b);
    }
}

/// `start_of` grows at least as fast as the line index.
proof fn lemma_start_in_bounds_low(lines: Seq<Seq<char>>, k: int)
    requires
        0 <= k,
    ensures
        k <= start_of(lines, k),
    decreases k,
{
    if k > 0 {
        lemma_start_in_bounds_low(lines, k - 1);
    }
}

} // verus!
