//! Trusted boundary to the `ropey` crate, which stores the document text.
//! Every call into the rope goes through one of the wrappers below; their
//! contracts speak of `rope_text`, the character content of a rope.

use vstd::prelude::*;

use ropey::Rope;

verus! {

#[verifier::external_type_specification]
#[verifier::external_body]
pub struct ExRope(Rope);

/// The character content of a rope, as a flat sequence.
pub uninterp spec fn rope_text(r: Rope) -> Seq<char>;

/// Relies on `Rope::new`: creates an empty rope.
#[verifier::external_body]
pub(crate) fn rope_new() -> (r: Rope)
    ensures
        rope_text(r) == Seq::<char>::empty(),
{
    Rope::new()
}

/// Relies on `Rope::from_str`: the rope holds exactly the characters of
/// the slice. A rope reports its character count as a `usize`
/// (`Rope::len_chars`), so the count fits in `usize`.
#[verifier::external_body]
pub(crate) fn rope_from_str(s: &str) -> (r: Rope)
    ensures
        rope_text(r) == s@,
        rope_text(r).len() <= usize::MAX,
{
    Rope::from_str(s)
}

/// Relies on `Rope::len_chars`: the total number of characters.
#[verifier::external_body]
pub(crate) fn rope_len_chars(r: &Rope) -> (n: usize)
    ensures
        n == rope_text(*r).len(),
{
    r.len_chars()
}

/// Relies on `Rope::char`: the character at a character index. The index
/// bound keeps the call from panicking.
#[verifier::external_body]
pub(crate) fn rope_char(r: &Rope, char_idx: usize) -> (c: char)
    requires
        char_idx < rope_text(*r).len(),
    ensures
        c == rope_text(*r)[char_idx as int],
{
    r.char(char_idx)
}

/// Relies on `Rope::insert_char`: inserts one character at a character
/// index. The index bound keeps the call from panicking.
#[verifier::external_body]
pub(crate) fn rope_insert_char(r: &mut Rope, char_idx: usize, ch: char)
    requires
        char_idx <= rope_text(*old(r)).len(),
        rope_text(*old(r)).len() < usize::MAX,
    ensures
        rope_text(*final(r)) == rope_text(*old(r)).insert(char_idx as int, ch),
{
    r.insert_char(char_idx, ch)
}

/// Relies on `Rope::remove`: removes the character range `start..end`.
/// The range bounds keep the call from panicking.
#[verifier::external_body]
pub(crate) fn rope_remove_range(r: &mut Rope, start: usize, end: usize)
    requires
        start <= end,
        end <= rope_text(*old(r)).len(),
    ensures
        rope_text(*final(r)) == rope_text(*old(r)).subrange(0, start as int) + rope_text(
            *old(r),
        ).subrange(end as int, rope_text(*old(r)).len() as int),
{
    r.remove(start..end)
}

/// Relies on ropey's `impl From<&Rope> for String`: renders the whole
/// character content of the rope.
#[verifier::external_body]
pub(crate) fn rope_to_string(r: &Rope) -> (s: String)
    ensures
        s@ == rope_text(*r),
{
    String::from(r)
}

} // verus!
