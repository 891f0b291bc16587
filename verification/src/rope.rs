use vstd::prelude::*;
use ropey::Rope;
use crate::lines::{line_of, line_start, num_lines};

verus! {

/// The rope type of the `ropey` crate, which holds the text of a buffer.
#[verifier::external_type_specification]
#[verifier::external_body]
pub struct ExRope(Rope);

/// The chars that a rope holds, in order.
pub uninterp spec fn rope_chars(r: Rope) -> Seq<char>;

/// `Rope::new`: an empty rope.
#[verifier::external_body]
pub(crate) fn rope_new() -> (r: Rope)
    ensures
        rope_chars(r) == Seq::<char>::empty(),
{
    Rope::new()
}

/// `Rope::from_str`: a rope holding the chars of `text`.
#[verifier::external_body]
pub(crate) fn rope_from_str(text: &str) -> (r: Rope)
    ensures
        rope_chars(r) == text@,
{
    Rope::from_str(text)
}

/// `Rope::len_chars`: the number of chars of the rope.
#[verifier::external_body]
pub(crate) fn rope_len_chars(r: &Rope) -> (n: usize)
    ensures
        n == rope_chars(*r).len(),
{
    r.len_chars()
}

/// `Rope::len_lines`: one more than the number of line breaks (LF, VT, FF,
/// CR, NEL, U+2028, U+2029, with CRLF counted once), as `num_lines` states.
#[verifier::external_body]
pub(crate) fn rope_len_lines(r: &Rope) -> (n: usize)
    ensures
        n == num_lines(rope_chars(*r)),
{
    r.len_lines()
}

/// `Rope::line_to_char`: the char index at which line `line_idx` starts; for
/// one past the last line, the number of chars.  It panics past that, which
/// `requires` leaves out.
#[verifier::external_body]
pub(crate) fn rope_line_to_char(r: &Rope, line_idx: usize) -> (n: usize)
    requires
        line_idx <= num_lines(rope_chars(*r)),
    ensures
        n == line_start(rope_chars(*r), line_idx as int),
{
    r.line_to_char(line_idx)
}

/// `Rope::line`: the chars of line `line_idx`, its line break included,
/// turned into a `String`.  It panics for a line that does not exist.
#[verifier::external_body]
pub(crate) fn rope_line(r: &Rope, line_idx: usize) -> (s: String)
    requires
        line_idx < num_lines(rope_chars(*r)),
    ensures
        s@ == line_of(rope_chars(*r), line_idx as int),
{
    r.line(line_idx).to_string()
}

/// `Rope::insert`: `text` inserted at char index `char_idx`.  It panics past
/// the end, which `requires` leaves out.
#[verifier::external_body]
pub(crate) fn rope_insert(r: &mut Rope, char_idx: usize, text: &str)
    requires
        char_idx <= rope_chars(*old(r)).len(),
    ensures
        rope_chars(*final(r)) == rope_chars(*old(r)).subrange(0, char_idx as int) + text@
            + rope_chars(*old(r)).subrange(char_idx as int, rope_chars(*old(r)).len() as int),
{
    r.insert(char_idx, text)
}

/// `Rope::remove`: the chars in `start..end` taken out.  It panics when
/// `start > end` or `end` is past the end, which `requires` leaves out.
#[verifier::external_body]
pub(crate) fn rope_remove(r: &mut Rope, start: usize, end: usize)
    requires
        start <= end <= rope_chars(*old(r)).len(),
    ensures
        rope_chars(*final(r)) == rope_chars(*old(r)).subrange(0, start as int) + rope_chars(
            *old(r),
        ).subrange(end as int, rope_chars(*old(r)).len() as int),
{
    r.remove(start..end)
}

/// `Rope`'s `Display`: all the chars of the rope as a `String`.
#[verifier::external_body]
pub(crate) fn rope_to_string(r: &Rope) -> (s: String)
    ensures
        s@ == rope_chars(*r),
{
    r.to_string()
}

/// `Rope::char`: the char at index `char_idx`.  It panics past the end,
/// which `requires` leaves out.
#[verifier::external_body]
pub(crate) fn rope_char(r: &Rope, char_idx: usize) -> (c: char)
    requires
        char_idx < rope_chars(*r).len(),
    ensures
        c == rope_chars(*r)[char_idx as int],
{
    r.char(char_idx)
}

} // verus!
