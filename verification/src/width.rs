//! The width of text on the terminal, as the `unicode-width` crate tells it.

use unicode_width::UnicodeWidthChar;
use unicode_width::UnicodeWidthStr;
use vstd::prelude::*;

verus! {

/// The number of columns that `unicode_width::UnicodeWidthChar::width`
/// gives for a character, or `None` for a control character.
pub uninterp spec fn spec_char_width(c: char) -> Option<usize>;

/// The number of columns that `unicode_width::UnicodeWidthStr::width` gives
/// for a string.
pub uninterp spec fn spec_str_width(s: Seq<char>) -> usize;

/// Calls `unicode_width::UnicodeWidthChar::width`.
///
/// Believed of it: the result depends on the character alone.
#[verifier::external_body]
pub(crate) fn char_width(c: char) -> (r: Option<usize>)
    ensures
        r == spec_char_width(c),
{
    UnicodeWidthChar::width(c)
}

/// Calls `unicode_width::UnicodeWidthStr::width`.
///
/// Believed of it: the result depends on the characters of the string
/// alone.
#[verifier::external_body]
pub(crate) fn str_width(s: &str) -> (r: usize)
    ensures
        r == spec_str_width(s@),
{
    UnicodeWidthStr::width(s)
}

} // verus!
