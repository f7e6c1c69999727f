//! Text functions of the standard library that the library calls.

use vstd::prelude::*;

verus! {

/// The words that `str::split_whitespace` gives for a text.
pub uninterp spec fn spec_split_whitespace(text: Seq<char>) -> Seq<Seq<char>>;

/// What `str::replace` gives for a text, the part to look for and the text
/// to put in its place.
pub uninterp spec fn spec_replace(text: Seq<char>, from: Seq<char>, to: Seq<char>) -> Seq<char>;

/// The texts as contracts see them.
pub open spec fn spec_text_views(texts: Seq<String>) -> Seq<Seq<char>> {
    Seq::new(texts.len(), |i: int| texts[i]@)
}

/// Calls `str::split_whitespace` of the standard library and collects the
/// words. Believed of it: the words depend on the characters of the text
/// alone.
#[verifier::external_body]
pub(crate) fn split_whitespace(text: &str) -> (r: Vec<String>)
    ensures
        spec_text_views(r@) == spec_split_whitespace(text@),
{
    text.split_whitespace().map(String::from).collect()
}

/// Calls `str::replace` of the standard library. Believed of it: the
/// result depends on the characters of the three texts alone.
#[verifier::external_body]
pub(crate) fn replace(text: &str, from: &str, to: &str) -> (r: String)
    ensures
        r@ == spec_replace(text@, from@, to@),
{
    text.replace(from, to)
}

} // verus!
