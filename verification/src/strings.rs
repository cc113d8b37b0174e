//! The string functions of the standard library that the searches are built
//! on, each with the contract that is assumed of it. Nothing in this file is
//! proved: the contracts restate the documentation of `str`.

use crate::text::{is_substring, line_views, lines_of};
use vstd::prelude::*;

verus! {

/// The lowercase form of `text`, as `str::to_lowercase` computes it.
///
/// The mapping follows the Unicode tables of the standard library and is
/// not spelled out here. All that is known of it is that it is a function
/// of the text: equal texts have equal lowercase forms.
pub uninterp spec fn lowercase(text: Seq<char>) -> Seq<char>;

/// `str::to_lowercase`: the string returned is the lowercase form of
/// `text`. What that form is, character by character, is left open.
pub assume_specification[ str::to_lowercase ](text: &str) -> (lowered: String)
    ensures
        lowered@ == lowercase(text@),
;

/// `str::lines`, collected into a vector: the slices of `text` that are its
/// lines, in order. Lines end at `"\n"` or `"\r\n"`, the terminator is left
/// out, the final terminator is optional, and a `'\r'` without a `'\n'`
/// behind it ends no line; [`lines_of`] says the same of the characters.
#[verifier::external_body]
pub(crate) fn split_lines<'a>(text: &'a str) -> (lines: Vec<&'a str>)
    ensures
        line_views(lines@) == lines_of(text@),
{
    text.lines().collect()
}

/// `str::contains` with a string slice as its pattern: true exactly when
/// `needle` matches a sub-slice of `text`.
#[verifier::external_body]
pub(crate) fn contains(text: &str, needle: &str) -> (found: bool)
    ensures
        found == is_substring(needle@, text@),
{
    text.contains(needle)
}

} // verus!
