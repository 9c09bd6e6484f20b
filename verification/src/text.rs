//! Text: comparing it, and what the standard library reads from it.

use vstd::prelude::*;

verus! {

/// Whether two string slices hold the same characters.
pub fn same_text(a: &str, b: &str) -> (same: bool)
    ensures
        same == (a@ == b@),
{
    a.to_owned() == b.to_owned()
}

/// The text that `str::to_lowercase` makes of a text.
pub uninterp spec fn lowercase(s: Seq<char>) -> Seq<char>;

/// Lowercases a text with `str::to_lowercase`.
///
/// Trusted: the result is the standard library's lowercase mapping of the
/// characters, which depends on them alone. It is named, not spelled out.
#[verifier::external_body]
pub(crate) fn to_lowercase(s: &str) -> (lower: String)
    ensures
        lower@ == lowercase(s@),
{
    s.to_lowercase()
}

/// The number that `str::parse::<i32>` reads from a text, if it reads one.
pub uninterp spec fn parsed_i32(s: Seq<char>) -> Option<i32>;

/// Reads a 32-bit integer with `str::parse::<i32>`.
///
/// Trusted: the result is what the standard library's parser returns for
/// the characters, with its error dropped. It is named, not spelled out.
#[verifier::external_body]
pub(crate) fn parse_i32(s: &str) -> (value: Option<i32>)
    ensures
        value == parsed_i32(s@),
{
    s.parse::<i32>().ok()
}

} // verus!
