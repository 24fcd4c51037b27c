//! Finding the placeholders of a template string.

use regex::Regex;
use vstd::prelude::*;

verus! {

/// The names of the placeholders that occur in `text`, one entry per occurrence, from left
/// to right. A placeholder is a run of one or more word characters enclosed in braces; what
/// counts as a word character, and which braces pair up, is decided by the `regex` crate on
/// the pattern `\{(\w+)\}`.
pub uninterp spec fn placeholder_names(text: Seq<char>) -> Seq<Seq<char>>;

/// Runs `Regex::captures_iter` with the pattern `\{(\w+)\}` over `text` and collects the
/// first capture group of each match. The contract is not proved: it states that the result
/// depends on the characters of `text` alone, and gives that result its name.
#[verifier::external_body]
pub(crate) fn scan_placeholders(text: &str) -> (names: Vec<String>)
    ensures
        names.deep_view() == placeholder_names(text@),
{
    let re = Regex::new(r"\{(\w+)\}").expect("compile regex for placeholder");
    re.captures_iter(text).map(|cap| cap[1].to_owned()).collect()
}

} // verus!
