//! Matching a text against a pattern, as the `regex` crate does it. The
//! contract of this module is taken on trust from the `regex` sources;
//! which texts a pattern matches is named here and not described.

use regex::Regex;
use vstd::prelude::*;

verus! {

/// Whether the pattern `pattern` matches somewhere in `text`; `None`
/// where the pattern does not compile.
pub uninterp spec fn regex_match(pattern: Seq<char>, text: Seq<char>) -> Option<bool>;

/// `Regex::new` and `Regex::is_match`: whether the pattern matches
/// somewhere in the text, or `None` where the pattern does not compile.
/// The result depends on the pattern and the text alone.
#[verifier::external_body]
pub(crate) fn pattern_matches(pattern: &str, text: &str) -> (matched: Option<bool>)
    ensures
        matched == regex_match(pattern@, text@),
{
    Regex::new(pattern).ok().map(|regex| regex.is_match(text))
}

} // verus!
