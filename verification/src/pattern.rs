//! Regular expressions, matched by the `regex` crate.
//!
//! A pattern is kept as the text it is written in and compiled where it is
//! used. What matching gives is named here and not defined: the library's
//! contracts speak of these names.

use crate::text::opt_chars;
use vstd::prelude::*;

verus! {

/// What replacing every match of `pattern` in `text` by `replacement` gives,
/// `$` references to capture groups in `replacement` filled in; `None` where
/// `pattern` is no regular expression.
pub uninterp spec fn regex_replace_all(
    pattern: Seq<char>,
    text: Seq<char>,
    replacement: Seq<char>,
) -> Option<Seq<char>>;

/// What the capture group `index` holds in the first match of `pattern` in
/// `text`; `None` where `pattern` is no regular expression, where it does not
/// match, and where the group is missing or took no part in the match.
pub uninterp spec fn regex_group(
    pattern: Seq<char>,
    text: Seq<char>,
    index: usize,
) -> Option<Seq<char>>;

/// `Regex::replace_all` on the pattern compiled by `Regex::new`: the result
/// is named `regex_replace_all`, and is `None` exactly where compiling fails.
#[verifier::external_body]
pub(crate) fn replace_all(pattern: &str, text: &str, replacement: &str) -> (r: Option<String>)
    ensures
        opt_chars(r) == regex_replace_all(pattern@, text@, replacement@),
{
    match regex::Regex::new(pattern) {
        Ok(re) => Some(re.replace_all(text, replacement).into_owned()),
        Err(_) => None,
    }
}

/// `Regex::captures` on the pattern compiled by `Regex::new`, and of the
/// captures the group that `Captures::get` gives for `index`: the result is
/// named `regex_group`.
#[verifier::external_body]
pub(crate) fn capture_group(pattern: &str, text: &str, index: usize) -> (r: Option<String>)
    ensures
        opt_chars(r) == regex_group(pattern@, text@, index),
{
    let re = match regex::Regex::new(pattern) {
        Ok(re) => re,
        Err(_) => return None,
    };
    let found = re.captures(text)?;
    found.get(index).map(|m| m.as_str().to_string())
}

} // verus!
