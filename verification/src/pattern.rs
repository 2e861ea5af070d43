//! Regular-expression matching, done by the `regex` crate.
//!
//! What a regular expression matches takes pages to state, so each operation's
//! result is given a name over the pattern's and the haystack's text. A pattern
//! that does not compile matches nothing.

use vstd::prelude::*;

verus! {

/// Whether `regex::Regex::new(pattern)` compiles and its `is_match` holds on `text`.
pub uninterp spec fn re_is_match(pattern: Seq<char>, text: Seq<char>) -> bool;

/// For each match of `pattern` in `text`, in order (`Regex::captures_iter`),
/// capture group 1 as the byte offset in `text` where it ends and its text, or
/// `None` where the group did not take part. Empty when the pattern does not compile.
pub uninterp spec fn re_group_one(pattern: Seq<char>, text: Seq<char>) -> Seq<
    Option<(nat, Seq<char>)>,
>;

/// `Regex::replace_all(text, replacement)`; `text` itself when the pattern does not compile.
pub uninterp spec fn re_replace_all(pattern: Seq<char>, text: Seq<char>, replacement: Seq<char>) -> Seq<
    char,
>;

/// Views of optional captures.
pub open spec fn group_views(v: Seq<Option<(usize, String)>>) -> Seq<Option<(nat, Seq<char>)>> {
    v.map_values(
        |o: Option<(usize, String)>|
            match o {
                Some(p) => Some((p.0 as nat, p.1@)),
                None => None,
            },
    )
}

/// `regex::Regex::new(pattern)` followed by `Regex::is_match(text)`.
/// The contract names the result; it claims nothing else.
#[verifier::external_body]
pub(crate) fn regex_is_match(pattern: &str, text: &str) -> (r: bool)
    ensures
        r == re_is_match(pattern@, text@),
{
    match regex::Regex::new(pattern) {
        Ok(re) => re.is_match(text),
        Err(_) => false,
    }
}

/// `regex::Regex::new(pattern)` followed by `Regex::captures_iter(text)`, each
/// capture converted to its group 1's end offset and text. The contract names the result.
#[verifier::external_body]
pub(crate) fn regex_group_one(pattern: &str, text: &str) -> (r: Vec<Option<(usize, String)>>)
    ensures
        group_views(r@) == re_group_one(pattern@, text@),
{
    match regex::Regex::new(pattern) {
        Ok(re) => re.captures_iter(text).map(|c| c.get(1).map(|m| (m.end(), m.as_str().to_string()))).collect(),
        Err(_) => Vec::new(),
    }
}

/// `regex::Regex::new(pattern)` followed by `Regex::replace_all(text, replacement)`.
/// The contract names the result.
#[verifier::external_body]
pub(crate) fn regex_replace_all(pattern: &str, text: &str, replacement: &str) -> (r: String)
    ensures
        r@ == re_replace_all(pattern@, text@, replacement@),
{
    match regex::Regex::new(pattern) {
        Ok(re) => re.replace_all(text, replacement).into_owned(),
        Err(_) => text.to_string(),
    }
}

} // verus!
