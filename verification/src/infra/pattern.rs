//! Regular expressions.
use vstd::prelude::*;

verus! {

/// What `regex::Regex::new(pattern)` followed by `Regex::captures(text)`
/// yields, each capture group (group 0 being the whole match) given by its
/// text: `None` when the pattern does not compile or does not match.
pub uninterp spec fn regex_captures_view(pattern: Seq<char>, text: Seq<char>) -> Option<
    Seq<Option<Seq<char>>>,
>;

/// Calls `regex::Regex::new` and `Regex::captures`: the capture groups of
/// the leftmost-first match of `pattern` in `text`, or `None` when there is
/// no match or the pattern does not compile. The result is only named, not
/// described: the matching rules are the regex crate's.
#[verifier::external_body]
pub(crate) fn regex_captures(pattern: &str, text: &str) -> (r: Option<Vec<Option<String>>>)
    ensures
        r.deep_view() == regex_captures_view(pattern@, text@),
{
    match regex::Regex::new(pattern) {
        Ok(re) => match re.captures(text) {
            Some(caps) => Some(caps.iter().map(|m| m.map(|m| m.as_str().to_string())).collect()),
            None => None,
        },
        Err(_) => None,
    }
}

} // verus!
