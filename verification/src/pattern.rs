//! Searching a text for a pattern with one capture group.
//!
//! The search itself is done by the `regex` crate. What it finds is not
//! restated here: it is referred to by name, as a function of the pattern and
//! the text.

use vstd::prelude::*;

verus! {

/// What the first capture group of `pattern` holds in the leftmost match of
/// `pattern` in `text`, as the `regex` crate finds it.
///
/// `None` where `pattern` is no valid regular expression, where `text` has no
/// match, and where the match does not go through the group.
pub uninterp spec fn first_group(pattern: Seq<char>, text: Seq<char>) -> Option<Seq<char>>;

/// Compiles `pattern` with `regex::Regex::new`, searches `text` with
/// `Regex::captures` and copies out what `Captures::get(1)` matched.
///
/// Trusted: the body is not verified. The contract claims only that the
/// outcome is the one named `first_group`, that is, that it depends on the
/// pattern and the text alone. A pattern that does not compile gives `None`.
#[verifier::external_body]
pub(crate) fn capture_first_group(pattern: &str, text: &str) -> (r: Option<String>)
    ensures
        r.deep_view() == first_group(pattern@, text@),
{
    match regex::Regex::new(pattern) {
        Ok(re) => match re.captures(text) {
            Some(groups) => match groups.get(1) {
                Some(found) => Some(found.as_str().to_owned()),
                None => None,
            },
            None => None,
        },
        Err(_) => None,
    }
}

} // verus!
