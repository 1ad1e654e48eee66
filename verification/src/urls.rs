//! Verified code treats URLs as plain strings. Parsing and path extension
//! are the url crate's work, relied on through the two wrappers here.

use vstd::prelude::*;

verus! {

/// What `url::Url::parse` makes of a string: the parsed URL's
/// serialization, or nothing when the string is not a URL.
pub uninterp spec fn parsed_url(s: Seq<char>) -> Option<Seq<char>>;

/// Relies on url::Url::parse and the url crate's String conversion: the
/// parse outcome and the parsed URL's serialization depend on the string
/// alone.
#[verifier::external_body]
pub fn parse_url(s: &str) -> (r: Option<String>)
    ensures
        r.deep_view() == parsed_url(s@),
{
    match url::Url::parse(s) {
        Ok(u) => Some(String::from(u)),
        Err(_) => None,
    }
}

/// A base URL with one more path segment appended, or nothing when the base
/// does not parse or cannot carry path segments.
pub uninterp spec fn with_segment(base: Seq<char>, seg: Seq<char>) -> Option<Seq<char>>;

/// Relies on url::Url::parse and url::Url::path_segments_mut: appending a
/// path segment depends on the two strings alone.
#[verifier::external_body]
pub fn url_with_segment(base: &str, seg: &str) -> (r: Option<String>)
    ensures
        r.deep_view() == with_segment(base@, seg@),
{
    let mut u = match url::Url::parse(base) {
        Ok(u) => u,
        Err(_) => return None,
    };
    match u.path_segments_mut() {
        Ok(mut p) => {
            p.push(seg);
        },
        Err(()) => return None,
    }
    Some(String::from(u))
}

} // verus!
