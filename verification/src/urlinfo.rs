//! What the URL parser says about a string: whether it parses, and its host
//! and path components.

use vstd::prelude::*;

verus! {

/// The host component of `s` as the URL parser sees it: `None` when `s` is
/// not a parseable URL, `Some(None)` when it parses but has no host, and
/// the host text otherwise. A pure function of the string.
pub uninterp spec fn parsed_url_host(s: Seq<char>) -> Option<Option<Seq<char>>>;

/// The path component of `s` as the URL parser sees it: `None` when `s` is
/// not a parseable URL. A pure function of the string.
pub uninterp spec fn parsed_url_path(s: Seq<char>) -> Option<Seq<char>>;

/// Relies on url::Url::parse and url::Url::host_str: parsing depends on the
/// input alone, and `host_str` returns the parsed host text, if any.
#[verifier::external_body]
pub fn url_host(s: &str) -> (r: Option<Option<String>>)
    ensures
        r.deep_view() == parsed_url_host(s@),
{
    match url::Url::parse(s) {
        Err(_) => None,
        Ok(u) => Some(
            match u.host_str() {
                Some(h) => Some(h.to_string()),
                None => None,
            },
        ),
    }
}

/// Relies on url::Url::parse and url::Url::path: parsing depends on the
/// input alone, and `path` returns the parsed path text.
#[verifier::external_body]
pub fn url_path(s: &str) -> (r: Option<String>)
    ensures
        r.deep_view() == parsed_url_path(s@),
{
    match url::Url::parse(s) {
        Err(_) => None,
        Ok(u) => Some(u.path().to_string()),
    }
}

} // verus!
