//! Extraction of the share code (`surl`) from a share link.
//!
//! Two link shapes are accepted: a `/s/<code>` path segment, and a
//! `surl=<code>` query parameter. A string that parses as a URL must name a
//! `baidu.com` host; one that does not parse is still scanned, so bare
//! fragments carrying the markers are accepted.

use vstd::prelude::*;

use crate::text;
use crate::urlinfo;

verus! {

/// Whether the trimmed link may be scanned at all: a parseable URL must
/// name a `baidu.com` host; an unparseable string passes.
pub open spec fn spec_host_acceptable(t: Seq<char>) -> bool {
    match urlinfo::parsed_url_host(t) {
        Option::None => true,
        Option::Some(hopt) => match hopt {
            Option::None => false,
            Option::Some(h) => text::spec_contains(h, "baidu.com"@),
        },
    }
}

/// The share code read after a `surl=` marker: the run of code characters
/// after the first such marker, when it is non-empty.
pub open spec fn spec_surl_param(t: Seq<char>) -> Option<Seq<char>> {
    match text::spec_find(t, "surl="@) {
        Option::Some(pos) => {
            if pos + 5 >= t.len() {
                Option::<Seq<char>>::None
            } else {
                let run = text::run_len(t, pos + 5, |c: char| text::spec_token_char(c));
                if run > 0 {
                    Option::Some(t.subrange(pos + 5, pos + 5 + run))
                } else {
                    Option::<Seq<char>>::None
                }
            }
        },
        Option::None => Option::<Seq<char>>::None,
    }
}

/// The share code of a share link: after trimming and the host check, the
/// run of code characters after the first `/s/`, or, when that yields
/// nothing, after the first `surl=`.
pub open spec fn spec_extract_surl(s: Seq<char>) -> Option<Seq<char>> {
    let t = text::spec_trim(s);
    if !spec_host_acceptable(t) {
        Option::<Seq<char>>::None
    } else {
        match text::spec_find(t, "/s/"@) {
            Option::Some(pos) => {
                if pos + 3 >= t.len() {
                    Option::<Seq<char>>::None
                } else {
                    let run = text::run_len(t, pos + 3, |c: char| text::spec_token_char(c));
                    if run > 0 {
                        Option::Some(t.subrange(pos + 3, pos + 3 + run))
                    } else {
                        spec_surl_param(t)
                    }
                }
            },
            Option::None => spec_surl_param(t),
        }
    }
}

fn surl_param(t: &str) -> (r: Option<String>)
    ensures
        r.deep_view() == spec_surl_param(t@),
{
    proof {
        reveal_strlit("surl=");
    }
    let n = t.unicode_len();
    match text::find_first(t, "surl=") {
        Some(pos) => {
            let start = pos + 5;
            if start >= n {
                return None;
            }
            let end = text::token_run_end(t, start);
            if end > start {
                Some(t.substring_char(start, end).to_owned())
            } else {
                None
            }
        },
        None => None,
    }
}

/// Reads the share code out of `share_url`, as `spec_extract_surl` says.
pub fn extract_surl(share_url: &str) -> (r: Option<String>)
    ensures
        r.deep_view() == spec_extract_surl(share_url@),
{
    let t = text::trim_str(share_url);
    match urlinfo::url_host(t.as_str()) {
        Some(hopt) => match hopt {
            Some(h) => {
                if !text::contains_str(h.as_str(), "baidu.com") {
                    return None;
                }
            },
            None => {
                return None;
            },
        },
        None => {},
    }
    proof {
        reveal_strlit("/s/");
    }
    let ts = t.as_str();
    let n = ts.unicode_len();
    match text::find_first(ts, "/s/") {
        Some(pos) => {
            let start = pos + 3;
            if start >= n {
                return None;
            }
            let end = text::token_run_end(ts, start);
            if end > start {
                Some(ts.substring_char(start, end).to_owned())
            } else {
                surl_param(ts)
            }
        },
        None => surl_param(ts),
    }
}

} // verus!
