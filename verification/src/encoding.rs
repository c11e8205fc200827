//! Percent-encoding of values placed into backend request URLs.

use vstd::prelude::*;

verus! {

/// The percent-encoding of `s`: every byte of its UTF-8 form except ASCII
/// alphanumerics and `-`, `_`, `.`, `~` replaced by `%XX`. A pure function
/// of the string.
pub uninterp spec fn percent_encoded(s: Seq<char>) -> Seq<char>;

/// Relies on urlencoding::encode: percent-encodes every byte except ASCII
/// alphanumerics and `-`, `_`, `.`, `~`, depending on the input alone; an
/// empty input stays empty.
#[verifier::external_body]
pub fn percent_encode(s: &str) -> (r: String)
    ensures
        r@ == percent_encoded(s@),
        s@.len() == 0 ==> r@.len() == 0,
{
    urlencoding::encode(s).into_owned()
}

} // verus!
