//! Target-URL validation and normalization, delegated to the `url` crate.
//!
//! A link's target is stored in its normalized form: the serialization of the
//! parsed URL (so `"https://example.com"` is stored as
//! `"https://example.com/"`). The library records the parser's verdict and
//! the normalized text; both are functions of the input characters alone.

use vstd::prelude::*;

verus! {

/// What parsing and re-serializing `s` with the `url` crate yields: `None`
/// when `s` is not an absolute URL, otherwise the normalized serialization.
pub uninterp spec fn url_normal_of(s: Seq<char>) -> Option<Seq<char>>;

/// Whether the `url` crate accepts `s` as an absolute URL.
pub open spec fn url_ok(s: Seq<char>) -> bool {
    url_normal_of(s) is Some
}

/// Relies on `url::Url::parse` and the `Display` serialization of `Url`:
/// parsing succeeds or fails as a function of the input characters alone,
/// and the serialization is the parsed URL's normalized text.
#[verifier::external_body]
pub fn normalize_url(s: &str) -> (r: Option<String>)
    ensures
        r is Some <==> url_ok(s@),
        r matches Some(t) ==> Some(t@) == url_normal_of(s@),
{
    match url::Url::parse(s) {
        Ok(u) => Some(u.to_string()),
        Err(_) => None,
    }
}

} // verus!
