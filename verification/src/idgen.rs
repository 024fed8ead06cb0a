//! Generation of short link identifiers, confirmation tokens and recipient
//! ids.
//!
//! A short id encodes the decimal text of a random 32-bit value in the
//! URL-safe base64 alphabet without padding, so it is safe for direct
//! inclusion in a URL path segment. A confirmation token is a 25-character
//! alphanumeric string. Neither is unique by construction: uniqueness is
//! enforced by the store, not by the generator.

use vstd::prelude::*;

verus! {

/// A character of the URL-safe base64 alphabet (no padding character).
pub open spec fn is_url_safe_char(c: char) -> bool {
    ('A' <= c && c <= 'Z') || ('a' <= c && c <= 'z') || ('0' <= c && c <= '9') || c == '-' || c
        == '_'
}

/// An ASCII alphanumeric character.
pub open spec fn is_alnum_char(c: char) -> bool {
    ('A' <= c && c <= 'Z') || ('a' <= c && c <= 'z') || ('0' <= c && c <= '9')
}

/// What base64's URL-safe no-padding engine returns for the given bytes.
/// The encoding is a function of the bytes alone.
pub uninterp spec fn b64_url_of(bytes: Seq<u8>) -> Seq<char>;

/// Relies on base64's `URL_SAFE_NO_PAD` engine: the output is drawn from the
/// URL-safe alphabet, carries no padding, and encodes every 3-byte group in 4
/// characters (a trailing group of 1 or 2 bytes in 2 or 3 characters).
#[verifier::external_body]
fn b64_url_encode(bytes: &[u8]) -> (r: String)
    ensures
        r@ == b64_url_of(bytes@),
        r@.len() == (4 * bytes@.len() + 2) / 3,
        forall|i: int| 0 <= i < r@.len() ==> is_url_safe_char(#[trigger] r@[i]),
{
    base64::Engine::encode(&base64::engine::general_purpose::URL_SAFE_NO_PAD, bytes)
}

/// Relies on rand's `random_range` over `0..u32::MAX`: the result is below
/// `u32::MAX`; nothing more can be said of a random draw.
#[verifier::external_body]
fn random_u32_below_max() -> (r: u32)
    ensures
        r < u32::MAX,
{
    rand::random_range(0..u32::MAX)
}

/// Relies on rand's `Alphanumeric` distribution and `SampleString`: exactly
/// `25` characters, each ASCII alphanumeric; nothing more can be said of a
/// random draw.
#[verifier::external_body]
pub fn generate_link_token() -> (r: String)
    ensures
        r@.len() == 25,
        forall|i: int| 0 <= i < r@.len() ==> is_alnum_char(#[trigger] r@[i]),
{
    rand::distr::SampleString::sample_string(&rand::distr::Alphanumeric, &mut rand::rng(), 25)
}

/// Relies on `uuid::Uuid::new_v4` and the `Display` form of `Uuid`: a random
/// version-4 UUID rendered in the 36-character hyphenated form.
#[verifier::external_body]
pub fn generate_recipient_id() -> (r: String)
    ensures
        r@.len() == 36,
{
    uuid::Uuid::new_v4().to_string()
}

/// The decimal digits of `n` as ASCII bytes, most significant first.
pub open spec fn spec_decimal_bytes(n: nat) -> Seq<u8>
    decreases n,
{
    if n < 10 {
        seq![(0x30 + n) as u8]
    } else {
        spec_decimal_bytes(n / 10).push((0x30 + n % 10) as u8)
    }
}

/// The decimal text of a number is never empty.
pub proof fn lemma_decimal_bytes_len(n: nat)
    ensures
        spec_decimal_bytes(n).len() >= 1,
    decreases n,
{
    if n >= 10 {
        lemma_decimal_bytes_len(n / 10);
    }
}

/// Appends the decimal digits of `n` to `out`.
fn push_decimal(out: &mut Vec<u8>, n: u32)
    ensures
        final(out)@ == old(out)@ + spec_decimal_bytes(n as nat),
    decreases n,
{
    if n < 10 {
        out.push(0x30 + n as u8);
        assert(out@ =~= old(out)@ + spec_decimal_bytes(n as nat));
    } else {
        push_decimal(out, n / 10);
        out.push(0x30 + (n % 10) as u8);
        assert(out@ =~= old(out)@ + spec_decimal_bytes(n as nat));
    }
}

/// The short id derived from `n`: the base64 URL-safe encoding, without
/// padding, of the decimal text of `n`.
pub fn short_id_of(n: u32) -> (r: String)
    ensures
        r@ == b64_url_of(spec_decimal_bytes(n as nat)),
        r@.len() >= 2,
        forall|i: int| 0 <= i < r@.len() ==> is_url_safe_char(#[trigger] r@[i]),
{
    let mut bytes: Vec<u8> = Vec::new();
    push_decimal(&mut bytes, n);
    proof {
        lemma_decimal_bytes_len(n as nat);
        assert(bytes@ =~= spec_decimal_bytes(n as nat));
    }
    b64_url_encode(bytes.as_slice())
}

/// A freshly generated short link id: compact, non-empty, and safe for a URL
/// path segment. Collisions are possible but rare; the store detects them.
pub fn generate_short_id() -> (r: String)
    ensures
        r@.len() >= 2,
        forall|i: int| 0 <= i < r@.len() ==> is_url_safe_char(#[trigger] r@[i]),
{
    short_id_of(random_u32_below_max())
}

} // verus!
