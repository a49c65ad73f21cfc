//! Derivation of the cache key of a query payload.
//!
//! A payload is written out in a canonical text (fixed field order, `null`
//! for an absent field), that text is digested with SHA-256, and the digest
//! is hex-encoded behind a fixed namespace prefix.

use crate::query::QueryPayload;
use sha2::Digest;
use vstd::prelude::*;

verus! {

/// The namespace that every cache key of this library starts with.
pub const KEY_PREFIX: &'static str = "CACHE_ASIDE_";

/// Number of bytes in a SHA-256 digest.
pub const DIGEST_BYTES: usize = 32;

/// Length of every derived key: the prefix and two hex digits per digest byte.
pub const KEY_LEN: usize = 76;

#[verifier::external_type_specification]
#[verifier::external_body]
pub struct ExJsonError(serde_json::Error);

/// What `serde_json::to_string` writes for a string: the JSON string literal.
pub uninterp spec fn json_string_of(s: Seq<char>) -> Seq<char>;

/// The SHA-256 digest of the UTF-8 encoding of a text.
pub uninterp spec fn sha256_of(s: Seq<char>) -> Seq<u8>;

pub open spec fn key_prefix() -> Seq<char> {
    "CACHE_ASIDE_"@
}

/// A hex digit in lower case.
pub open spec fn nibble_char(n: int) -> char {
    "0123456789abcdef"@[n]
}

/// Two lower-case hex digits for each byte, high nibble first.
pub open spec fn hex_of(b: Seq<u8>) -> Seq<char> {
    Seq::new(
        2 * b.len(),
        |i: int|
            if i % 2 == 0 {
                nibble_char(b[i / 2] as int / 16)
            } else {
                nibble_char(b[i / 2] as int % 16)
            },
    )
}

pub open spec fn digit_char(d: int) -> char {
    "0123456789"@[d]
}

/// The decimal digits of a number, without sign or leading zeros.
pub open spec fn decimal_of(n: nat) -> Seq<char>
    decreases n,
{
    if n < 10 {
        seq![digit_char(n as int)]
    } else {
        decimal_of(n / 10) + seq![digit_char((n % 10) as int)]
    }
}

/// The JSON value of an optional text field.
pub open spec fn text_field(o: Option<String>) -> Seq<char> {
    match o {
        Some(s) => json_string_of(s@),
        None => "null"@,
    }
}

/// The JSON value of an optional number field.
pub open spec fn number_field(o: Option<u64>) -> Seq<char> {
    match o {
        Some(n) => decimal_of(n as nat),
        None => "null"@,
    }
}

/// The canonical text of a payload: a JSON object with every field, in
/// declaration order, absent ones as `null`.
pub open spec fn canonical_text(p: QueryPayload) -> Seq<char> {
    "{\"product_id\":"@ + text_field(p.product_id) + ",\"price\":"@ + number_field(p.price)
        + ",\"product_display_name\":"@ + text_field(p.product_display_name)
        + ",\"brand_name\":"@ + text_field(p.brand_name) + "}"@
}

/// The cache key of a payload.
pub open spec fn cache_key_of(p: QueryPayload) -> Seq<char> {
    key_prefix() + hex_of(sha256_of(canonical_text(p)))
}

/// Relies on `serde_json::to_string` on a `&str`: the JSON string literal of
/// the text. A string serialises into an in-memory buffer, which cannot
/// fail, so the call always succeeds.
#[verifier::external_body]
fn json_string(s: &str) -> (r: Result<String, serde_json::Error>)
    ensures
        r is Ok,
        r matches Ok(t) ==> t@ == json_string_of(s@),
{
    serde_json::to_string(s)
}

/// Relies on `sha2::Sha256::digest`: the 32-byte SHA-256 digest of the
/// text's UTF-8 bytes.
#[verifier::external_body]
fn sha256_digest(text: &str) -> (r: Vec<u8>)
    ensures
        r@ == sha256_of(text@),
        r@.len() == DIGEST_BYTES,
{
    sha2::Sha256::digest(text.as_bytes()).to_vec()
}

/// Relies on `hex::encode`: two lower-case hex digits per byte.
#[verifier::external_body]
fn hex_encode(b: &[u8]) -> (r: String)
    ensures
        r@ == hex_of(b@),
{
    hex::encode(b)
}

fn append_digit(out: &mut String, d: u64)
    requires
        d < 10,
    ensures
        final(out)@ == old(out)@ + seq![digit_char(d as int)],
{
    let digits: &str = "0123456789";
    proof {
        reveal_strlit("0123456789");
    }
    let one = digits.substring_char(d as usize, d as usize + 1);
    assert(one@ =~= seq![digit_char(d as int)]);
    out.append(one);
}

/// Appends the decimal digits of `n`.
pub fn append_decimal(out: &mut String, n: u64)
    ensures
        final(out)@ == old(out)@ + decimal_of(n as nat),
    decreases n,
{
    if n < 10 {
        append_digit(out, n);
    } else {
        append_decimal(out, n / 10);
        append_digit(out, n % 10);
        assert(final(out)@ =~= old(out)@ + decimal_of(n as nat));
    }
}

fn append_text_field(out: &mut String, o: &Option<String>) -> (r: Result<(), serde_json::Error>)
    ensures
        r is Ok,
        final(out)@ == old(out)@ + text_field(*o),
{
    match o {
        Some(s) => {
            let quoted = json_string(s.as_str())?;
            out.append(quoted.as_str());
            Ok(())
        },
        None => {
            out.append("null");
            Ok(())
        },
    }
}

fn append_number_field(out: &mut String, o: Option<u64>)
    ensures
        final(out)@ == old(out)@ + number_field(o),
{
    match o {
        Some(n) => append_decimal(out, n),
        None => out.append("null"),
    }
}

/// Writes the canonical text of a payload; it always succeeds.
pub fn canonical_form(document: &QueryPayload) -> (r: Result<String, serde_json::Error>)
    ensures
        r matches Ok(t) && t@ == canonical_text(*document),
{
    let mut out = String::from_str("{\"product_id\":");
    append_text_field(&mut out, &document.product_id)?;
    out.append(",\"price\":");
    append_number_field(&mut out, document.price);
    out.append(",\"product_display_name\":");
    append_text_field(&mut out, &document.product_display_name)?;
    out.append(",\"brand_name\":");
    append_text_field(&mut out, &document.brand_name)?;
    out.append("}");
    assert(out@ =~= canonical_text(*document));
    Ok(out)
}

/// Derives the cache key of a payload: the namespace prefix followed by the
/// hex-encoded SHA-256 digest of the payload's canonical text. It succeeds
/// on every payload.
pub fn get_hash_key(document: &QueryPayload) -> (r: Result<String, serde_json::Error>)
    ensures
        r matches Ok(k) && k@ == cache_key_of(*document) && k@.subrange(
            0,
            key_prefix().len() as int,
        ) == key_prefix() && k@.len() == KEY_LEN,
{
    let text = canonical_form(document)?;
    let digest = sha256_digest(text.as_str());
    let hex = hex_encode(digest.as_slice());
    let key = String::from_str(KEY_PREFIX).concat(hex.as_str());
    proof {
        reveal_strlit("CACHE_ASIDE_");
        assert(key@.subrange(0, key_prefix().len() as int) =~= key_prefix());
    }
    Ok(key)
}

/// Payloads that agree field for field, absent fields included, share one
/// cache key.
pub proof fn lemma_equal_payloads_share_key(p1: QueryPayload, p2: QueryPayload)
    requires
        p1.product_id == p2.product_id,
        p1.price == p2.price,
        p1.product_display_name == p2.product_display_name,
        p1.brand_name == p2.brand_name,
    ensures
        canonical_text(p1) == canonical_text(p2),
        cache_key_of(p1) == cache_key_of(p2),
{
}

} // verus!
