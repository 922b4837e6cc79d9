//! Trusted boundary to the text and byte encodings the card data needs:
//! the legacy single-byte code page, Unicode canonical composition, and
//! base64. Each outside call is named by a spec function of its input,
//! and everything around these calls is verified against those names.

use vstd::prelude::*;
use base64::Engine;
use unicode_normalization::UnicodeNormalization;

verus! {

/// The characters that the windows-874 code page assigns to a byte
/// string, one character per byte.
pub uninterp spec fn win874_of(bytes: Seq<u8>) -> Seq<char>;

/// Relies on encoding_rs's `WINDOWS_874.decode_without_bom_handling`:
/// a fixed single-byte code page, so the result is a pure function of
/// the bytes, one character per input byte.
#[verifier::external_body]
pub(crate) fn decode_windows874(bytes: &[u8]) -> (r: String)
    ensures
        r@ == win874_of(bytes@),
        r@.len() == bytes@.len(),
{
    let (cow, _had_errors) = encoding_rs::WINDOWS_874.decode_without_bom_handling(bytes);
    cow.into_owned()
}

/// The canonical composition (NFC) of a character string.
pub uninterp spec fn nfc_of(s: Seq<char>) -> Seq<char>;

/// Relies on unicode_normalization's `nfc()`: canonical composition, a
/// pure function of the characters; an empty string stays empty.
#[verifier::external_body]
pub(crate) fn nfc_normalize(s: &str) -> (r: String)
    ensures
        r@ == nfc_of(s@),
        s@.len() == 0 ==> r@.len() == 0,
{
    s.nfc().collect()
}

/// The standard, padded base64 encoding of a byte string.
pub uninterp spec fn b64_of(bytes: Seq<u8>) -> Seq<char>;

/// Relies on base64's `STANDARD` engine (padded): `encode` is a pure
/// function of the bytes.
#[verifier::external_body]
pub(crate) fn base64_encode(bytes: &[u8]) -> (r: String)
    ensures
        r@ == b64_of(bytes@),
{
    base64::engine::general_purpose::STANDARD.encode(bytes)
}

/// Relies on base64's `STANDARD` engine (padded): `decode` accepts
/// exactly the strings `encode` produces and inverts it, so a decoded
/// value is the unique preimage of the input.
#[verifier::external_body]
pub(crate) fn base64_decode(s: &str) -> (r: Option<Vec<u8>>)
    ensures
        r matches Some(b) ==> b64_of(b@) == s@,
        r matches Some(b) ==> (forall|b2: Seq<u8>| b64_of(b2) == s@ ==> b2 == b@),
        (exists|b: Seq<u8>| b64_of(b) == s@) ==> r is Some,
{
    match base64::engine::general_purpose::STANDARD.decode(s) {
        Ok(b) => Some(b),
        Err(_) => None,
    }
}

} // verus!
