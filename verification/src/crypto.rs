//! Hashing, message authentication, Base64 and constant-time comparison, all
//! provided by outside crates and named here for the rest of the library.

use base64::Engine;
use hmac::Mac;
use sha2::Digest;
use subtle::ConstantTimeEq;
use vstd::prelude::*;

verus! {

/// The SHA-256 digest of `data`.
pub uninterp spec fn sha256_spec(data: Seq<u8>) -> Seq<u8>;

/// The HMAC-SHA256 tag of `message` under `key`, `None` when the key is refused.
pub uninterp spec fn hmac_sha256_spec(key: Seq<u8>, message: Seq<u8>) -> Option<Seq<u8>>;

/// The bytes that Base64 text decodes to with the standard alphabet and padding,
/// `None` when the text is not such Base64.
pub uninterp spec fn base64_standard_decode_spec(text: Seq<u8>) -> Option<Seq<u8>>;

/// The bytes that Base64 text decodes to with the URL-safe alphabet and no
/// padding, `None` when the text is not such Base64.
pub uninterp spec fn base64_url_safe_no_pad_decode_spec(text: Seq<u8>) -> Option<Seq<u8>>;

/// Calls `sha2::Sha256::digest`. Trusted: the result is the SHA-256 digest of
/// `data` (named by `sha256_spec`), 32 bytes long as the `Sha256` output size says.
#[verifier::external_body]
pub(crate) fn sha256(data: &[u8]) -> (r: Vec<u8>)
    ensures
        r@ == sha256_spec(data@),
        r@.len() == 32,
{
    sha2::Sha256::digest(data).to_vec()
}

/// Calls `hmac::Hmac::<Sha256>::new_from_slice`, `update` and `finalize`.
/// Trusted: the result is the tag named by `hmac_sha256_spec`; the crate's
/// `new_from_slice` for HMAC accepts a key of any length, so a tag always comes
/// back, and a SHA-256 tag is 32 bytes long.
#[verifier::external_body]
pub(crate) fn hmac_sha256(key: &[u8], message: &[u8]) -> (r: Option<Vec<u8>>)
    ensures
        r is Some,
        hmac_sha256_spec(key@, message@) == Some(r.unwrap()@),
        r.unwrap()@.len() == 32,
{
    match hmac::Hmac::<sha2::Sha256>::new_from_slice(key) {
        Ok(mut mac) => {
            mac.update(message);
            Some(mac.finalize().into_bytes().to_vec())
        },
        Err(_) => None,
    }
}

/// Calls `base64::engine::general_purpose::STANDARD.decode`. Trusted: the result
/// is what `base64_standard_decode_spec` names; nothing more is stated of it.
#[verifier::external_body]
pub(crate) fn base64_standard_decode(text: &[u8]) -> (r: Option<Vec<u8>>)
    ensures
        r matches Some(v) ==> base64_standard_decode_spec(text@) == Some(v@),
        r is None ==> base64_standard_decode_spec(text@) is None,
{
    base64::engine::general_purpose::STANDARD.decode(text).ok()
}

/// Calls `base64::engine::general_purpose::URL_SAFE_NO_PAD.decode`. Trusted: the
/// result is what `base64_url_safe_no_pad_decode_spec` names; nothing more is
/// stated of it.
#[verifier::external_body]
pub(crate) fn base64_url_safe_no_pad_decode(text: &[u8]) -> (r: Option<Vec<u8>>)
    ensures
        r matches Some(v) ==> base64_url_safe_no_pad_decode_spec(text@) == Some(v@),
        r is None ==> base64_url_safe_no_pad_decode_spec(text@) is None,
{
    base64::engine::general_purpose::URL_SAFE_NO_PAD.decode(text).ok()
}

/// Calls `subtle::ConstantTimeEq::ct_eq` on two byte slices. Trusted: as the
/// crate's source shows, the choice is 1 exactly when both slices have the same
/// length and the same bytes.
#[verifier::external_body]
pub(crate) fn constant_time_eq(a: &[u8], b: &[u8]) -> (r: bool)
    ensures
        r == (a@ == b@),
{
    bool::from(a.ct_eq(b))
}

} // verus!
