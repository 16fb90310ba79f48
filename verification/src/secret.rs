//! Secret configuration values, held in `secrecy::SecretString` so that they
//! are redacted wherever they are formatted.

use secrecy::ExposeSecret;
use vstd::prelude::*;

verus! {

/// A secret text, held in a `secrecy::SecretString` in a private field of this
/// opaque struct; [`secret_text`] names what it holds.
#[verifier::external_body]
pub struct SecretValue {
    inner: secrecy::SecretString,
}

/// The text a secret holds.
pub uninterp spec fn secret_text(secret: SecretValue) -> Seq<char>;

impl SecretValue {
    /// Calls `secrecy::SecretString::from`. Trusted: the secret holds `text`.
    #[verifier::external_body]
    pub fn new(text: String) -> (r: SecretValue)
        ensures
            secret_text(r) == text@,
    {
        SecretValue { inner: secrecy::SecretString::from(text) }
    }

    /// Calls `secrecy::ExposeSecret::expose_secret`. Trusted: the result is the
    /// text the secret holds.
    #[verifier::external_body]
    pub fn expose(&self) -> (r: &str)
        ensures
            r@ == secret_text(*self),
    {
        self.inner.expose_secret()
    }

    /// Calls `Clone::clone` on the `secrecy::SecretString`. Trusted: the copy
    /// holds the same text.
    #[verifier::external_body]
    pub fn duplicate(&self) -> (r: SecretValue)
        ensures
            secret_text(r) == secret_text(*self),
    {
        SecretValue { inner: self.inner.clone() }
    }
}

} // verus!
