//! Secret material: cryptographically random URL-safe tokens, and the
//! wrapper type that keeps a provider bearer credential out of logs.
//!
//! Tokens are raw bytes from the operating system's secure source, encoded
//! with the URL-safe base64 alphabet and no padding, so they can sit in a
//! query string or a cookie without further escaping. An entropy failure is
//! surfaced as an internal error, never papered over with a weaker source.

use vstd::prelude::*;

use base64::Engine;
use base64::engine::general_purpose::URL_SAFE_NO_PAD;
use rand::TryRng;
use rand::rngs::SysRng;
use secrecy::ExposeSecret;
use secrecy::SecretString;

use crate::errors::AppError;

verus! {

/// The characters base64's URL-safe alphabet draws from.
pub open spec fn in_b64url_alphabet(c: char) -> bool {
    ('A' <= c <= 'Z') || ('a' <= c <= 'z') || ('0' <= c <= '9') || c == '-' || c == '_'
}

/// Every character of `s` is from the URL-safe base64 alphabet.
pub open spec fn is_token_text(s: Seq<char>) -> bool {
    forall|i: int| 0 <= i < s.len() ==> in_b64url_alphabet(#[trigger] s[i])
}

/// The URL-safe, unpadded base64 encoding of `bytes`.
pub uninterp spec fn b64url_of(bytes: Seq<u8>) -> Seq<char>;

/// Relies on base64's `URL_SAFE_NO_PAD` engine: the encoding is a function
/// of the bytes alone, emits one character per 6 bits (so ceil(4n/3)
/// characters, no padding), and draws them from `A`-`Z` `a`-`z` `0`-`9`
/// `-` `_`.
#[verifier::external_body]
fn b64url_encode(bytes: &Vec<u8>) -> (r: String)
    ensures
        r@ == b64url_of(bytes@),
        r@.len() == (bytes@.len() * 4 + 2) / 3,
        is_token_text(r@),
{
    URL_SAFE_NO_PAD.encode(bytes.as_slice())
}

/// Relies on rand's `SysRng` (the operating system's cryptographically
/// secure source, via getrandom): on success the buffer has exactly
/// `nbytes` bytes; a source failure is reported, never masked.
#[verifier::external_body]
fn random_bytes(nbytes: usize) -> (r: Result<Vec<u8>, ()>)
    ensures
        r matches Ok(v) ==> v@.len() == nbytes,
{
    let mut buf = vec![0u8; nbytes];
    match SysRng.try_fill_bytes(&mut buf) {
        Ok(()) => Ok(buf),
        Err(_) => Err(()),
    }
}

/// A fresh random token of `nbytes` bytes of entropy, rendered in the
/// URL-safe unpadded base64 alphabet. The only failure is an entropy-source
/// failure, surfaced as an internal error.
pub fn token_urlsafe(nbytes: usize) -> (r: Result<String, AppError>)
    ensures
        r matches Ok(t) ==> t@.len() == (nbytes * 4 + 2) / 3 && is_token_text(t@),
        r matches Err(e) ==> e matches AppError::Internal(_),
{
    match random_bytes(nbytes) {
        Ok(bytes) => Ok(b64url_encode(&bytes)),
        Err(()) => Err(AppError::internal("Failed to generate random bytes".to_owned())),
    }
}

/// A provider bearer credential. It holds a secrecy `SecretString`
/// (`SecretBox<str>`, whose unsized generic Verus cannot declare), so the
/// held string reaches neither `Debug` output nor a serializer: it is
/// readable only through [`SecretToken::expose_secret`].
#[verifier::external_body]
#[derive(Debug)]
pub struct SecretToken {
    inner: SecretString,
}

/// The string a [`SecretToken`] holds.
pub uninterp spec fn secret_of(s: SecretToken) -> Seq<char>;

impl SecretToken {
    /// Relies on secrecy's `SecretString::from`: the box holds exactly the
    /// string it was built from, and its `Debug` form is a fixed
    /// placeholder rather than the secret.
    #[verifier::external_body]
    pub fn new(s: String) -> (r: SecretToken)
        ensures
            secret_of(r) == s@,
    {
        SecretToken { inner: SecretString::from(s) }
    }

    /// Relies on secrecy's `ExposeSecret::expose_secret`: the explicit
    /// accessor returns the held string itself.
    #[verifier::external_body]
    pub fn expose_secret(&self) -> (r: &str)
        ensures
            r@ == secret_of(*self),
    {
        self.inner.expose_secret()
    }
}

impl Clone for SecretToken {
    /// Relies on secrecy's `Clone` for `SecretString`: the clone holds the
    /// same string.
    #[verifier::external_body]
    fn clone(&self) -> (r: Self)
        ensures
            secret_of(r) == secret_of(*self),
    {
        SecretToken { inner: self.inner.clone() }
    }
}

} // verus!
