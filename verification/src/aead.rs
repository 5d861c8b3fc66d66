//! ChaCha20-Poly1305 sealing and opening, and the random nonces it is used
//! with.

use chacha20poly1305::aead::{Aead, KeyInit, Payload};
use chacha20poly1305::{ChaCha20Poly1305, Key, Nonce};
use vstd::prelude::*;
use vstd::string::to_string_from_display_ensures;

verus! {

/// The ciphertext (with its tag) that ChaCha20-Poly1305 makes of
/// `plaintext` under `key` and `nonce`, authenticating `aad`.
pub uninterp spec fn chacha20poly1305_seal(
    key: Seq<u8>,
    nonce: Seq<u8>,
    plaintext: Seq<u8>,
    aad: Seq<u8>,
) -> Seq<u8>;

/// The plaintext that ChaCha20-Poly1305 recovers from `ciphertext` under
/// `key` and `nonce`, or `None` where the tag does not authenticate it and
/// `aad`.
pub uninterp spec fn chacha20poly1305_open(
    key: Seq<u8>,
    nonce: Seq<u8>,
    ciphertext: Seq<u8>,
    aad: Seq<u8>,
) -> Option<Seq<u8>>;

/// `Aead::encrypt` of `chacha20poly1305` with a 32-byte key and a 12-byte
/// nonce. It fails only for a plaintext of 2^38 bytes or more; what it
/// returns is named, is the plaintext's length plus the 16-byte tag, and
/// opening it again gives back the plaintext.
#[verifier::external_body]
pub(crate) fn seal(key: &[u8], nonce: &[u8], plaintext: &[u8], aad: &[u8]) -> (r: Result<
    Vec<u8>,
    chacha20poly1305::Error,
>)
    requires
        key@.len() == 32,
        nonce@.len() == 12,
    ensures
        plaintext@.len() < 0x1_0000_0000 ==> r is Ok,
        r matches Ok(c) ==> c@ == chacha20poly1305_seal(key@, nonce@, plaintext@, aad@)
            && c@.len() == plaintext@.len() + 16
            && chacha20poly1305_open(key@, nonce@, c@, aad@) == Some(plaintext@),
{
    ChaCha20Poly1305::new(Key::from_slice(key)).encrypt(
        Nonce::from_slice(nonce),
        Payload { msg: plaintext, aad },
    )
}

/// `e` shows as `aead::Error`, as the error of the `aead` traits always does.
pub open spec fn is_aead_error(e: chacha20poly1305::Error) -> bool {
    forall|s: String| #[trigger]
        to_string_from_display_ensures::<chacha20poly1305::Error>(&e, s) ==> s@ == "aead::Error"@
}

/// `Aead::decrypt` of `chacha20poly1305` with a 32-byte key and a 12-byte
/// nonce: the plaintext, or an error (which shows as `aead::Error`) where
/// the tag does not check.
#[verifier::external_body]
pub(crate) fn open(key: &[u8], nonce: &[u8], ciphertext: &[u8], aad: &[u8]) -> (r: Result<
    Vec<u8>,
    chacha20poly1305::Error,
>)
    requires
        key@.len() == 32,
        nonce@.len() == 12,
    ensures
        match chacha20poly1305_open(key@, nonce@, ciphertext@, aad@) {
            Some(p) => r matches Ok(v) && v@ == p,
            None => r matches Err(e) && is_aead_error(e),
        },
{
    ChaCha20Poly1305::new(Key::from_slice(key)).decrypt(
        Nonce::from_slice(nonce),
        Payload { msg: ciphertext, aad },
    )
}

/// `getrandom::getrandom`: fills `dest` with bytes from the system's random
/// source, or fails; which bytes it writes is not stated.
#[verifier::external_body]
pub(crate) fn fill_random(dest: &mut Vec<u8>) -> (r: Result<(), getrandom::Error>)
    ensures
        final(dest)@.len() == old(dest)@.len(),
{
    getrandom::getrandom(dest.as_mut_slice())
}

} // verus!
