//! The authenticated cipher: wraps a plaintext in a tamper-evident envelope
//! under a 256-bit key.
//!
//! An envelope is `nonce (12 bytes) || ciphertext_and_tag`, where the tag is
//! the final 16 bytes of the AEAD output.  The nonce is drawn fresh from a
//! secure random source on every call to `encrypt`; it is never derived from
//! the content.  Decryption under any key other than the one that produced
//! the envelope, or of an envelope altered in any byte, fails with
//! `AuthenticationFailure` — there is deliberately no distinct "wrong key"
//! signal.

use vstd::prelude::*;
use vstd::slice::slice_subrange;
use crate::trusted;

verus! {

/// Reason a cipher operation failed.
#[derive(Debug, Clone, Copy, PartialEq, Eq, Structural)]
pub enum CipherError {
    /// The underlying AEAD refused to encrypt (plaintext beyond its limit).
    EncryptionFailed,
    /// The envelope is too short, was tampered with, or the key is wrong.
    AuthenticationFailure,
}

/// What an envelope decrypts to under a key: the plaintext when the envelope
/// carries a 12-byte nonce followed by ciphertext-with-tag that authenticates
/// under the key, `None` otherwise.
pub open spec fn envelope_plaintext(env: Seq<u8>, key: Seq<u8>) -> Option<Seq<u8>> {
    if env.len() < 12 {
        None
    } else {
        trusted::aead_open(key, env.subrange(0, 12), env.subrange(12, env.len() as int))
    }
}

/// Encrypts `data` under `key` into a fresh envelope.
///
/// Succeeds exactly when the plaintext is below the AEAD's length limit; the
/// envelope is 28 bytes longer than the plaintext and decrypts back to
/// `data` under `key`.
pub fn encrypt(data: &[u8], key: &[u8; 32]) -> (r: Result<Vec<u8>, CipherError>)
    ensures
        (r is Ok) <==> data@.len() < trusted::aead_plain_limit(),
        r matches Ok(env) ==> {
            &&& envelope_plaintext(env@, key@) == Some(data@)
            &&& env@.len() == data@.len() + 28
            &&& env@.subrange(12, env@.len() as int)
                == trusted::aead_seal(key@, env@.subrange(0, 12), data@)
        },
        r matches Err(e) ==> e == CipherError::EncryptionFailed,
{
    let nonce = trusted::random_bytes(12);
    match trusted::aead_encrypt(key.as_slice(), nonce.as_slice(), data) {
        None => Err(CipherError::EncryptionFailed),
        Some(mut sealed) => {
            let ghost sealed_view = sealed@;
            let mut env = nonce;
            let ghost nonce_view = env@;
            env.append(&mut sealed);
            proof {
                assert(env@.subrange(0, 12) =~= nonce_view);
                assert(env@.subrange(12, env@.len() as int) =~= sealed_view);
            }
            Ok(env)
        },
    }
}

/// Law: decryption inverts encryption.  `encrypt` ensures of every envelope
/// it returns that `envelope_plaintext` reads it as the plaintext that went
/// in, and `decrypt` ensures that its result is exactly what
/// `envelope_plaintext` reads — so an envelope made for `data` under `key`
/// decrypts to `data` and to nothing else.
pub proof fn lemma_round_trip(env: Seq<u8>, key: Seq<u8>, data: Seq<u8>, out: Seq<u8>)
    requires
        envelope_plaintext(env, key) == Some(data),
        envelope_plaintext(env, key) == Some(out),
    ensures
        out == data,
{
}

/// Decrypts an envelope under `key`.
///
/// Returns the plaintext exactly when the envelope authenticates under the
/// key; every other input — a short buffer, a flipped byte anywhere, a wrong
/// key — yields `AuthenticationFailure`.
pub fn decrypt(ciphertext: &[u8], key: &[u8; 32]) -> (r: Result<Vec<u8>, CipherError>)
    ensures
        (r is Ok) <==> (envelope_plaintext(ciphertext@, key@) is Some),
        r matches Ok(p) ==> envelope_plaintext(ciphertext@, key@) == Some(p@),
        r matches Err(e) ==> e == CipherError::AuthenticationFailure,
{
    if ciphertext.len() < 12 {
        return Err(CipherError::AuthenticationFailure);
    }
    let nonce = slice_subrange(ciphertext, 0, 12);
    let sealed = slice_subrange(ciphertext, 12, ciphertext.len());
    match trusted::aead_decrypt(key.as_slice(), nonce, sealed) {
        Some(p) => Ok(p),
        None => Err(CipherError::AuthenticationFailure),
    }
}

} // verus!
