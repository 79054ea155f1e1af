//! Contracts for the outside primitives the library calls.
//!
//! Every executable function here is trusted: its body makes a call into an
//! outside crate (or into a part of std that vstd does not specify) and Verus
//! believes the stated contract without reading the body.  The spec functions
//! without a body give names to results that are pure functions of their
//! arguments but far too large to restate here (a digest, a KDF output, a
//! cipher transcript); nothing else is assumed of those names beyond what the
//! clauses below state.

use vstd::prelude::*;
use aes::Aes256;
use aes::cipher::{BlockDecrypt, BlockEncrypt};
use aes::cipher::generic_array::GenericArray;
use base64::Engine;
use chacha20poly1305::aead::{Aead, KeyInit};
use chacha20poly1305::{ChaCha20Poly1305, Key, Nonce};
use ed25519_dalek::{Signer, Verifier};
use rand::RngCore;
use sha2::{Digest, Sha256};

verus! {

/// The SHA-256 digest (32 bytes) of a byte string.
pub uninterp spec fn sha256_of(data: Seq<u8>) -> Seq<u8>;

/// The Argon2id output (32 bytes) for a password and salt, at the fixed cost
/// parameters this library uses (32 MiB memory, 4 passes, 1 lane).
pub uninterp spec fn argon2id_of(password: Seq<u8>, salt: Seq<u8>) -> Seq<u8>;

/// The ChaCha20-Poly1305 ciphertext-with-tag for a key, nonce and plaintext.
pub uninterp spec fn aead_seal(key: Seq<u8>, nonce: Seq<u8>, plain: Seq<u8>) -> Seq<u8>;

/// The outcome of ChaCha20-Poly1305 decryption for a key, nonce and
/// ciphertext-with-tag: the plaintext when the tag verifies, `None` otherwise.
pub uninterp spec fn aead_open(key: Seq<u8>, nonce: Seq<u8>, sealed: Seq<u8>) -> Option<Seq<u8>>;

/// Plaintexts of this byte length and above are refused by the
/// ChaCha20-Poly1305 implementation (64 bytes for each of 2^32 - 1 blocks).
pub open spec fn aead_plain_limit() -> int {
    0x3f_ffff_ffc0
}

/// Whether char::is_alphanumeric holds of a character.
pub uninterp spec fn alnum(c: char) -> bool;

/// Relies on char::is_alphanumeric: a pure predicate of the character.
#[verifier::external_body]
pub(crate) fn char_is_alphanumeric(c: char) -> (r: bool)
    ensures
        r == alnum(c),
{
    c.is_alphanumeric()
}

/// Relies on rand::thread_rng and RngCore::fill_bytes: fills a buffer of the
/// requested length from a cryptographically secure generator.  Nothing can
/// be promised of the drawn bytes themselves.
#[verifier::external_body]
pub(crate) fn random_bytes(n: usize) -> (r: Vec<u8>)
    ensures
        r@.len() == n,
{
    let mut buf = vec![0u8; n];
    rand::thread_rng().fill_bytes(&mut buf);
    buf
}

/// Relies on sha2::Sha256::digest: a 32-byte digest that depends on the input
/// bytes alone.
#[verifier::external_body]
pub(crate) fn sha256(data: &[u8]) -> (r: Vec<u8>)
    ensures
        r@ == sha256_of(data@),
        r@.len() == 32,
{
    Sha256::digest(data).to_vec()
}

/// Relies on argon2::Argon2::hash_password_into with Argon2id, version 0x13
/// and Params::new(32768, 4, 1, Some(32)): the call fills the 32-byte output
/// from the password and salt alone, and fails exactly when the password is
/// longer than 2^32 - 1 bytes or the salt is outside 8..=2^32 - 1 bytes.
#[verifier::external_body]
pub(crate) fn argon2id_derive(password: &[u8], salt: &[u8]) -> (r: Option<Vec<u8>>)
    ensures
        (r is Some) <==> (password@.len() <= 0xffff_ffff && 8 <= salt@.len() <= 0xffff_ffff),
        r matches Some(k) ==> k@ == argon2id_of(password@, salt@) && k@.len() == 32,
{
    let params = match argon2::Params::new(32768, 4, 1, Some(32)) {
        Ok(p) => p,
        Err(_) => return None,
    };
    let hasher = argon2::Argon2::new(argon2::Algorithm::Argon2id, argon2::Version::V0x13, params);
    let mut key = [0u8; 32];
    match hasher.hash_password_into(password, salt, &mut key) {
        Ok(()) => Some(key.to_vec()),
        Err(_) => None,
    }
}

/// Relies on chacha20poly1305::ChaCha20Poly1305::encrypt: returns the
/// ciphertext with the 16-byte Poly1305 tag appended, a pure function of key,
/// nonce and plaintext; fails exactly when the plaintext is 2^32 - 1 blocks
/// or longer; and decryption of the result under the same key and nonce
/// recovers the plaintext.
#[verifier::external_body]
pub(crate) fn aead_encrypt(key: &[u8], nonce: &[u8], data: &[u8]) -> (r: Option<Vec<u8>>)
    requires
        key@.len() == 32,
        nonce@.len() == 12,
    ensures
        (r is Some) <==> data@.len() < aead_plain_limit(),
        r matches Some(c) ==> c@ == aead_seal(key@, nonce@, data@)
            && c@.len() == data@.len() + 16
            && aead_open(key@, nonce@, c@) == Some(data@),
{
    let cipher = ChaCha20Poly1305::new(Key::from_slice(key));
    cipher.encrypt(Nonce::from_slice(nonce), data).ok()
}

/// Relies on chacha20poly1305::ChaCha20Poly1305::decrypt: authenticates the
/// ciphertext-with-tag under the key and nonce and returns the plaintext only
/// when the tag verifies.
#[verifier::external_body]
pub(crate) fn aead_decrypt(key: &[u8], nonce: &[u8], sealed: &[u8]) -> (r: Option<Vec<u8>>)
    requires
        key@.len() == 32,
        nonce@.len() == 12,
    ensures
        r matches Some(p) ==> aead_open(key@, nonce@, sealed@) == Some(p@),
        r is None ==> aead_open(key@, nonce@, sealed@) is None,
{
    let cipher = ChaCha20Poly1305::new(Key::from_slice(key));
    cipher.decrypt(Nonce::from_slice(nonce), sealed).ok()
}

/// Relies on chrono::Utc::now and DateTime::format with `%Y%m%dT%H%M%SZ`:
/// the UTC time now in its compact textual form.  The result depends on the
/// clock, so only its size is promised: the fixed format yields at most 19
/// bytes for every date chrono can represent (the year field grows to seven
/// characters at the far ends of chrono's range), well under the stated 32.
#[verifier::external_body]
pub(crate) fn utc_timestamp_compact() -> (r: Vec<u8>)
    ensures
        r@.len() <= 32,
{
    chrono::Utc::now().format("%Y%m%dT%H%M%SZ").to_string().into_bytes()
}

/// The AES-256 encryption of one 16-byte block under a 32-byte key.
pub uninterp spec fn aes256_enc_block(key: Seq<u8>, block: Seq<u8>) -> Seq<u8>;

/// The AES-256 decryption of one 16-byte block under a 32-byte key.
pub uninterp spec fn aes256_dec_block(key: Seq<u8>, block: Seq<u8>) -> Seq<u8>;

/// Relies on aes::Aes256::encrypt_block: a pure 16-byte permutation of the
/// block under the key; block decryption under the same key inverts it.
#[verifier::external_body]
pub(crate) fn aes_encrypt_block(key: &[u8], block: &[u8]) -> (r: Vec<u8>)
    requires
        key@.len() == 32,
        block@.len() == 16,
    ensures
        r@ == aes256_enc_block(key@, block@),
        r@.len() == 16,
        aes256_dec_block(key@, r@) == block@,
{
    let cipher = Aes256::new(GenericArray::from_slice(key));
    let mut b = GenericArray::clone_from_slice(block);
    cipher.encrypt_block(&mut b);
    b.to_vec()
}

/// Relies on aes::Aes256::decrypt_block: the inverse 16-byte permutation.
#[verifier::external_body]
pub(crate) fn aes_decrypt_block(key: &[u8], block: &[u8]) -> (r: Vec<u8>)
    requires
        key@.len() == 32,
        block@.len() == 16,
    ensures
        r@ == aes256_dec_block(key@, block@),
        r@.len() == 16,
{
    let cipher = Aes256::new(GenericArray::from_slice(key));
    let mut b = GenericArray::clone_from_slice(block);
    cipher.decrypt_block(&mut b);
    b.to_vec()
}

/// The Ed25519 public key a 32-byte signing key determines.
pub uninterp spec fn ed25519_public_of(sk: Seq<u8>) -> Seq<u8>;

/// The Ed25519 signature for a signing key and message; RFC 8032 signing
/// is deterministic, so this is a pure function of the two.
pub uninterp spec fn ed25519_sig_of(sk: Seq<u8>, msg: Seq<u8>) -> Seq<u8>;

/// Whether a 64-byte signature verifies under a public key for a message.
pub uninterp spec fn ed25519_verifies(pk: Seq<u8>, msg: Seq<u8>, sig: Seq<u8>) -> bool;

/// Whether 32 bytes decode to a valid Ed25519 public key.
pub uninterp spec fn ed25519_pk_valid(pk: Seq<u8>) -> bool;

/// Relies on ed25519_dalek::SigningKey::generate with OsRng and on
/// verifying_key: a fresh random signing key, paired with the public key
/// it determines, which always parses as valid.
#[verifier::external_body]
pub(crate) fn ed25519_generate() -> (r: (Vec<u8>, Vec<u8>))
    ensures
        r.0@.len() == 32,
        r.1@.len() == 32,
        r.0@ == ed25519_public_of(r.1@),
        ed25519_pk_valid(r.0@),
{
    let signing_key = ed25519_dalek::SigningKey::generate(&mut rand::rngs::OsRng);
    let verifying_key = signing_key.verifying_key();
    (verifying_key.as_bytes().to_vec(), signing_key.as_bytes().to_vec())
}

/// Relies on ed25519_dalek::SigningKey::from_bytes and Signer::sign: the
/// 64-byte signature is a pure function of key and message, and verifies
/// under the key's own public key.
#[verifier::external_body]
pub(crate) fn ed25519_sign(sk: &[u8], msg: &[u8]) -> (r: Vec<u8>)
    requires
        sk@.len() == 32,
    ensures
        r@ == ed25519_sig_of(sk@, msg@),
        r@.len() == 64,
        ed25519_verifies(ed25519_public_of(sk@), msg@, r@),
{
    let key_bytes: [u8; 32] = sk.try_into().unwrap();
    let signing_key = ed25519_dalek::SigningKey::from_bytes(&key_bytes);
    signing_key.sign(msg).to_bytes().to_vec()
}

/// Relies on ed25519_dalek::VerifyingKey::from_bytes (which fails exactly
/// on bytes that are no valid public key), Signature::from_bytes and
/// Verifier::verify: the outcome is a pure function of the three inputs.
#[verifier::external_body]
pub(crate) fn ed25519_verify(pk: &[u8], msg: &[u8], sig: &[u8]) -> (r: Option<bool>)
    requires
        pk@.len() == 32,
        sig@.len() == 64,
    ensures
        (r is Some) <==> ed25519_pk_valid(pk@),
        r matches Some(b) ==> b == ed25519_verifies(pk@, msg@, sig@),
{
    let pk_bytes: [u8; 32] = pk.try_into().unwrap();
    let vk = match ed25519_dalek::VerifyingKey::from_bytes(&pk_bytes) {
        Ok(k) => k,
        Err(_) => return None,
    };
    let sig_bytes: [u8; 64] = sig.try_into().unwrap();
    let signature = ed25519_dalek::Signature::from_bytes(&sig_bytes);
    Some(vk.verify(msg, &signature).is_ok())
}

/// The standard base64 form (with padding) of a byte string, as ASCII
/// bytes.
pub uninterp spec fn b64_of(data: Seq<u8>) -> Seq<u8>;

/// The outcome of standard base64 decoding: the bytes, or `None` when the
/// input is not valid base64.
pub uninterp spec fn b64_decoded(text: Seq<u8>) -> Option<Seq<u8>>;

/// Relies on base64's STANDARD engine encode: four output characters for
/// every started group of three input bytes, a pure function of the input
/// that decoding inverts.
#[verifier::external_body]
pub(crate) fn b64_encode(data: &[u8]) -> (r: Vec<u8>)
    requires
        4 * data@.len() <= usize::MAX,
    ensures
        r@ == b64_of(data@),
        r@.len() == 4 * ((data@.len() + 2) / 3),
        b64_decoded(r@) == Some(data@),
{
    base64::engine::general_purpose::STANDARD.encode(data).into_bytes()
}

/// Relies on base64's STANDARD engine decode: returns the decoded bytes
/// exactly when the input is valid padded standard base64.
#[verifier::external_body]
pub(crate) fn b64_decode(text: &[u8]) -> (r: Option<Vec<u8>>)
    ensures
        r matches Some(v) ==> b64_decoded(text@) == Some(v@),
        r is None ==> b64_decoded(text@) is None,
{
    base64::engine::general_purpose::STANDARD.decode(text).ok()
}

/// Relies on totp_rs::TOTP::new (SHA-1, 6 digits, skew 1, 30-second step)
/// and generate_current: the code for the clock's current step.  A secret
/// under 16 bytes is refused; a code is always 6 ASCII digits.  The result
/// depends on the clock, so no more is promised.
#[verifier::external_body]
pub(crate) fn totp_code_now(secret: &[u8]) -> (r: Option<Vec<u8>>)
    ensures
        secret@.len() < 16 ==> r is None,
        r matches Some(c) ==> c@.len() == 6 && (forall|i: int|
            0 <= i < 6 ==> 0x30 <= #[trigger] c@[i] <= 0x39),
{
    let totp = match totp_rs::TOTP::new(totp_rs::Algorithm::SHA1, 6, 1, 30, secret.to_vec()) {
        Ok(t) => t,
        Err(_) => return None,
    };
    match totp.generate_current() {
        Ok(code) => Some(code.into_bytes()),
        Err(_) => None,
    }
}

/// Relies on totp_rs::TOTP::check_current with the same parameters:
/// whether the token matches a step within one step of skew around now.
/// The result depends on the clock, so no more is promised.
#[verifier::external_body]
pub(crate) fn totp_check_now(secret: &[u8], code: &str) -> (r: Option<bool>)
    ensures
        secret@.len() < 16 ==> r is None,
{
    let totp = match totp_rs::TOTP::new(totp_rs::Algorithm::SHA1, 6, 1, 30, secret.to_vec()) {
        Ok(t) => t,
        Err(_) => return None,
    };
    match totp.check_current(code) {
        Ok(b) => Some(b),
        Err(_) => None,
    }
}

} // verus!
