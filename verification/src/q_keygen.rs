//! Key derivation: stretches a human password (and an optional salt phrase)
//! into a 32-byte symmetric key together with the 16-byte salt that was used.
//!
//! With a salt phrase the derivation is deterministic: the salt is the first
//! 16 bytes of the SHA-256 digest of the phrase, so identical
//! `(password, salt_phrase)` pairs always yield identical `(key, salt)`.
//! Without a phrase the salt is drawn from a secure random source, and the
//! salt is returned because reconstructing the key later requires it.

use vstd::prelude::*;
use vstd::string::StrSliceExecFns;
use vstd::utf8::encode_utf8;
use crate::trusted;

verus! {

/// Reason a derivation failed.
#[derive(Debug, Clone, Copy, PartialEq, Eq, Structural)]
pub enum KeyGenError {
    /// The salt phrase is shorter than 8 characters or not alphanumeric.
    InvalidSalt,
    /// The key-stretching function refused its inputs (password beyond the
    /// implementation's length limit).
    HashFailure,
}

/// A valid salt phrase: at least 8 characters, all alphanumeric.
pub open spec fn valid_salt_phrase(phrase: Seq<char>) -> bool {
    phrase.len() >= 8 && (forall|i: int| 0 <= i < phrase.len() ==> trusted::alnum(phrase[i]))
}

/// The 16-byte salt a salt phrase determines: the first half of the SHA-256
/// digest of the phrase's UTF-8 bytes.
pub open spec fn phrase_salt(phrase: Seq<char>) -> Seq<u8> {
    trusted::sha256_of(encode_utf8(phrase)).subrange(0, 16)
}

/// The 32-byte key derived from a password and a salt.
pub open spec fn derived_key(password: Seq<char>, salt: Seq<u8>) -> Seq<u8> {
    trusted::argon2id_of(encode_utf8(password), salt)
}

/// The password length limit of the key-stretching function, in bytes.
pub open spec fn password_byte_limit() -> int {
    0xffff_ffff
}

/// Decides whether a salt phrase is valid: at least 8 characters, all
/// alphanumeric.
pub fn phrase_is_valid(phrase: &str) -> (r: bool)
    ensures
        r == valid_salt_phrase(phrase@),
{
    let n = phrase.unicode_len();
    if n < 8 {
        return false;
    }
    let mut i: usize = 0;
    while i < n
        invariant
            i <= n,
            n == phrase@.len(),
            8 <= n,
            forall|j: int| 0 <= j < i ==> trusted::alnum(phrase@[j]),
        decreases n - i,
    {
        if !trusted::char_is_alphanumeric(phrase.get_char(i)) {
            return false;
        }
        i = i + 1;
    }
    true
}

/// Derives a 32-byte key and the 16-byte salt used.
///
/// With `Some(phrase)` the result is a pure function of the password and the
/// phrase; a phrase under 8 characters or with a non-alphanumeric character
/// is rejected as `InvalidSalt`.  With `None` a fresh random salt is drawn.
/// `HashFailure` occurs exactly when the password's UTF-8 form exceeds the
/// stretching function's length limit.
pub fn derive_key(password: &str, salt_phrase: Option<&str>) -> (r: Result<
    (Vec<u8>, Vec<u8>),
    KeyGenError,
>)
    ensures
        salt_phrase matches Some(p) ==> (r == Err::<(Vec<u8>, Vec<u8>), _>(
            KeyGenError::InvalidSalt,
        ) <==> !valid_salt_phrase(p@)),
        salt_phrase matches Some(p) ==> (r == Err::<(Vec<u8>, Vec<u8>), _>(
            KeyGenError::HashFailure,
        ) <==> valid_salt_phrase(p@) && encode_utf8(password@).len() > password_byte_limit()),
        salt_phrase is None ==> ((r is Err) <==> encode_utf8(password@).len()
            > password_byte_limit()),
        salt_phrase is None && r is Err ==> r == Err::<(Vec<u8>, Vec<u8>), _>(
            KeyGenError::HashFailure,
        ),
        r matches Ok(ks) ==> ks.0@.len() == 32 && ks.1@.len() == 16 && ks.0@ == trusted::argon2id_of(
            encode_utf8(password@),
            ks.1@,
        ),
        salt_phrase matches Some(p) ==> (r matches Ok(ks) ==> ks.1@ == phrase_salt(p@) && ks.0@
            == derived_key(password@, phrase_salt(p@))),
{
    let salt: Vec<u8> = match salt_phrase {
        Some(phrase) => {
            if !phrase_is_valid(phrase) {
                return Err(KeyGenError::InvalidSalt);
            }
            let mut digest = trusted::sha256(phrase.as_bytes());
            digest.truncate(16);
            proof {
                assert(digest@ =~= phrase_salt(phrase@));
            }
            digest
        },
        None => trusted::random_bytes(16),
    };
    match trusted::argon2id_derive(password.as_bytes(), salt.as_slice()) {
        Some(key) => Ok((key, salt)),
        None => Err(KeyGenError::HashFailure),
    }
}

/// Derives a key and salt exactly as [`derive_key`] does; kept as the plain
/// entry point for callers outside the host-binding layer.
pub fn derive_key_simple(password: &str, salt_phrase: Option<&str>) -> (r: Result<
    (Vec<u8>, Vec<u8>),
    KeyGenError,
>)
    ensures
        salt_phrase matches Some(p) ==> (r == Err::<(Vec<u8>, Vec<u8>), _>(
            KeyGenError::InvalidSalt,
        ) <==> !valid_salt_phrase(p@)),
        salt_phrase matches Some(p) ==> (r == Err::<(Vec<u8>, Vec<u8>), _>(
            KeyGenError::HashFailure,
        ) <==> valid_salt_phrase(p@) && encode_utf8(password@).len() > password_byte_limit()),
        salt_phrase is None ==> ((r is Err) <==> encode_utf8(password@).len()
            > password_byte_limit()),
        salt_phrase is None && r is Err ==> r == Err::<(Vec<u8>, Vec<u8>), _>(
            KeyGenError::HashFailure,
        ),
        r matches Ok(ks) ==> ks.0@.len() == 32 && ks.1@.len() == 16 && ks.0@ == trusted::argon2id_of(
            encode_utf8(password@),
            ks.1@,
        ),
        salt_phrase matches Some(p) ==> (r matches Ok(ks) ==> ks.1@ == phrase_salt(p@) && ks.0@
            == derived_key(password@, phrase_salt(p@))),
{
    derive_key(password, salt_phrase)
}

/// Law: derivation with a salt phrase is deterministic.  Any two outcomes
/// that satisfy `derive_key`'s contract for the same password and the same
/// present salt phrase carry the same key and the same salt.
pub proof fn lemma_derive_deterministic(
    password: Seq<char>,
    phrase: Seq<char>,
    key1: Seq<u8>,
    salt1: Seq<u8>,
    key2: Seq<u8>,
    salt2: Seq<u8>,
)
    requires
        salt1 == phrase_salt(phrase),
        key1 == derived_key(password, phrase_salt(phrase)),
        salt2 == phrase_salt(phrase),
        key2 == derived_key(password, phrase_salt(phrase)),
    ensures
        key1 == key2,
        salt1 == salt2,
{
}

} // verus!
