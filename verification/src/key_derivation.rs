//! Password-to-key derivation with a mandatory salt phrase.
//!
//! This is the phrase-only entry point of the key-derivation component: the
//! salt is always determined by the phrase, so the result is a pure function
//! of `(password, salt_phrase)` and the caller gets the 32-byte key alone.

use vstd::prelude::*;
use vstd::utf8::encode_utf8;
use crate::q_keygen;
use crate::q_keygen::{derived_key, phrase_salt, valid_salt_phrase, password_byte_limit};

verus! {

/// Reason a derivation failed.
#[derive(Debug, Clone, Copy, PartialEq, Eq, Structural)]
pub enum KeyDerivationError {
    /// The salt phrase is shorter than 8 characters or not alphanumeric.
    InvalidSalt,
    /// The key-stretching function refused its inputs.
    HashFailure,
}

/// Derives the 32-byte key for a password under a salt phrase.
///
/// Fails with `InvalidSalt` exactly when the phrase is shorter than 8
/// characters or holds a non-alphanumeric character; otherwise the key is
/// the pure function of password and phrase that [`q_keygen::derive_key`]
/// computes.
pub fn derive_key(password: &str, salt_phrase: &str) -> (r: Result<Vec<u8>, KeyDerivationError>)
    ensures
        r == Err::<Vec<u8>, _>(KeyDerivationError::InvalidSalt) <==> !valid_salt_phrase(
            salt_phrase@,
        ),
        r == Err::<Vec<u8>, _>(KeyDerivationError::HashFailure) <==> valid_salt_phrase(salt_phrase@)
            && encode_utf8(password@).len() > password_byte_limit(),
        r matches Ok(k) ==> k@.len() == 32 && k@ == derived_key(
            password@,
            phrase_salt(salt_phrase@),
        ),
{
    match q_keygen::derive_key(password, Some(salt_phrase)) {
        Ok((key, _salt)) => Ok(key),
        Err(q_keygen::KeyGenError::InvalidSalt) => Err(KeyDerivationError::InvalidSalt),
        Err(q_keygen::KeyGenError::HashFailure) => Err(KeyDerivationError::HashFailure),
    }
}

} // verus!
