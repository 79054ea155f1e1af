//! Ed25519 signing helpers: keypair generation, signing, verification.
//!
//! The signature scheme itself lives in the outside crate; what is
//! verified here is the byte-level contract around it — fixed key and
//! signature sizes, which inputs are refused, and that a signature
//! produced by `sign_message` verifies under the matching public key.

use vstd::prelude::*;
use crate::trusted;

verus! {

/// Reason a signing operation failed.
#[derive(Debug, Clone, Copy, PartialEq, Eq, Structural)]
pub enum SigningError {
    /// A secret or public key is not exactly 32 bytes.
    InvalidKeyLength,
    /// A signature is not exactly 64 bytes.
    InvalidSignatureLength,
    /// The 32 public-key bytes do not decode to a valid public key.
    InvalidPublicKey,
}

/// Generates a fresh keypair and returns `(public_key, secret_key)`, 32
/// bytes each; the public key is the one the secret key determines.
pub fn generate_keypair() -> (r: (Vec<u8>, Vec<u8>))
    ensures
        r.0@.len() == 32,
        r.1@.len() == 32,
        r.0@ == trusted::ed25519_public_of(r.1@),
        trusted::ed25519_pk_valid(r.0@),
{
    trusted::ed25519_generate()
}

/// Signs a message under a 32-byte secret key.
///
/// Fails exactly when the key is not 32 bytes; the 64-byte signature is a
/// pure function of key and message and verifies under the key's public
/// key.
pub fn sign_message(secret_key: &[u8], message: &[u8]) -> (r: Result<Vec<u8>, SigningError>)
    ensures
        (r is Err) <==> secret_key@.len() != 32,
        r matches Err(e) ==> e == SigningError::InvalidKeyLength,
        r matches Ok(sig) ==> {
            &&& sig@.len() == 64
            &&& sig@ == trusted::ed25519_sig_of(secret_key@, message@)
            &&& trusted::ed25519_verifies(
                trusted::ed25519_public_of(secret_key@),
                message@,
                sig@,
            )
        },
{
    if secret_key.len() != 32 {
        return Err(SigningError::InvalidKeyLength);
    }
    Ok(trusted::ed25519_sign(secret_key, message))
}

/// Checks a 64-byte signature over a message under a 32-byte public key.
///
/// Succeeds exactly when both sizes are right and the public key decodes;
/// the boolean is then whether the signature verifies.
pub fn verify_signature(public_key: &[u8], message: &[u8], signature: &[u8]) -> (r: Result<
    bool,
    SigningError,
>)
    ensures
        r == Err::<bool, _>(SigningError::InvalidKeyLength) <==> public_key@.len() != 32,
        public_key@.len() == 32 ==> (r == Err::<bool, _>(SigningError::InvalidSignatureLength)
            <==> signature@.len() != 64),
        public_key@.len() == 32 && signature@.len() == 64 ==> (r == Err::<bool, _>(
            SigningError::InvalidPublicKey,
        ) <==> !trusted::ed25519_pk_valid(public_key@)),
        (r is Ok) <==> public_key@.len() == 32 && signature@.len() == 64
            && trusted::ed25519_pk_valid(public_key@),
        r matches Ok(b) ==> b == trusted::ed25519_verifies(public_key@, message@, signature@),
{
    if public_key.len() != 32 {
        return Err(SigningError::InvalidKeyLength);
    }
    if signature.len() != 64 {
        return Err(SigningError::InvalidSignatureLength);
    }
    match trusted::ed25519_verify(public_key, message, signature) {
        Some(b) => Ok(b),
        None => Err(SigningError::InvalidPublicKey),
    }
}

} // verus!
