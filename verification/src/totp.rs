//! Time-based one-time passwords over base64 secrets: SHA-1, 6 digits,
//! one step of skew, 30-second steps.
//!
//! The codes themselves depend on the clock, so the contracts pin down
//! what does not: which secrets are accepted, the 28-character shape of a
//! fresh secret, and the 6-digit shape of every code.

use vstd::prelude::*;
use vstd::string::StringSliceAdditionalSpecFns;
use crate::trusted;

verus! {

/// Reason a one-time-password operation failed.
#[derive(Debug, Clone, Copy, PartialEq, Eq, Structural)]
pub enum TotpError {
    /// The secret is not valid base64 or decodes to fewer than 16 bytes.
    InvalidSecret,
    /// The system clock could not be read as a time after the epoch.
    ClockFailure,
}

/// A usable secret: valid base64 whose decoded form is at least the 128
/// bits the underlying generator demands.
pub open spec fn valid_totp_secret(text: Seq<u8>) -> bool {
    match trusted::b64_decoded(text) {
        Some(d) => d.len() >= 16,
        None => false,
    }
}

/// Draws a fresh 20-byte secret and returns its base64 form: 28 ASCII
/// characters that decode back to the 20 bytes.
pub fn generate_totp_secret() -> (r: Vec<u8>)
    ensures
        r@.len() == 28,
        valid_totp_secret(r@),
{
    let secret = trusted::random_bytes(20);
    trusted::b64_encode(secret.as_slice())
}

/// The 6-digit code for the clock's current step under a base64 secret.
///
/// Fails with `InvalidSecret` exactly when the secret is unusable; with a
/// usable secret the only failure left is a clock that cannot be read.
pub fn get_totp_code(secret: &str) -> (r: Result<Vec<u8>, TotpError>)
    ensures
        r == Err::<Vec<u8>, _>(TotpError::InvalidSecret) <==> !valid_totp_secret(
            secret.spec_bytes(),
        ),
        r matches Ok(c) ==> c@.len() == 6 && (forall|i: int|
            0 <= i < 6 ==> 0x30 <= #[trigger] c@[i] <= 0x39),
        valid_totp_secret(secret.spec_bytes()) ==> (r is Err ==> r == Err::<Vec<u8>, _>(
            TotpError::ClockFailure,
        )),
{
    let decoded = match trusted::b64_decode(secret.as_bytes()) {
        Some(d) => d,
        None => {
            return Err(TotpError::InvalidSecret);
        },
    };
    if decoded.len() < 16 {
        return Err(TotpError::InvalidSecret);
    }
    match trusted::totp_code_now(decoded.as_slice()) {
        Some(code) => Ok(code),
        None => Err(TotpError::ClockFailure),
    }
}

/// Checks a token against the current step (with one step of skew) under
/// a base64 secret.
///
/// Fails with `InvalidSecret` exactly when the secret is unusable; with a
/// usable secret the only failure left is a clock that cannot be read.
pub fn verify_totp_code(secret: &str, code: &str) -> (r: Result<bool, TotpError>)
    ensures
        r == Err::<bool, _>(TotpError::InvalidSecret) <==> !valid_totp_secret(secret.spec_bytes()),
        valid_totp_secret(secret.spec_bytes()) ==> (r is Err ==> r == Err::<bool, _>(
            TotpError::ClockFailure,
        )),
{
    let decoded = match trusted::b64_decode(secret.as_bytes()) {
        Some(d) => d,
        None => {
            return Err(TotpError::InvalidSecret);
        },
    };
    if decoded.len() < 16 {
        return Err(TotpError::InvalidSecret);
    }
    match trusted::totp_check_now(decoded.as_slice(), code) {
        Some(b) => Ok(b),
        None => Err(TotpError::ClockFailure),
    }
}

} // verus!
