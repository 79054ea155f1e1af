//! Password-protected, encrypted-at-rest storage of cryptographic key
//! material: a master password is stretched into a 256-bit key, arbitrary
//! payloads are wrapped in tamper-evident envelopes under such a key, and a
//! key store keeps a named map of 256-bit keys encrypted on disk.

use vstd::prelude::*;

pub mod bucketing;
pub mod cipher;
pub mod key_derivation;
pub mod key_store;
pub mod q_core;
pub mod q_keygen;
pub mod signing;
pub mod store_codec;
pub mod totp;
pub mod trusted;

verus! {

/// Compares two byte strings for equality of their contents.
pub fn bytes_eq(a: &[u8], b: &[u8]) -> (r: bool)
    ensures
        r == (a@ == b@),
{
    if a.len() != b.len() {
        return false;
    }
    let mut i: usize = 0;
    while i < a.len()
        invariant
            i <= a@.len(),
            a@.len() == b@.len(),
            forall|j: int| 0 <= j < i ==> a@[j] == b@[j],
        decreases a@.len() - i,
    {
        if a[i] != b[i] {
            return false;
        }
        i = i + 1;
    }
    proof {
        assert(a@ =~= b@);
    }
    true
}

} // verus!
