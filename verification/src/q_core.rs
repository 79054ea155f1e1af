//! The core cipher entry points used by the host-binding layer and the
//! command-line front end.
//!
//! `encrypt` and `decrypt` build and open the same authenticated envelopes
//! as [`crate::cipher`], but accept the key as an arbitrary byte slice and
//! report a wrong size as `InvalidKeyLength` instead of requiring it.
//! `encrypt_simple` and `decrypt_simple` are the block-cipher pair used by
//! the command line: AES-256 in ECB mode with trailing-length padding, no
//! authentication.

use vstd::prelude::*;
use vstd::slice::slice_subrange;
use crate::cipher::envelope_plaintext;
use crate::trusted;

verus! {

/// Reason a core cipher operation failed.
#[derive(Debug, Clone, Copy, PartialEq, Eq, Structural)]
pub enum QCoreError {
    /// The key is not exactly 32 bytes.
    InvalidKeyLength,
    /// The underlying AEAD refused to encrypt (plaintext beyond its limit).
    EncryptionFailed,
    /// The envelope is too short, was tampered with, or the key is wrong.
    AuthenticationFailure,
    /// The block-cipher input is not a whole number of blocks.
    DecryptionFailed,
}

/// How many padding bytes the simple mode appends: always 1..=16, bringing
/// the length to the next multiple of 16.
pub open spec fn pad_len(n: int) -> int {
    16 - (n % 16)
}

/// A message with trailing-length padding: `pad_len` copies of the value
/// `pad_len` itself are appended.
pub open spec fn pkcs_pad(m: Seq<u8>) -> Seq<u8> {
    m + Seq::new(pad_len(m.len() as int) as nat, |i: int| pad_len(m.len() as int) as u8)
}

/// Removes trailing-length padding the way the simple mode does: when the
/// last byte holds a plausible padding length it is trusted, otherwise the
/// input is returned unchanged.
pub open spec fn pkcs_unpad(m: Seq<u8>) -> Seq<u8> {
    if m.len() == 0 {
        m
    } else {
        let p = m.last() as int;
        if 1 <= p <= m.len() && p <= 16 {
            m.take(m.len() - p)
        } else {
            m
        }
    }
}

/// AES-256-ECB over a whole number of 16-byte blocks, block by block.
pub open spec fn ecb_encrypt_blocks(key: Seq<u8>, m: Seq<u8>) -> Seq<u8>
    decreases m.len(),
{
    if m.len() < 16 {
        Seq::empty()
    } else {
        trusted::aes256_enc_block(key, m.subrange(0, 16)) + ecb_encrypt_blocks(
            key,
            m.subrange(16, m.len() as int),
        )
    }
}

/// The block-by-block inverse of [`ecb_encrypt_blocks`].
pub open spec fn ecb_decrypt_blocks(key: Seq<u8>, c: Seq<u8>) -> Seq<u8>
    decreases c.len(),
{
    if c.len() < 16 {
        Seq::empty()
    } else {
        trusted::aes256_dec_block(key, c.subrange(0, 16)) + ecb_decrypt_blocks(
            key,
            c.subrange(16, c.len() as int),
        )
    }
}

/// Appending one whole block to a block-aligned ciphertext decrypts to the
/// blockwise decryption of each part.
proof fn lemma_ecb_decrypt_snoc(key: Seq<u8>, c: Seq<u8>, b: Seq<u8>)
    requires
        c.len() % 16 == 0,
        b.len() == 16,
    ensures
        ecb_decrypt_blocks(key, c + b) == ecb_decrypt_blocks(key, c) + trusted::aes256_dec_block(
            key,
            b,
        ),
    decreases c.len(),
{
    if c.len() == 0 {
        reveal_with_fuel(ecb_decrypt_blocks, 3);
        assert(c + b =~= b);
        assert(b.subrange(0, 16) =~= b);
        assert(b.subrange(16, 16) =~= Seq::<u8>::empty());
        assert(trusted::aes256_dec_block(key, b) + Seq::<u8>::empty()
            =~= Seq::<u8>::empty() + trusted::aes256_dec_block(key, b));
        assert(ecb_decrypt_blocks(key, c + b) =~= ecb_decrypt_blocks(key, c)
            + trusted::aes256_dec_block(key, b));
    } else {
        let head = trusted::aes256_dec_block(key, c.subrange(0, 16));
        let tail = c.subrange(16, c.len() as int);
        assert((c + b).subrange(0, 16) =~= c.subrange(0, 16));
        assert((c + b).subrange(16, (c + b).len() as int) =~= tail + b);
        lemma_ecb_decrypt_snoc(key, tail, b);
        assert(head + (ecb_decrypt_blocks(key, tail) + trusted::aes256_dec_block(key, b)) =~= (head
            + ecb_decrypt_blocks(key, tail)) + trusted::aes256_dec_block(key, b));
        assert(ecb_decrypt_blocks(key, c + b) =~= ecb_decrypt_blocks(key, c)
            + trusted::aes256_dec_block(key, b));
    }
}

/// Law: removing the padding that [`pkcs_pad`] appended recovers the
/// original message, whatever its length.
pub proof fn lemma_unpad_pad(m: Seq<u8>)
    ensures
        pkcs_unpad(pkcs_pad(m)) == m,
{
    let p = pad_len(m.len() as int);
    let padded = pkcs_pad(m);
    assert(padded.last() == p as u8);
    assert(pkcs_unpad(padded) =~= m);
}

/// Encrypts `data` under `key` into a fresh authenticated envelope
/// (`nonce || ciphertext_and_tag`), checking the key size at run time.
pub fn encrypt(data: &[u8], key: &[u8]) -> (r: Result<Vec<u8>, QCoreError>)
    ensures
        r == Err::<Vec<u8>, _>(QCoreError::InvalidKeyLength) <==> key@.len() != 32,
        key@.len() == 32 ==> ((r is Ok) <==> data@.len() < trusted::aead_plain_limit()),
        key@.len() == 32 && r is Err ==> r == Err::<Vec<u8>, _>(QCoreError::EncryptionFailed),
        r matches Ok(env) ==> {
            &&& envelope_plaintext(env@, key@) == Some(data@)
            &&& env@.len() == data@.len() + 28
            &&& env@.subrange(12, env@.len() as int) == trusted::aead_seal(
                key@,
                env@.subrange(0, 12),
                data@,
            )
        },
{
    if key.len() != 32 {
        return Err(QCoreError::InvalidKeyLength);
    }
    let nonce = trusted::random_bytes(12);
    match trusted::aead_encrypt(key, nonce.as_slice(), data) {
        None => Err(QCoreError::EncryptionFailed),
        Some(mut sealed) => {
            let ghost sealed_view = sealed@;
            let mut env = nonce;
            let ghost nonce_view = env@;
            env.append(&mut sealed);
            proof {
                assert(env@.subrange(0, 12) =~= nonce_view);
                assert(env@.subrange(12, env@.len() as int) =~= sealed_view);
            }
            Ok(env)
        },
    }
}

/// Opens an authenticated envelope under `key`, checking the key size at
/// run time.  Succeeds exactly when the envelope authenticates under the
/// key; any alteration or a wrong key yields `AuthenticationFailure`.
pub fn decrypt(encrypted: &[u8], key: &[u8]) -> (r: Result<Vec<u8>, QCoreError>)
    ensures
        r == Err::<Vec<u8>, _>(QCoreError::InvalidKeyLength) <==> key@.len() != 32,
        key@.len() == 32 ==> ((r is Ok) <==> (envelope_plaintext(encrypted@, key@) is Some)),
        r matches Ok(p) ==> envelope_plaintext(encrypted@, key@) == Some(p@),
        key@.len() == 32 && r is Err ==> r == Err::<Vec<u8>, _>(QCoreError::AuthenticationFailure),
{
    if key.len() != 32 {
        return Err(QCoreError::InvalidKeyLength);
    }
    if encrypted.len() < 12 {
        return Err(QCoreError::AuthenticationFailure);
    }
    let nonce = slice_subrange(encrypted, 0, 12);
    let sealed = slice_subrange(encrypted, 12, encrypted.len());
    match trusted::aead_decrypt(key, nonce, sealed) {
        Some(p) => Ok(p),
        None => Err(QCoreError::AuthenticationFailure),
    }
}

/// Encrypts a message with AES-256-ECB after trailing-length padding.
///
/// The result is a whole number of blocks, 1 to 16 bytes longer than the
/// message, and decrypting it blockwise and unpadding recovers the message.
pub fn encrypt_simple(message: &[u8], key: &[u8]) -> (r: Result<Vec<u8>, QCoreError>)
    ensures
        (r is Err) <==> key@.len() != 32,
        r matches Err(e) ==> e == QCoreError::InvalidKeyLength,
        r matches Ok(c) ==> {
            &&& c@ == ecb_encrypt_blocks(key@, pkcs_pad(message@))
            &&& c@.len() == message@.len() + pad_len(message@.len() as int)
            &&& c@.len() % 16 == 0
            &&& ecb_decrypt_blocks(key@, c@) == pkcs_pad(message@)
            &&& pkcs_unpad(ecb_decrypt_blocks(key@, c@)) == message@
        },
{
    if key.len() != 32 {
        return Err(QCoreError::InvalidKeyLength);
    }
    let pl: usize = 16 - (message.len() % 16);
    let mut padded: Vec<u8> = Vec::new();
    padded.extend_from_slice(message);
    let mut j: usize = 0;
    while j < pl
        invariant
            j <= pl,
            pl == pad_len(message@.len() as int),
            padded@ == message@ + Seq::new(j as nat, |i: int| pl as u8),
        decreases pl - j,
    {
        padded.push(pl as u8);
        proof {
            assert(padded@ =~= message@ + Seq::new((j + 1) as nat, |i: int| pl as u8));
        }
        j = j + 1;
    }
    proof {
        assert(padded@ == pkcs_pad(message@));
        assert(padded@.len() % 16 == 0) by {
            assert(padded@.len() == message@.len() + pad_len(message@.len() as int));
        };
    }
    let mut out: Vec<u8> = Vec::new();
    let mut pos: usize = 0;
    proof {
        assert(padded@.subrange(0, padded@.len() as int) =~= padded@);
        assert(Seq::<u8>::empty() + ecb_encrypt_blocks(key@, padded@) =~= ecb_encrypt_blocks(
            key@,
            padded@,
        ));
        assert(padded@.subrange(0, 0) =~= Seq::<u8>::empty());
    }
    while pos < padded.len()
        invariant
            pos <= padded@.len(),
            pos % 16 == 0,
            padded@.len() % 16 == 0,
            key@.len() == 32,
            out@.len() == pos,
            ecb_encrypt_blocks(key@, padded@) == out@ + ecb_encrypt_blocks(
                key@,
                padded@.subrange(pos as int, padded@.len() as int),
            ),
            ecb_decrypt_blocks(key@, out@) == padded@.subrange(0, pos as int),
        decreases padded@.len() - pos,
    {
        let ghost suffix = padded@.subrange(pos as int, padded@.len() as int);
        let chunk = slice_subrange(padded.as_slice(), pos, pos + 16);
        let mut enc = trusted::aes_encrypt_block(key, chunk);
        let ghost out_before = out@;
        proof {
            assert(suffix.subrange(0, 16) =~= chunk@);
            assert(suffix.subrange(16, suffix.len() as int) =~= padded@.subrange(
                pos + 16,
                padded@.len() as int,
            ));
            assert((out_before + enc@) + ecb_encrypt_blocks(
                key@,
                padded@.subrange(pos + 16, padded@.len() as int),
            ) =~= out_before + (enc@ + ecb_encrypt_blocks(
                key@,
                padded@.subrange(pos + 16, padded@.len() as int),
            )));
            lemma_ecb_decrypt_snoc(key@, out_before, enc@);
            assert(padded@.subrange(0, pos as int) + chunk@ =~= padded@.subrange(
                0,
                pos + 16,
            ));
        }
        out.append(&mut enc);
        pos = pos + 16;
    }
    proof {
        assert(padded@.subrange(padded@.len() as int, padded@.len() as int) =~= Seq::<u8>::empty());
        assert(out@ + Seq::<u8>::empty() =~= out@);
        assert(padded@.subrange(0, padded@.len() as int) =~= padded@);
        lemma_unpad_pad(message@);
    }
    Ok(out)
}

/// Decrypts an AES-256-ECB ciphertext blockwise and removes the
/// trailing-length padding.  Fails when the key is not 32 bytes or the
/// input is not a whole number of blocks; it does not authenticate.
pub fn decrypt_simple(encrypted: &[u8], key: &[u8]) -> (r: Result<Vec<u8>, QCoreError>)
    ensures
        r == Err::<Vec<u8>, _>(QCoreError::InvalidKeyLength) <==> key@.len() != 32,
        key@.len() == 32 ==> (r == Err::<Vec<u8>, _>(QCoreError::DecryptionFailed)
            <==> encrypted@.len() % 16 != 0),
        (r is Ok) <==> key@.len() == 32 && encrypted@.len() % 16 == 0,
        r matches Ok(p) ==> p@ == pkcs_unpad(ecb_decrypt_blocks(key@, encrypted@)),
{
    if key.len() != 32 {
        return Err(QCoreError::InvalidKeyLength);
    }
    if encrypted.len() % 16 != 0 {
        return Err(QCoreError::DecryptionFailed);
    }
    let mut out: Vec<u8> = Vec::new();
    let mut pos: usize = 0;
    proof {
        assert(encrypted@.subrange(0, encrypted@.len() as int) =~= encrypted@);
        assert(Seq::<u8>::empty() + ecb_decrypt_blocks(key@, encrypted@) =~= ecb_decrypt_blocks(
            key@,
            encrypted@,
        ));
    }
    while pos < encrypted.len()
        invariant
            pos <= encrypted@.len(),
            pos % 16 == 0,
            encrypted@.len() % 16 == 0,
            key@.len() == 32,
            out@.len() == pos,
            ecb_decrypt_blocks(key@, encrypted@) == out@ + ecb_decrypt_blocks(
                key@,
                encrypted@.subrange(pos as int, encrypted@.len() as int),
            ),
        decreases encrypted@.len() - pos,
    {
        let ghost suffix = encrypted@.subrange(pos as int, encrypted@.len() as int);
        let chunk = slice_subrange(encrypted, pos, pos + 16);
        let mut dec = trusted::aes_decrypt_block(key, chunk);
        let ghost out_before = out@;
        proof {
            assert(suffix.subrange(0, 16) =~= chunk@);
            assert(suffix.subrange(16, suffix.len() as int) =~= encrypted@.subrange(
                pos + 16,
                encrypted@.len() as int,
            ));
            assert((out_before + dec@) + ecb_decrypt_blocks(
                key@,
                encrypted@.subrange(pos + 16, encrypted@.len() as int),
            ) =~= out_before + (dec@ + ecb_decrypt_blocks(
                key@,
                encrypted@.subrange(pos + 16, encrypted@.len() as int),
            )));
        }
        out.append(&mut dec);
        pos = pos + 16;
    }
    proof {
        assert(encrypted@.subrange(encrypted@.len() as int, encrypted@.len() as int)
            =~= Seq::<u8>::empty());
        assert(out@ + Seq::<u8>::empty() =~= out@);
    }
    let n = out.len();
    if n > 0 {
        let p = out[n - 1];
        if p >= 1 && p <= 16 {
            proof {
                assert(out@.last() == p);
            }
            out.truncate(n - p as usize);
            proof {
                assert(out@ =~= pkcs_unpad(ecb_decrypt_blocks(key@, encrypted@)));
            }
        }
    }
    Ok(out)
}

} // verus!
