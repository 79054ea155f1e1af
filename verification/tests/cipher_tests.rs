use qimem::cipher;
use qimem::cipher::CipherError;
use qimem::q_core;
use qimem::q_core::QCoreError;
use qimem::q_keygen::derive_key;

#[test]
fn test_encrypt_decrypt() {
    let (key, _) = derive_key("password", None).unwrap();
    let data = b"hello world";
    let encrypted = q_core::encrypt(data, &key).unwrap();
    let decrypted = q_core::decrypt(&encrypted, &key).unwrap();
    assert_eq!(data, decrypted.as_slice());
}

#[test]
fn test_key_derivation() {
    // A four-character salt phrase is below the eight-character minimum,
    // so both calls are rejected the same way.
    let r1 = derive_key("password", Some("salt"));
    let r2 = derive_key("password", Some("salt"));
    assert_eq!(r1, r2);
    assert!(matches!(r1, Err(qimem::q_keygen::KeyGenError::InvalidSalt)));
}

#[test]
fn test_roundtrip_empty_plaintext() {
    let key = [7u8; 32];
    let env = cipher::encrypt(&[], &key).unwrap();
    assert_eq!(env.len(), 28);
    let back = cipher::decrypt(&env, &key).unwrap();
    assert!(back.is_empty());
}

#[test]
fn test_encrypt_twice_distinct() {
    let key = [9u8; 32];
    let data = b"the same plaintext";
    let e1 = cipher::encrypt(data, &key).unwrap();
    let e2 = cipher::encrypt(data, &key).unwrap();
    assert_ne!(e1, e2);
    assert_eq!(cipher::decrypt(&e1, &key).unwrap(), data.to_vec());
    assert_eq!(cipher::decrypt(&e2, &key).unwrap(), data.to_vec());
}

#[test]
fn test_ciphertext_differs_from_plaintext() {
    let key = [3u8; 32];
    let data = b"not left in the clear";
    let env = cipher::encrypt(data, &key).unwrap();
    assert_ne!(&env[12..12 + data.len()], &data[..]);
}

#[test]
fn test_tamper_any_byte_fails() {
    let key = [5u8; 32];
    let data = b"attack at dawn";
    let env = cipher::encrypt(data, &key).unwrap();
    for i in 0..env.len() {
        let mut bad = env.clone();
        bad[i] ^= 1;
        assert!(matches!(
            cipher::decrypt(&bad, &key),
            Err(CipherError::AuthenticationFailure)
        ));
    }
}

#[test]
fn test_decrypt_wrong_key_fails() {
    let key = [5u8; 32];
    let other = [6u8; 32];
    let env = cipher::encrypt(b"secret", &key).unwrap();
    assert!(matches!(
        cipher::decrypt(&env, &other),
        Err(CipherError::AuthenticationFailure)
    ));
}

#[test]
fn test_decrypt_short_input_fails() {
    let key = [1u8; 32];
    assert!(matches!(
        cipher::decrypt(&[0u8; 11], &key),
        Err(CipherError::AuthenticationFailure)
    ));
}

#[test]
fn test_q_core_key_length_checked() {
    assert!(matches!(
        q_core::encrypt(b"data", &[0u8; 31]),
        Err(QCoreError::InvalidKeyLength)
    ));
    assert!(matches!(
        q_core::decrypt(&[0u8; 40], &[0u8; 33]),
        Err(QCoreError::InvalidKeyLength)
    ));
}

#[test]
fn test_simple_roundtrip() {
    let key = [0xA5u8; 32];
    let message = b"hello";
    let encrypted = q_core::encrypt_simple(message, &key).unwrap();
    assert_eq!(encrypted.len(), 16);
    let mut padded = message.to_vec();
    padded.extend(vec![11u8; 11]);
    assert_ne!(encrypted, padded);
    let decrypted = q_core::decrypt_simple(&encrypted, &key).unwrap();
    assert_eq!(decrypted, message.to_vec());
}

#[test]
fn test_simple_roundtrip_block_sized() {
    let key = [0x11u8; 32];
    let message = [0x42u8; 16];
    let encrypted = q_core::encrypt_simple(&message, &key).unwrap();
    assert_eq!(encrypted.len(), 32);
    let decrypted = q_core::decrypt_simple(&encrypted, &key).unwrap();
    assert_eq!(decrypted, message.to_vec());
}

#[test]
fn test_simple_key_length_checked() {
    assert!(matches!(
        q_core::encrypt_simple(b"m", &[0u8; 31]),
        Err(QCoreError::InvalidKeyLength)
    ));
    assert!(matches!(
        q_core::decrypt_simple(&[0u8; 16], &[0u8; 31]),
        Err(QCoreError::InvalidKeyLength)
    ));
}

#[test]
fn test_simple_decrypt_ragged_length_fails() {
    let key = [0u8; 32];
    assert!(matches!(
        q_core::decrypt_simple(&[0u8; 17], &key),
        Err(QCoreError::DecryptionFailed)
    ));
}
