use qimem::signing::{generate_keypair, sign_message, verify_signature, SigningError};

#[test]
fn test_sign_verify() {
    let (public_key, secret_key) = generate_keypair();
    let message = b"Test message";
    let signature = sign_message(&secret_key, message).expect("Signing failed");
    assert_eq!(signature.len(), 64, "Invalid signature length");

    let result = verify_signature(&public_key, message, &signature).expect("Verification failed");
    assert!(result, "Signature verification failed");
}

#[test]
fn test_signature_is_deterministic() {
    let (_, secret_key) = generate_keypair();
    let s1 = sign_message(&secret_key, b"same message").unwrap();
    let s2 = sign_message(&secret_key, b"same message").unwrap();
    assert_eq!(s1, s2);
}

#[test]
fn test_tampered_message_does_not_verify() {
    let (public_key, secret_key) = generate_keypair();
    let signature = sign_message(&secret_key, b"original").unwrap();
    assert_ne!(signature.as_slice(), b"original".as_slice());
    let ok = verify_signature(&public_key, b"altered!", &signature).unwrap();
    assert!(!ok);
}

#[test]
fn test_foreign_key_does_not_verify() {
    let (_, secret_key) = generate_keypair();
    let (other_public, _) = generate_keypair();
    let signature = sign_message(&secret_key, b"message").unwrap();
    let ok = verify_signature(&other_public, b"message", &signature).unwrap();
    assert!(!ok);
}

#[test]
fn test_invalid_public_key_detected() {
    // Roughly half of all 32-byte strings are no valid public key; among
    // the 256 constant patterns at least one must be rejected as such.
    let signature = [0u8; 64];
    let mut found = false;
    for b in 0..=255u8 {
        if matches!(
            verify_signature(&[b; 32], b"m", &signature),
            Err(SigningError::InvalidPublicKey)
        ) {
            found = true;
            break;
        }
    }
    assert!(found);
}

#[test]
fn test_signing_length_checks() {
    assert!(matches!(
        sign_message(&[0u8; 31], b"m"),
        Err(SigningError::InvalidKeyLength)
    ));
    let (public_key, secret_key) = generate_keypair();
    let signature = sign_message(&secret_key, b"m").unwrap();
    assert!(matches!(
        verify_signature(&[0u8; 31], b"m", &signature),
        Err(SigningError::InvalidKeyLength)
    ));
    assert!(matches!(
        verify_signature(&public_key, b"m", &signature[..63]),
        Err(SigningError::InvalidSignatureLength)
    ));
}
