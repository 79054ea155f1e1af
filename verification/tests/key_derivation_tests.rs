use qimem::key_derivation;
use qimem::key_derivation::KeyDerivationError;
use qimem::q_keygen::{derive_key, derive_key_simple, KeyGenError};

#[test]
fn test_user_salt() {
    let (key1, salt1) = derive_key("password", Some("saltphrase")).unwrap();
    let (key2, salt2) = derive_key("password", Some("saltphrase")).unwrap();
    assert_eq!(key1, key2);
    assert_eq!(salt1, salt2);
}

#[test]
fn test_random_salt() {
    let (key1, salt1) = derive_key("password", None).unwrap();
    let (key2, salt2) = derive_key("password", None).unwrap();
    assert_ne!(key1, key2);
    assert_ne!(salt1, salt2);
}

#[test]
fn test_invalid_salt() {
    let (key1, salt1) = derive_key("password", Some("saltphrase1")).unwrap();
    let (key2, salt2) = derive_key("password", Some("saltphrase2")).unwrap();
    assert_ne!(key1, key2);
    assert_ne!(salt1, salt2);
}

#[test]
fn test_short_salt_phrase_rejected() {
    assert!(matches!(
        derive_key("password", Some("short")),
        Err(KeyGenError::InvalidSalt)
    ));
    assert!(matches!(
        key_derivation::derive_key("password", "short"),
        Err(KeyDerivationError::InvalidSalt)
    ));
}

#[test]
fn test_non_alphanumeric_salt_phrase_rejected() {
    assert!(matches!(
        derive_key("password", Some("salt phrase!")),
        Err(KeyGenError::InvalidSalt)
    ));
}

#[test]
fn test_output_sizes() {
    let (key, salt) = derive_key("password", Some("saltphrase")).unwrap();
    assert_eq!(key.len(), 32);
    assert_eq!(salt.len(), 16);
    let (key_r, salt_r) = derive_key("password", None).unwrap();
    assert_eq!(key_r.len(), 32);
    assert_eq!(salt_r.len(), 16);
}

#[test]
fn test_salt_is_hashed_not_copied() {
    let phrase = "abcdefghijklmnop";
    let (_, salt) = derive_key("password", Some(phrase)).unwrap();
    assert_ne!(salt.as_slice(), &phrase.as_bytes()[..16]);
}

#[test]
fn test_key_is_stretched_not_copied() {
    let password = "0123456789abcdef0123456789abcdef";
    let (key, _) = derive_key(password, Some("saltphrase")).unwrap();
    assert_eq!(key.len(), 32);
    assert_ne!(key.as_slice(), password.as_bytes());
}

#[test]
fn test_different_passwords_different_keys() {
    let (key1, _) = derive_key("password-one", Some("saltphrase")).unwrap();
    let (key2, _) = derive_key("password-two", Some("saltphrase")).unwrap();
    assert_ne!(key1, key2);
}

#[test]
fn test_module_entry_points_agree() {
    let (qk_key, _) = derive_key("password", Some("saltphrase")).unwrap();
    let kd_key = key_derivation::derive_key("password", "saltphrase").unwrap();
    let (simple_key, _) = derive_key_simple("password", Some("saltphrase")).unwrap();
    assert_eq!(qk_key, kd_key);
    assert_eq!(qk_key, simple_key);
}
