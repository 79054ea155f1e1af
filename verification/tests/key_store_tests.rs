use qimem::key_store::{KeyStore, KeyStoreError};

#[test]
fn test_keystore_creation_and_persistence() {
    let path = "/tmp/qimem_test_keys.bin";
    let mut keystore = KeyStore::new(path.to_string(), "very-strong-password", None).unwrap();
    let original_key = vec![42u8; 32];
    let (versioned_id, file_bytes) = keystore.store_key("my-test-key", &original_key).unwrap();

    let loaded =
        KeyStore::new(path.to_string(), "very-strong-password", Some(file_bytes.clone())).unwrap();
    let versioned = String::from_utf8(versioned_id).unwrap();
    assert!(versioned.starts_with("my-test-key_"));
    let retrieved_key = loaded.retrieve_key(&versioned).unwrap();
    assert_eq!(original_key, retrieved_key);

    assert!(KeyStore::new(path.to_string(), "wrong-password", Some(file_bytes)).is_err());
}

#[test]
fn test_end_to_end_store() {
    let path = "/tmp/ks.bin";
    let mut store =
        KeyStore::new(path.to_string(), "correct-horse-battery-staple", None).unwrap();
    let material = vec![0x2Au8; 32];
    let (versioned_id, file_bytes) = store.store_key("api-token", &material).unwrap();
    let versioned = String::from_utf8(versioned_id).unwrap();
    assert!(versioned.starts_with("api-token_"));

    let reopened =
        KeyStore::new(path.to_string(), "correct-horse-battery-staple", Some(file_bytes))
            .unwrap();
    assert_eq!(reopened.retrieve_key(&versioned).unwrap(), material);
}

#[test]
fn test_wrong_password_fails_closed() {
    let mut store = KeyStore::new("p".to_string(), "correct_password", None).unwrap();
    let (_, file_bytes) = store.store_key("k", &vec![1u8; 32]).unwrap();
    let err = match KeyStore::new("p".to_string(), "wrong_password", Some(file_bytes)) {
        Err(e) => e,
        Ok(_) => panic!("a wrong password must not open the store"),
    };
    assert!(matches!(err, KeyStoreError::AuthenticationFailure));
}

#[test]
fn test_same_base_id_two_entries() {
    let mut store = KeyStore::new("p".to_string(), "pw", None).unwrap();
    let k1 = vec![1u8; 32];
    let k2 = vec![2u8; 32];
    let (id1, _) = store.store_key("k", &k1).unwrap();
    let (id2, file2) = store.store_key("k", &k2).unwrap();
    assert_ne!(id1, id2);

    let reopened = KeyStore::new("p".to_string(), "pw", Some(file2)).unwrap();
    let s1 = String::from_utf8(id1).unwrap();
    let s2 = String::from_utf8(id2).unwrap();
    assert_eq!(reopened.retrieve_key(&s1).unwrap(), k1);
    assert_eq!(reopened.retrieve_key(&s2).unwrap(), k2);
}

#[test]
fn test_store_key_invalid_length() {
    let mut store = KeyStore::new("p".to_string(), "pw", None).unwrap();
    let (_, _first_file) = store.store_key("good", &vec![7u8; 32]).unwrap();

    let err = store.store_key("bad", &vec![0u8; 31]).unwrap_err();
    assert!(matches!(err, KeyStoreError::InvalidKeyLength));
    let err = store.store_key("bad", &vec![0u8; 33]).unwrap_err();
    assert!(matches!(err, KeyStoreError::InvalidKeyLength));

    // The failed stores left nothing behind: the last written file still
    // reopens to exactly one entry, and a later store builds on it.
    let (id2, file2) = store.store_key("second", &vec![9u8; 32]).unwrap();
    let reopened = KeyStore::new("p".to_string(), "pw", Some(file2)).unwrap();
    let s2 = String::from_utf8(id2).unwrap();
    assert_eq!(reopened.retrieve_key(&s2).unwrap(), vec![9u8; 32]);
}

#[test]
fn test_retrieve_needs_exact_versioned_id() {
    let mut store = KeyStore::new("p".to_string(), "pw", None).unwrap();
    let (_, _) = store.store_key("base", &vec![3u8; 32]).unwrap();
    assert!(store.retrieve_key("base").is_none());
    assert!(store.retrieve_key("missing").is_none());
}

#[test]
fn test_tampered_store_file_rejected() {
    let mut store = KeyStore::new("p".to_string(), "pw", None).unwrap();
    let (_, file_bytes) = store.store_key("k", &vec![4u8; 32]).unwrap();
    // One position in the nonce, one in the ciphertext, one in the tag;
    // the full every-byte sweep runs at the cipher level, where no key
    // derivation slows it down.
    for i in [0usize, file_bytes.len() / 2, file_bytes.len() - 1] {
        let mut bad = file_bytes.clone();
        bad[i] ^= 0x80;
        let err = match KeyStore::new("p".to_string(), "pw", Some(bad)) {
            Err(e) => e,
            Ok(_) => panic!("a tampered file must not open"),
        };
        assert!(matches!(err, KeyStoreError::AuthenticationFailure));
    }
}

#[test]
fn test_garbage_store_file_rejected() {
    let err = match KeyStore::new("p".to_string(), "pw", Some(vec![1, 2, 3])) {
        Err(e) => e,
        Ok(_) => panic!("garbage must not open"),
    };
    assert!(matches!(err, KeyStoreError::AuthenticationFailure));
}

#[test]
fn test_fresh_store_is_empty() {
    let store = KeyStore::new("p".to_string(), "pw", None).unwrap();
    assert!(store.retrieve_key("anything").is_none());
    assert_eq!(store.path(), "p");
}
