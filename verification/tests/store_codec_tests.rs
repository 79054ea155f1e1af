use qimem::bytes_eq;
use qimem::store_codec::{decode_store, encode_store, KeyEntry};

#[test]
fn test_encode_exact_bytes() {
    let entries = vec![KeyEntry { id: b"ab".to_vec(), key: vec![1u8; 32] }];
    let encoded = encode_store(&entries);
    let mut expected = vec![2u8, 0, 0, 0, 0, 0, 0, 0, b'a', b'b'];
    expected.extend(vec![1u8; 32]);
    assert_eq!(encoded, expected);
}

#[test]
fn test_decode_inverts_encode() {
    let entries = vec![
        KeyEntry { id: b"first".to_vec(), key: vec![0xAAu8; 32] },
        KeyEntry { id: b"".to_vec(), key: vec![0xBBu8; 32] },
        KeyEntry { id: b"a much longer identifier".to_vec(), key: vec![0xCCu8; 32] },
    ];
    let encoded = encode_store(&entries);
    let decoded = decode_store(&encoded).unwrap();
    assert_eq!(decoded.len(), 3);
    for (a, b) in entries.iter().zip(decoded.iter()) {
        assert_eq!(a.id, b.id);
        assert_eq!(a.key, b.key);
    }
}

#[test]
fn test_decode_rejects_damage() {
    let entries = vec![KeyEntry { id: b"id".to_vec(), key: vec![9u8; 32] }];
    let encoded = encode_store(&entries);
    // A truncated record, a cut-short header, and a length that overruns.
    assert!(decode_store(&encoded[..encoded.len() - 1]).is_none());
    assert!(decode_store(&encoded[..4]).is_none());
    let mut overrun = encoded.clone();
    overrun[0] = 0xFF;
    assert!(decode_store(&overrun).is_none());
}

#[test]
fn test_decode_empty_is_empty_store() {
    assert_eq!(decode_store(&[]).unwrap().len(), 0);
}

#[test]
fn test_bytes_eq() {
    assert!(bytes_eq(b"same", b"same"));
    assert!(bytes_eq(b"", b""));
    assert!(!bytes_eq(b"same", b"sane"));
    assert!(!bytes_eq(b"short", b"shorter"));
}
