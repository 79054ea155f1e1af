use base64::Engine;
use qimem::totp::{generate_totp_secret, get_totp_code, verify_totp_code, TotpError};

#[test]
fn test_totp() {
    let secret = String::from_utf8(generate_totp_secret()).unwrap();
    let code = String::from_utf8(get_totp_code(&secret).unwrap()).unwrap();
    assert!(verify_totp_code(&secret, &code).unwrap());
}

#[test]
fn test_secret_shape() {
    let secret = generate_totp_secret();
    assert_eq!(secret.len(), 28);
    let decoded = base64::engine::general_purpose::STANDARD
        .decode(&secret)
        .unwrap();
    assert_eq!(decoded.len(), 20);
    let reencoded = base64::engine::general_purpose::STANDARD.encode(&decoded);
    assert_eq!(reencoded.into_bytes(), secret);
}

#[test]
fn test_code_shape() {
    let secret = String::from_utf8(generate_totp_secret()).unwrap();
    let code = get_totp_code(&secret).unwrap();
    assert_eq!(code.len(), 6);
    assert!(code.iter().all(|b| b.is_ascii_digit()));
}

#[test]
fn test_invalid_secret_rejected() {
    assert!(matches!(
        get_totp_code("!!!not-base64!!!"),
        Err(TotpError::InvalidSecret)
    ));
    assert!(matches!(
        verify_totp_code("!!!not-base64!!!", "123456"),
        Err(TotpError::InvalidSecret)
    ));
}

#[test]
fn test_short_secret_rejected() {
    // Eight decoded bytes: below the 16-byte minimum.
    let short = base64::engine::general_purpose::STANDARD.encode([0u8; 8]);
    assert!(matches!(
        get_totp_code(&short),
        Err(TotpError::InvalidSecret)
    ));
    assert!(matches!(
        verify_totp_code(&short, "123456"),
        Err(TotpError::InvalidSecret)
    ));
}

#[test]
fn test_wrong_code_rejected() {
    let secret = String::from_utf8(generate_totp_secret()).unwrap();
    let code = get_totp_code(&secret).unwrap();
    // Shift every digit so the token matches no nearby step.
    let wrong: String = code
        .iter()
        .map(|b| char::from(b'0' + ((b - b'0') + 1) % 10))
        .collect();
    assert!(!verify_totp_code(&secret, &wrong).unwrap());
}
