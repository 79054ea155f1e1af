use qimem::bucketing::has_ssn;

#[test]
fn test_ssn_detected() {
    assert!(has_ssn("SSN: 123-45-6789"));
    assert!(has_ssn("123-45-6789"));
    assert!(has_ssn("before 999-99-9999 after"));
}

#[test]
fn test_no_ssn() {
    assert!(!has_ssn(""));
    assert!(!has_ssn("no number here"));
    assert!(!has_ssn("12-345-6789"));
    assert!(!has_ssn("123-45-678"));
    assert!(!has_ssn("123456789"));
    assert!(!has_ssn("123-45_6789"));
}
