use vault_suite::error_code::{contains_slice, custom_error_bytes, error_matches};

#[test]
fn custom_error_texts() {
    assert_eq!(custom_error_bytes(6013), b"Custom(6013)".to_vec());
    assert_eq!(custom_error_bytes(0), b"Custom(0)".to_vec());
    assert_eq!(custom_error_bytes(u32::MAX), b"Custom(4294967295)".to_vec());
    assert_eq!(custom_error_bytes(6001), format!("Custom({})", 6001).into_bytes());
}

#[test]
fn substring_search() {
    assert!(contains_slice(b"abcabd", b"abd"));
    assert!(contains_slice(b"abc", b""));
    assert!(contains_slice(b"", b""));
    assert!(!contains_slice(b"ab", b"abc"));
    assert!(!contains_slice(b"aXbXc", b"abc"));
    assert!(contains_slice(b"abc", b"abc"));
}

#[test]
fn matches_by_code() {
    let printed = "FailedTransactionMetadata { err: InstructionError(0, Custom(6013)), meta: .. }";
    assert!(error_matches(printed, 6013, "SlippageExceeded"));
    assert!(!error_matches(printed, 601, "NotThere"));
    assert!(!error_matches(printed, 6014, "NotThere"));
}

#[test]
fn matches_by_name() {
    let printed = "Error Message: Slippage exceeded.";
    assert!(error_matches(printed, 6013, "Slippage exceeded."));
    assert!(!error_matches(printed, 6013, "Vault is already initialized."));
}
