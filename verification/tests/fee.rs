use vault_suite::fee::FeeType;
use vault_suite::{VaultMathError, MAX_BPS};

#[test]
fn validate_accepts_fixed_amounts() {
    assert_eq!(FeeType::FixedAmount { amount: u64::MAX }.validate(), Ok(()));
    assert_eq!(FeeType::FixedAmount { amount: 0 }.validate(), Ok(()));
}

#[test]
fn validate_accepts_percentages_up_to_max_bps() {
    assert_eq!(FeeType::Percentage { bps: 0 }.validate(), Ok(()));
    assert_eq!(FeeType::Percentage { bps: 100 }.validate(), Ok(()));
    assert_eq!(FeeType::Percentage { bps: MAX_BPS }.validate(), Ok(()));
}

#[test]
fn validate_rejects_percentages_above_max_bps() {
    assert_eq!(
        FeeType::Percentage { bps: 10_001 }.validate(),
        Err(VaultMathError::FeeBpsLimitReached)
    );
    assert_eq!(
        FeeType::Percentage { bps: u16::MAX }.validate(),
        Err(VaultMathError::FeeBpsLimitReached)
    );
}

#[test]
fn percentage_fee_exact() {
    // 1% of 1_000_000
    assert_eq!(FeeType::Percentage { bps: 100 }.get_fee(1_000_000), Ok(10_000));
    // 3% of 100_000_000
    assert_eq!(FeeType::Percentage { bps: 300 }.get_fee(100_000_000), Ok(3_000_000));
    // 100% of an amount is the amount
    assert_eq!(FeeType::Percentage { bps: 10_000 }.get_fee(123_456), Ok(123_456));
}

#[test]
fn percentage_fee_rounds_up() {
    assert_eq!(FeeType::Percentage { bps: 1 }.get_fee(1), Ok(1));
    assert_eq!(FeeType::Percentage { bps: 100 }.get_fee(101), Ok(2));
    assert_eq!(FeeType::Percentage { bps: 100 }.get_fee(100), Ok(1));
    assert_eq!(FeeType::Percentage { bps: 50 }.get_fee(500_000), Ok(2_500));
    assert_eq!(FeeType::Percentage { bps: 50 }.get_fee(500_001), Ok(2_501));
}

#[test]
fn percentage_fee_of_zero() {
    assert_eq!(FeeType::Percentage { bps: 0 }.get_fee(u64::MAX), Ok(0));
    assert_eq!(FeeType::Percentage { bps: 500 }.get_fee(0), Ok(0));
}

#[test]
fn percentage_fee_overflow_is_an_arithmetic_error() {
    assert_eq!(
        FeeType::Percentage { bps: 2 }.get_fee(u64::MAX),
        Err(VaultMathError::ArithmeticError)
    );
    // the product fits but adding the rounding term does not
    assert_eq!(
        FeeType::Percentage { bps: 1 }.get_fee(u64::MAX),
        Err(VaultMathError::ArithmeticError)
    );
    assert_eq!(
        FeeType::Percentage { bps: 1 }.get_fee(u64::MAX - 9_999),
        Ok((u64::MAX - 9_999 + 9_999) / 10_000)
    );
}

#[test]
fn fixed_fee_ignores_the_amount() {
    assert_eq!(FeeType::FixedAmount { amount: 7 }.get_fee(0), Ok(7));
    assert_eq!(FeeType::FixedAmount { amount: 7 }.get_fee(u64::MAX), Ok(7));
}

#[test]
fn valid_percentage_fee_never_exceeds_total() {
    for total in [0u64, 1, 9, 10_000, 123_457, 1_000_000_007] {
        for bps in [0u16, 1, 50, 100, 9_999, 10_000] {
            let fee = FeeType::Percentage { bps }.get_fee(total).unwrap();
            assert!(fee <= total);
            assert!(fee as u128 * 10_000 >= total as u128 * bps as u128);
            assert!((fee as u128) * 10_000 < total as u128 * bps as u128 + 10_000);
        }
    }
}

#[test]
fn error_messages() {
    assert_eq!(
        VaultMathError::ArithmeticError.message(),
        "Something happened while performing an arithmetic operation."
    );
    assert_eq!(
        VaultMathError::FeeBpsLimitReached.message(),
        "The provided fee must not exceed 100% (10,000 bps)."
    );
}
