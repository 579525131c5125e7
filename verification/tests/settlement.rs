use vault_suite::fee::FeeType;
use vault_suite::settlement::{
    assets_from_shares_formula, get_assets_from_shares, get_fee, recv_amount_from_params,
    redeem_fee_from_gross, transfer_fee_from_params, ProgramFeeType,
};

#[test]
fn transfer_fee_is_zero_without_amount_or_rate() {
    assert_eq!(transfer_fee_from_params(0, 100, 1_000), 0);
    assert_eq!(transfer_fee_from_params(1_000, 0, 1_000), 0);
}

#[test]
fn transfer_fee_rounds_up_and_caps() {
    assert_eq!(transfer_fee_from_params(1_000_000, 100, u64::MAX), 10_000);
    assert_eq!(transfer_fee_from_params(1, 1, u64::MAX), 1);
    assert_eq!(transfer_fee_from_params(1_000_000, 100, 5_000), 5_000);
}

#[test]
fn received_amounts() {
    assert_eq!(recv_amount_from_params(1_000_000, 100, u64::MAX), 990_000);
    assert_eq!(recv_amount_from_params(1_000_000, 100, 5_000), 995_000);
    assert_eq!(recv_amount_from_params(0, 100, 5_000), 0);
    // a rate above 100% takes everything, never more
    assert_eq!(recv_amount_from_params(10, 20_000, u64::MAX), 0);
    assert_eq!(recv_amount_from_params(500_000, 0, 0), 500_000);
}

#[test]
fn received_amount_bounds() {
    for amount in [0u64, 1, 99, 100_000, 123_456_789] {
        for bps in [0u16, 1, 50, 10_000, 65_535] {
            for max_fee in [0u64, 10, 1_000_000] {
                let recv = recv_amount_from_params(amount, bps, max_fee);
                assert!(recv <= amount);
                assert!(amount - recv <= max_fee);
            }
        }
    }
}

#[test]
fn assets_from_shares_with_virtual_share() {
    // 100 shares of a supply of 999 over 1000 assets: 100 * 1000 / 1000
    assert_eq!(get_assets_from_shares(1_000, 999, 100), 100);
    assert_eq!(get_assets_from_shares(1_000, 0, 1), 1_000);
    assert_eq!(get_assets_from_shares(1_000, 2, 1), 333);
    assert_eq!(get_assets_from_shares(u64::MAX, u64::MAX - 1, u64::MAX - 1), u64::MAX - 1);
}

#[test]
fn assets_from_shares_rounding() {
    // one virtual share: 1 * 1000 / (2 + 1)
    assert_eq!(assets_from_shares_formula(1_000, 2, 1, false), 333);
    assert_eq!(assets_from_shares_formula(1_000, 2, 1, true), 334);
    assert_eq!(assets_from_shares_formula(900, 2, 1, false), 300);
    assert_eq!(assets_from_shares_formula(900, 2, 1, true), 300);
    assert_eq!(assets_from_shares_formula(0, 7, 5, true), 0);
    // redeeming 100_000 of 495_000 shares over 495_000 assets
    assert_eq!(assets_from_shares_formula(495_000, 495_000, 100_000, false), 99_999);
    assert_eq!(assets_from_shares_formula(495_000, 495_000, 100_000, true), 100_000);
}

#[test]
fn formula_rounding_down_mirrors_get_assets_from_shares() {
    for total in [0u64, 1, 7, 495_000, 1_000_000_000] {
        for supply in [1u64, 3, 495_000, 100_000_000] {
            for shares in [0u64, 1, 100_000, supply] {
                assert_eq!(
                    assets_from_shares_formula(total, supply, shares, false),
                    get_assets_from_shares(total, supply, shares)
                );
            }
        }
    }
}

#[test]
fn received_amount_grows_with_amount() {
    for bps in [0u16, 1, 50, 10_000, 20_000, 65_535] {
        for max_fee in [0u64, 10, 1_000_000] {
            let mut last = 0;
            for amount in 0u64..300 {
                let recv = recv_amount_from_params(amount * 997, bps, max_fee);
                assert!(recv >= last);
                last = recv;
            }
        }
    }
}

#[test]
fn whole_supply_never_owes_more_than_total() {
    for total in [0u64, 1, 7, 1_000_000_000] {
        for supply in [1u64, 3, 100_000_000] {
            assert!(assets_from_shares_formula(total, supply, supply, true) <= total);
            assert!(assets_from_shares_formula(total, supply, supply, false) <= total);
            assert!(get_assets_from_shares(total, supply, supply) <= total);
        }
    }
}

#[test]
fn redeem_fees() {
    assert_eq!(redeem_fee_from_gross(None, 1_000), 0);
    assert_eq!(redeem_fee_from_gross(Some(FeeType::FixedAmount { amount: 42 }), 1_000), 42);
    assert_eq!(redeem_fee_from_gross(Some(FeeType::Percentage { bps: 0 }), 1_000), 0);
    // 50 bps on the net: gross 100_500 = net 100_000 + fee 500
    assert_eq!(redeem_fee_from_gross(Some(FeeType::Percentage { bps: 50 }), 100_500), 500);
    // rounded up
    assert_eq!(redeem_fee_from_gross(Some(FeeType::Percentage { bps: 50 }), 100_501), 501);
    assert_eq!(redeem_fee_from_gross(Some(FeeType::Percentage { bps: u16::MAX }), u64::MAX) <= u64::MAX, true);
}

#[test]
fn redeem_fee_covers_the_net_percentage() {
    for gross in [0u64, 1, 999, 100_500, u64::MAX] {
        for bps in [1u16, 50, 10_000, u16::MAX] {
            let fee = redeem_fee_from_gross(Some(FeeType::Percentage { bps }), gross);
            assert!(fee <= gross);
            assert!(fee as u128 * 10_000 >= (gross - fee) as u128 * bps as u128);
        }
    }
}

#[test]
fn program_fees() {
    assert_eq!(get_fee(ProgramFeeType::NoFee, 1_000), 0);
    assert_eq!(get_fee(ProgramFeeType::FixedAmount { amount: 3 }, 1_000), 3);
    assert_eq!(get_fee(ProgramFeeType::Percentage { bps: 100 }, 1_000_001), 10_001);
    for total in [0u64, 5, 1_000_001] {
        for bps in [0u16, 1, 100, 10_000] {
            assert_eq!(
                FeeType::Percentage { bps }.get_fee(total),
                Ok(get_fee(ProgramFeeType::Percentage { bps }, total))
            );
        }
    }
}
