//! The amounts a vault pays out and takes in: transfer fees charged by the
//! token itself, the assets a number of shares is worth, and the fee kept
//! on a redemption.
use vstd::prelude::*;

use crate::fee::{percentage_fee, percentage_fee_overflows, FeeType};

verus! {

/// The fee kinds as the vault program's instructions carry them: besides a
/// fixed amount and a percentage, an explicit "no fee".
#[derive(Clone, Copy, Debug, PartialEq, Eq, Structural)]
pub enum ProgramFeeType {
    FixedAmount { amount: u64 },
    Percentage { bps: u16 },
    NoFee,
}

/// `ceil(n / d)` for `d > 0`.
pub open spec fn div_ceil(n: int, d: int) -> int {
    (n + d - 1) / d
}

/// The transfer fee a token with `bps` basis points and a cap of `max_fee`
/// charges on `amount`: nothing on a zero amount or a zero rate, else the
/// rounded-up percentage, capped.
pub open spec fn transfer_fee(amount: u64, bps: u16, max_fee: u64) -> int {
    if amount == 0 || bps == 0 {
        0
    } else if div_ceil(amount * bps, 10_000) <= max_fee {
        div_ceil(amount * bps, 10_000)
    } else {
        max_fee as int
    }
}

/// Whether the uncapped transfer fee fits in 64 bits.
pub open spec fn transfer_fee_fits(amount: u64, bps: u16) -> bool {
    amount == 0 || bps == 0 || div_ceil(amount * bps, 10_000) <= u64::MAX
}

/// What the receiver gets of `amount` once the transfer fee is taken; never
/// below zero.
pub open spec fn received_amount(amount: u64, bps: u16, max_fee: u64) -> int {
    if amount - transfer_fee(amount, bps, max_fee) < 0 {
        0
    } else {
        amount - transfer_fee(amount, bps, max_fee)
    }
}

/// What `share_amount` shares are worth, rounded down or up, when
/// `shares_supply` shares stand for `total_assets`.
pub open spec fn assets_for_shares(
    total_assets: u64,
    shares_supply: int,
    share_amount: u64,
    round_up: bool,
) -> int {
    if round_up {
        div_ceil(share_amount * total_assets, shares_supply)
    } else {
        (share_amount * total_assets) / shares_supply
    }
}

/// What `share_amount` shares are worth when `supply` shares stand for
/// `total_assets`, counting one virtual share besides the supply.
pub open spec fn virtual_share_assets(
    total_assets: u64,
    supply: u64,
    share_amount: u64,
    round_up: bool,
) -> int {
    assets_for_shares(total_assets, supply + 1, share_amount, round_up)
}

/// The fee kept from a gross redemption amount: a percentage fee is charged
/// on the net amount, so of the gross it takes `ceil(gross * bps / (10_000 + bps))`.
pub open spec fn redeem_fee(fee: Option<FeeType>, gross: u64) -> int {
    match fee {
        Some(FeeType::Percentage { bps }) => if bps == 0 {
            0
        } else {
            div_ceil(gross * bps, 10_000 + bps)
        },
        Some(FeeType::FixedAmount { amount }) => amount as int,
        None => 0,
    }
}

/// The fee a program fee kind charges on a fee-inclusive total.
pub open spec fn program_fee(fee: ProgramFeeType, total: u64) -> int {
    match fee {
        ProgramFeeType::Percentage { bps } => percentage_fee(total as int, bps as int),
        ProgramFeeType::FixedAmount { amount } => amount as int,
        ProgramFeeType::NoFee => 0,
    }
}

proof fn lemma_div_ceil_bounds(n: int, d: int)
    requires
        n >= 0,
        d > 0,
    ensures
        div_ceil(n, d) * d >= n,
        (div_ceil(n, d) - 1) * d < n || n == 0,
        div_ceil(n, d) >= 0,
        n / d <= div_ceil(n, d) <= n / d + 1,
        n / d * d <= n,
{
    assert(div_ceil(n, d) * d >= n && ((div_ceil(n, d) - 1) * d < n || n == 0) && div_ceil(n, d)
        >= 0 && n / d <= div_ceil(n, d) <= n / d + 1 && n / d * d <= n) by (nonlinear_arith)
        requires
            n >= 0,
            d > 0,
    ;
}

proof fn lemma_mul_bounds(a: u64, b: int, bound: int)
    requires
        0 <= b <= bound,
    ensures
        0 <= a * b <= a * bound,
        a * b <= u64::MAX * bound,
{
    assert(0 <= a * b <= a * bound && a * b <= u64::MAX * bound) by (nonlinear_arith)
        requires
            0 <= b <= bound,
            0 <= a <= u64::MAX,
    ;
}

/// The transfer fee a token with `bps` basis points and a cap of `max_fee`
/// charges on `amount` (see [`transfer_fee`]).
pub fn transfer_fee_from_params(amount: u64, bps: u16, max_fee: u64) -> (res: u64)
    requires
        transfer_fee_fits(amount, bps),
    ensures
        res == transfer_fee(amount, bps, max_fee),
{
    if amount == 0 || bps == 0 {
        return 0;
    }
    proof {
        lemma_mul_bounds(amount, bps as int, u16::MAX as int);
    }
    let numerator: u128 = (amount as u128) * (bps as u128);
    let fee: u128 = (numerator + 10_000u128 - 1) / 10_000u128;
    let fee_u64 = fee as u64;
    if fee_u64 <= max_fee {
        fee_u64
    } else {
        max_fee
    }
}

/// Calculates the amount to receive after a token's transfer fees are
/// subtracted.
pub fn recv_amount_from_params(amount: u64, bps: u16, max_fee: u64) -> (res: u64)
    requires
        transfer_fee_fits(amount, bps),
    ensures
        res == received_amount(amount, bps, max_fee),
{
    amount.saturating_sub(transfer_fee_from_params(amount, bps, max_fee))
}

/// What `share_amount` shares are worth when `supply` shares stand for
/// `total_assets`, counting one virtual share and rounding down.
pub fn get_assets_from_shares(total_assets: u64, supply: u64, share_amount: u64) -> (res: u64)
    requires
        supply < u64::MAX,
        virtual_share_assets(total_assets, supply, share_amount, false) <= u64::MAX,
    ensures
        res == virtual_share_assets(total_assets, supply, share_amount, false),
{
    proof {
        lemma_mul_bounds(share_amount, total_assets as int, u64::MAX as int);
    }
    let numerator: u128 = (share_amount as u128) * (total_assets as u128);
    let denominator: u128 = (supply + 1) as u128;
    (numerator / denominator) as u64
}

/// What `share_amount` shares are worth when `shares_supply` shares stand
/// for `total_assets`, counting one virtual share like
/// [`get_assets_from_shares`]: `share_amount * total_assets / (shares_supply + 1)`,
/// rounded up when `round_up` holds and down otherwise. The supply must not
/// be zero.
pub fn assets_from_shares_formula(
    total_assets: u64,
    shares_supply: u64,
    share_amount: u64,
    round_up: bool,
) -> (res: u64)
    requires
        shares_supply > 0,
        virtual_share_assets(total_assets, shares_supply, share_amount, round_up) <= u64::MAX,
    ensures
        res == virtual_share_assets(total_assets, shares_supply, share_amount, round_up),
{
    proof {
        lemma_mul_bounds(share_amount, total_assets as int, u64::MAX as int);
    }
    let numerator: u128 = (share_amount as u128) * (total_assets as u128);
    let denominator: u128 = shares_supply as u128 + 1;
    let q: u128 = if round_up {
        (numerator + denominator - 1) / denominator
    } else {
        numerator / denominator
    };
    q as u64
}

/// The fee kept from a gross redemption amount (see [`redeem_fee`]).
pub fn redeem_fee_from_gross(fee: Option<FeeType>, gross: u64) -> (res: u64)
    ensures
        res == redeem_fee(fee, gross),
{
    match fee {
        Some(FeeType::Percentage { bps }) => {
            if bps == 0 {
                return 0;
            }
            let denominator: u128 = 10_000u128 + bps as u128;
            proof {
                lemma_mul_bounds(gross, bps as int, u16::MAX as int);
                lemma_redeem_fee_within_gross(gross, bps);
            }
            let numerator: u128 = gross as u128 * bps as u128;
            ((numerator + denominator - 1) / denominator) as u64
        },
        Some(FeeType::FixedAmount { amount }) => amount,
        None => 0,
    }
}

/// The fee a program fee kind charges on a fee-inclusive total; percentage
/// fees are rounded up.
pub fn get_fee(fee: ProgramFeeType, total_amount: u64) -> (res: u64)
    requires
        (fee matches ProgramFeeType::Percentage { bps } ==> !percentage_fee_overflows(
            total_amount as int,
            bps as int,
        )),
    ensures
        res == program_fee(fee, total_amount),
{
    match fee {
        ProgramFeeType::Percentage { bps } => {
            proof {
                lemma_mul_bounds(total_amount, bps as int, u16::MAX as int);
            }
            let scaled = total_amount * (bps as u64);
            (scaled + 9_999) / 10_000
        },
        ProgramFeeType::FixedAmount { amount } => amount,
        ProgramFeeType::NoFee => 0,
    }
}

/// A percentage redemption fee never exceeds the gross amount it is taken from.
pub proof fn lemma_redeem_fee_within_gross(gross: u64, bps: u16)
    ensures
        redeem_fee(Some(FeeType::Percentage { bps }), gross) <= gross,
        redeem_fee(Some(FeeType::Percentage { bps }), gross) >= 0,
{
    if bps != 0 {
        let g = gross as int;
        let b = bps as int;
        let d = 10_000 + b;
        assert(div_ceil(g * b, d) <= g && div_ceil(g * b, d) >= 0) by (nonlinear_arith)
            requires
                g >= 0,
                b > 0,
                d == 10_000 + b,
        ;
    }
}

/// The receiver never gets more than was sent, and the token keeps at most
/// its cap.
pub proof fn lemma_received_within_amount(amount: u64, bps: u16, max_fee: u64)
    ensures
        0 <= received_amount(amount, bps, max_fee) <= amount,
        amount - received_amount(amount, bps, max_fee) <= max_fee,
{
    if amount != 0 && bps != 0 {
        lemma_div_ceil_bounds(amount * bps, 10_000);
        lemma_mul_bounds(amount, bps as int, u16::MAX as int);
    }
}

/// Sending more never makes the receiver get less: the received amount
/// grows with the amount sent.
pub proof fn lemma_received_grows_with_amount(amount1: u64, amount2: u64, bps: u16, max_fee: u64)
    requires
        amount1 <= amount2,
    ensures
        received_amount(amount1, bps, max_fee) <= received_amount(amount2, bps, max_fee),
{
    lemma_received_within_amount(amount1, bps, max_fee);
    lemma_received_within_amount(amount2, bps, max_fee);
    if amount1 != 0 && bps != 0 {
        let b = bps as int;
        let a1 = amount1 as int;
        let a2 = amount2 as int;
        let m = max_fee as int;
        let d = a2 - a1;
        let n1 = a1 * b + 9_999;
        let n2 = a2 * b + 9_999;
        let c1 = n1 / 10_000;
        let c2 = n2 / 10_000;
        assert(div_ceil(a1 * b, 10_000) == c1);
        assert(div_ceil(a2 * b, 10_000) == c2);
        assert(n2 == n1 + d * b && n1 >= 9_999) by (nonlinear_arith)
            requires
                n1 == a1 * b + 9_999,
                n2 == a2 * b + 9_999,
                d == a2 - a1,
                a1 >= 0,
                b >= 0,
        ;
        if b <= 10_000 {
            assert(0 <= d * b <= d * 10_000) by (nonlinear_arith)
                requires
                    d >= 0,
                    0 < b <= 10_000,
            ;
            assert(c2 <= c1 + d) by (nonlinear_arith)
                requires
                    n2 == n1 + d * b,
                    d * b <= d * 10_000,
                    n1 >= 0,
                    d >= 0,
                    c1 == n1 / 10_000,
                    c2 == n2 / 10_000,
            ;
            assert(c1 <= a1) by (nonlinear_arith)
                requires
                    n1 == a1 * b + 9_999,
                    c1 == n1 / 10_000,
                    0 < b <= 10_000,
                    a1 >= 0,
            ;
        } else {
            assert(c1 >= a1 && c2 >= a2) by (nonlinear_arith)
                requires
                    n1 == a1 * b + 9_999,
                    n2 == a2 * b + 9_999,
                    c1 == n1 / 10_000,
                    c2 == n2 / 10_000,
                    b > 10_000,
                    a1 >= 0,
                    a2 >= 0,
            ;
        }
    }
}

/// Rounding up gives at most one unit more than rounding down, and the same
/// when the division is exact.
pub proof fn lemma_rounding_bracket(total_assets: u64, shares_supply: int, share_amount: u64)
    requires
        shares_supply > 0,
    ensures
        assets_for_shares(total_assets, shares_supply, share_amount, false) <= assets_for_shares(
            total_assets,
            shares_supply,
            share_amount,
            true,
        ) <= assets_for_shares(total_assets, shares_supply, share_amount, false) + 1,
        (share_amount * total_assets) % shares_supply == 0 ==> assets_for_shares(
            total_assets,
            shares_supply,
            share_amount,
            true,
        ) == assets_for_shares(total_assets, shares_supply, share_amount, false),
{
    let n = share_amount * total_assets;
    lemma_mul_bounds(share_amount, total_assets as int, u64::MAX as int);
    lemma_div_ceil_bounds(n, shares_supply);
    assert(n % shares_supply == 0 ==> div_ceil(n, shares_supply) == n / shares_supply)
        by (nonlinear_arith)
        requires
            n >= 0,
            shares_supply > 0,
    ;
}

/// No holder of at most the whole supply of shares is owed more than the
/// assets those shares stand for, whichever way the value is rounded.
pub proof fn lemma_shares_within_assets(
    total_assets: u64,
    shares_supply: int,
    share_amount: u64,
    round_up: bool,
)
    requires
        0 < shares_supply,
        share_amount <= shares_supply,
    ensures
        0 <= assets_for_shares(total_assets, shares_supply, share_amount, round_up)
            <= total_assets,
{
    let n = share_amount * total_assets;
    let t = total_assets as int;
    assert(0 <= n <= shares_supply * t) by (nonlinear_arith)
        requires
            n == share_amount * t,
            0 <= share_amount <= shares_supply,
            t >= 0,
    ;
    assert(0 <= n / shares_supply <= t && 0 <= div_ceil(n, shares_supply) <= t)
        by (nonlinear_arith)
        requires
            0 <= n <= shares_supply * t,
            shares_supply > 0,
            t >= 0,
    ;
}

/// The program fee kind that a vault fee stands for.
pub open spec fn as_program_fee(fee: FeeType) -> ProgramFeeType {
    match fee {
        FeeType::FixedAmount { amount } => ProgramFeeType::FixedAmount { amount },
        FeeType::Percentage { bps } => ProgramFeeType::Percentage { bps },
    }
}

/// The worth of shares is the quotient of `share_amount * total_assets` by
/// the supply plus one virtual share: rounded down, the largest `r` with
/// `r * (supply + 1) <= share_amount * total_assets`; rounded up, the
/// smallest `r` with `r * (supply + 1) >= share_amount * total_assets`. So
/// rounded down, the share formula and `get_assets_from_shares` agree.
pub proof fn lemma_virtual_share_quotient(total_assets: u64, supply: u64, share_amount: u64)
    ensures
        ({
            let n = share_amount * total_assets;
            let d = supply + 1;
            let down = virtual_share_assets(total_assets, supply, share_amount, false);
            let up = virtual_share_assets(total_assets, supply, share_amount, true);
            &&& down >= 0
            &&& down * d <= n < (down + 1) * d
            &&& up >= 0
            &&& (up - 1) * d < n <= up * d
        }),
{
    let n = share_amount * total_assets;
    let d = supply + 1;
    lemma_mul_bounds(share_amount, total_assets as int, u64::MAX as int);
    let down = n / d;
    let up = (n + d - 1) / d;
    assert(down >= 0 && down * d <= n < (down + 1) * d && up >= 0 && (up - 1) * d < n <= up * d)
        by (nonlinear_arith)
        requires
            down == n / d,
            up == (n + d - 1) / d,
            n >= 0,
            d > 0,
    ;
}

/// Rounded down, the share formula is `get_assets_from_shares`: on every
/// input both accept, the two contracts name the same value,
/// `floor(share_amount * total_assets / (supply + 1))`.
pub proof fn lemma_formula_mirrors_get_assets_from_shares(
    total_assets: u64,
    supply: u64,
    share_amount: u64,
)
    requires
        0 < supply < u64::MAX,
    ensures
        virtual_share_assets(total_assets, supply, share_amount, false) == (share_amount
            * total_assets) / (supply + 1),
        virtual_share_assets(total_assets, supply, share_amount, true) == div_ceil(
            share_amount * total_assets,
            supply + 1,
        ),
{
}

/// What each program fee kind charges on a fee-inclusive total: "no fee"
/// charges nothing, a fixed fee its amount whatever the total, and a
/// percentage fee the least amount whose value in basis points covers
/// `total * bps`.
pub proof fn lemma_program_fee_kinds(fee: ProgramFeeType, total: u64)
    ensures
        fee == ProgramFeeType::NoFee ==> program_fee(fee, total) == 0,
        (fee matches ProgramFeeType::FixedAmount { amount } ==> program_fee(fee, total) == amount),
        (fee matches ProgramFeeType::Percentage { bps } ==> program_fee(fee, total) * 10_000
            >= total * bps && program_fee(fee, total) * 10_000 < total * bps + 10_000),
{
    if let ProgramFeeType::Percentage { bps } = fee {
        let n = total * bps + 9_999;
        lemma_mul_bounds(total, bps as int, u16::MAX as int);
        let q = n / 10_000;
        assert(q * 10_000 <= n < q * 10_000 + 10_000) by (nonlinear_arith)
            requires
                q == n / 10_000,
                n >= 0,
        ;
    }
}

/// What is kept from a gross redemption: nothing without a fee or with a
/// zero rate, a fixed fee's amount whatever the gross, and for a percentage
/// fee the least amount `f` with `f * (10_000 + bps) >= gross * bps`, so
/// that it covers the percentage on the net amount paid out.
pub proof fn lemma_redeem_fee_kinds(fee: Option<FeeType>, gross: u64)
    ensures
        fee == None::<FeeType> ==> redeem_fee(fee, gross) == 0,
        fee == Some(FeeType::Percentage { bps: 0 }) ==> redeem_fee(fee, gross) == 0,
        (fee matches Some(FeeType::FixedAmount { amount }) ==> redeem_fee(fee, gross) == amount),
        (fee matches Some(FeeType::Percentage { bps }) ==> redeem_fee(fee, gross) * (10_000 + bps)
            >= gross * bps && (redeem_fee(fee, gross) - 1) * (10_000 + bps) < gross * bps),
{
    if let Some(FeeType::Percentage { bps }) = fee {
        if bps != 0 {
            let d = 10_000 + bps;
            lemma_mul_bounds(gross, bps as int, u16::MAX as int);
            let n = gross * bps;
            let q = (n + d - 1) / d;
            assert(q * d >= n && (q - 1) * d < n) by (nonlinear_arith)
                requires
                    q == (n + d - 1) / d,
                    n >= 0,
                    d > 0,
            ;
        }
    }
}

/// What a token's transfer fee is: nothing on a zero amount or at a zero
/// rate; otherwise at most the cap, at most the rounded-up percentage
/// (`fee * 10_000 < amount * bps + 10_000`), and either the whole cap or
/// enough to cover the percentage (`fee * 10_000 >= amount * bps`). The
/// receiver gets the amount less the fee, or nothing when the fee is larger.
pub proof fn lemma_transfer_fee_is_capped_ceiling(amount: u64, bps: u16, max_fee: u64)
    ensures
        amount == 0 ==> transfer_fee(amount, bps, max_fee) == 0,
        bps == 0 ==> transfer_fee(amount, bps, max_fee) == 0,
        amount != 0 && bps != 0 ==> {
            &&& 0 <= transfer_fee(amount, bps, max_fee) <= max_fee
            &&& transfer_fee(amount, bps, max_fee) * 10_000 < amount * bps + 10_000
            &&& (transfer_fee(amount, bps, max_fee) == max_fee || transfer_fee(amount, bps, max_fee)
                * 10_000 >= amount * bps)
        },
        received_amount(amount, bps, max_fee) == if transfer_fee(amount, bps, max_fee) <= amount {
            amount - transfer_fee(amount, bps, max_fee)
        } else {
            0
        },
{
    if amount != 0 && bps != 0 {
        lemma_mul_bounds(amount, bps as int, u16::MAX as int);
        let n = amount * bps;
        let q = (n + 10_000 - 1) / 10_000;
        assert(q * 10_000 >= n && q * 10_000 < n + 10_000 && q >= 0) by (nonlinear_arith)
            requires
                q == (n + 10_000 - 1) / 10_000,
                n >= 0,
        ;
    }
}

/// A vault fee and the program fee kind it stands for charge the same on
/// every total on which the vault fee does not overflow.
pub proof fn lemma_program_fee_agrees(fee: FeeType, total: u64)
    requires
        (fee matches FeeType::Percentage { bps } ==> !percentage_fee_overflows(
            total as int,
            bps as int,
        )),
    ensures
        fee.fee_on(total) == Ok::<u64, crate::error::VaultMathError>(
            program_fee(as_program_fee(fee), total) as u64,
        ),
{
}

/// A redemption fee taken from the gross amount covers the percentage on
/// the net amount that is paid out: `fee * 10_000 >= (gross - fee) * bps`.
pub proof fn lemma_redeem_fee_covers_net(gross: u64, bps: u16)
    ensures
        redeem_fee(Some(FeeType::Percentage { bps }), gross) * 10_000 >= (gross - redeem_fee(
            Some(FeeType::Percentage { bps }),
            gross,
        )) * bps,
{
    if bps != 0 {
        let g = gross as int;
        let b = bps as int;
        let d = 10_000 + b;
        let f = div_ceil(g * b, d);
        lemma_mul_bounds(gross, b, u16::MAX as int);
        lemma_div_ceil_bounds(g * b, d);
        assert(f * 10_000 >= (g - f) * b) by (nonlinear_arith)
            requires
                f * d >= g * b,
                d == 10_000 + b,
        ;
    }
}

} // verus!
