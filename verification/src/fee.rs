use vstd::prelude::*;

use crate::error::VaultMathError;
use crate::MAX_BPS;

verus! {

/// The fee kinds a vault charges.
///
/// `FixedAmount`: a fixed fee is applied (e.g. 0.1 asset).
/// `Percentage`: the fee is a share of the transferred amount, in basis points.
#[derive(Clone, Copy, Debug, PartialEq, Eq, Structural)]
pub enum FeeType {
    FixedAmount { amount: u64 },
    Percentage { bps: u16 },
}

/// A percentage fee of `bps` basis points on `total`, rounded up:
/// `ceil(total * bps / 10_000)`.
pub open spec fn percentage_fee(total: int, bps: int) -> int {
    (total * bps + 9_999) / 10_000
}

/// Whether computing a percentage fee overflows the 64-bit intermediate
/// `total * bps + 9_999`.
pub open spec fn percentage_fee_overflows(total: int, bps: int) -> bool {
    total * bps + 9_999 > u64::MAX
}

impl FeeType {
    /// A fee is valid unless it is a percentage above `MAX_BPS`.
    pub open spec fn is_valid(self) -> bool {
        match self {
            FeeType::Percentage { bps } => bps <= MAX_BPS,
            FeeType::FixedAmount { .. } => true,
        }
    }

    /// What `get_fee` returns for a fee-inclusive `total`.
    pub open spec fn fee_on(self, total: u64) -> Result<u64, VaultMathError> {
        match self {
            FeeType::Percentage { bps } => if percentage_fee_overflows(total as int, bps as int) {
                Err(VaultMathError::ArithmeticError)
            } else {
                Ok(percentage_fee(total as int, bps as int) as u64)
            },
            FeeType::FixedAmount { amount } => Ok(amount),
        }
    }

    /// Ensures percentage fees don't exceed `MAX_BPS`.
    pub fn validate(self) -> (res: Result<(), VaultMathError>)
        ensures
            res is Ok <==> self.is_valid(),
            res is Err ==> res == Err::<(), VaultMathError>(VaultMathError::FeeBpsLimitReached),
    {
        if let FeeType::Percentage { bps } = self {
            if bps > MAX_BPS {
                return Err(VaultMathError::FeeBpsLimitReached);
            }
        }
        Ok(())
    }

    /// Computes the fee from a known total amount (fee-inclusive).
    /// Rounds up for percentage fees.
    pub fn get_fee(self, total_amount: u64) -> (res: Result<u64, VaultMathError>)
        ensures
            res == self.fee_on(total_amount),
    {
        match self {
            FeeType::Percentage { bps } => {
                let scaled = match total_amount.checked_mul(bps as u64) {
                    Some(v) => v,
                    None => {
                        proof {
                            lemma_mul_nonneg(total_amount as int, bps as int);
                        }
                        return Err(VaultMathError::ArithmeticError);
                    },
                };
                let rounded = match scaled.checked_add(9_999) {
                    Some(v) => v,
                    None => return Err(VaultMathError::ArithmeticError),
                };
                let fee = match rounded.checked_div(10_000) {
                    Some(v) => v,
                    None => return Err(VaultMathError::ArithmeticError),
                };
                Ok(fee)
            },
            FeeType::FixedAmount { amount } => Ok(amount),
        }
    }
}

/// A valid percentage fee never takes more than the amount it is charged on:
/// whenever `get_fee` succeeds on a fee of at most 100%, the fee is at most
/// the total.
pub proof fn lemma_valid_percentage_fee_within_total(bps: u16, total: u64)
    requires
        (FeeType::Percentage { bps }).is_valid(),
    ensures
        ((FeeType::Percentage { bps }).fee_on(total) matches Ok(fee) ==> fee <= total),
{
    let t = total as int;
    let b = bps as int;
    assert(t * b <= t * 10_000) by (nonlinear_arith)
        requires
            0 <= t,
            0 <= b <= 10_000,
    ;
    assert((t * b + 9_999) / 10_000 <= t) by (nonlinear_arith)
        requires
            0 <= t,
            t * b <= t * 10_000,
            t * b >= 0,
    ;
}

/// A percentage fee is rounded up: it is the least amount whose value in
/// basis points covers `total * bps`.
pub proof fn lemma_percentage_fee_rounds_up(bps: u16, total: u64)
    ensures
        ((FeeType::Percentage { bps }).fee_on(total) matches Ok(fee) ==> fee * 10_000
            >= total * bps && fee * 10_000 < total * bps + 10_000),
{
    let t = total as int;
    let b = bps as int;
    lemma_mul_nonneg(t, b);
    let n = t * b + 9_999;
    let q = n / 10_000;
    assert(q * 10_000 <= n < q * 10_000 + 10_000) by (nonlinear_arith)
        requires
            q == n / 10_000,
            n >= 0,
    ;
}

/// The fee grows with the amount it is charged on.
pub proof fn lemma_fee_monotonic(fee: FeeType, total1: u64, total2: u64)
    requires
        total1 <= total2,
    ensures
        (fee.fee_on(total1) matches Ok(f1) ==> (fee.fee_on(total2) matches Ok(f2) ==> f1 <= f2)),
{
    if let FeeType::Percentage { bps } = fee {
        let b = bps as int;
        let t1 = total1 as int;
        let t2 = total2 as int;
        assert(t1 * b <= t2 * b) by (nonlinear_arith)
            requires
                0 <= t1 <= t2,
                0 <= b,
        ;
        lemma_mul_nonneg(t1, b);
        assert((t1 * b + 9_999) / 10_000 <= (t2 * b + 9_999) / 10_000) by (nonlinear_arith)
            requires
                0 <= t1 * b <= t2 * b,
        ;
    }
}

/// Which fees are valid: every fixed fee, and a percentage fee exactly when
/// it is at most 100%, i.e. at most 10,000 basis points.
pub proof fn lemma_validity_is_the_bps_bound(fee: FeeType)
    ensures
        (fee matches FeeType::FixedAmount { .. } ==> fee.is_valid()),
        (fee matches FeeType::Percentage { bps } ==> (fee.is_valid() <==> bps <= 10_000)),
{
}

/// A fixed fee is charged as is, whatever the total; a percentage fee fails
/// with an arithmetic error exactly when `total * bps + 9_999` does not fit
/// in 64 bits, and otherwise never fails.
pub proof fn lemma_fee_outcomes(fee: FeeType, total: u64)
    ensures
        (fee matches FeeType::FixedAmount { amount } ==> fee.fee_on(total) == Ok::<
            u64,
            VaultMathError,
        >(amount)),
        (fee matches FeeType::Percentage { bps } ==> (fee.fee_on(total) is Err <==> total * bps
            + 9_999 > u64::MAX)),
        (fee.fee_on(total) is Err ==> fee.fee_on(total) == Err::<u64, VaultMathError>(
            VaultMathError::ArithmeticError,
        )),
{
}

proof fn lemma_mul_nonneg(a: int, b: int)
    requires
        0 <= a,
        0 <= b,
    ensures
        0 <= a * b,
{
    assert(0 <= a * b) by (nonlinear_arith)
        requires
            0 <= a,
            0 <= b,
    ;
}

} // verus!
