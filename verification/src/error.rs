use vstd::prelude::*;

verus! {

/// The errors of the vault arithmetic.
#[derive(Clone, Copy, Debug, PartialEq, Eq, Structural)]
pub enum VaultMathError {
    /// An arithmetic operation overflowed.
    ArithmeticError,
    /// A percentage fee is above 100% (10,000 bps).
    FeeBpsLimitReached,
}

impl VaultMathError {
    /// The human-readable message of the error.
    pub fn message(&self) -> (res: &'static str)
        ensures
            *self == VaultMathError::ArithmeticError ==> res@
                == "Something happened while performing an arithmetic operation."@,
            *self == VaultMathError::FeeBpsLimitReached ==> res@
                == "The provided fee must not exceed 100% (10,000 bps)."@,
    {
        match self {
            VaultMathError::ArithmeticError => "Something happened while performing an arithmetic operation.",
            VaultMathError::FeeBpsLimitReached => "The provided fee must not exceed 100% (10,000 bps).",
        }
    }
}

} // verus!
