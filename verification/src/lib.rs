//! Fee arithmetic, extension lookup and settlement math for tokenized vaults.
//!
//! - [`fee`]: the fee kinds a vault charges on deposits and withdrawals.
//! - [`error`]: the errors of the vault arithmetic.
//! - [`tlv`]: lookup of type-length-value entries in raw account data.
//! - [`subscription_queue`]: the subscription queue extension state.
//! - [`settlement`]: the amounts a user receives once fees and transfer
//!   fees are taken.
//! - [`token_state`]: balances and supplies read from token accounts and mints.
//! - [`error_code`]: recognizing a program error in a printed failure.
//! - [`le_bytes`]: little-endian integers in byte sequences.

use vstd::prelude::*;

pub mod error;
pub mod error_code;
pub mod fee;
pub mod le_bytes;
pub mod settlement;
pub mod subscription_queue;
pub mod tlv;
pub mod token_state;

pub use error::VaultMathError;
pub use fee::FeeType;

verus! {

/// One hundred percent, in basis points.
pub const MAX_BPS: u16 = 10_000;

} // verus!
