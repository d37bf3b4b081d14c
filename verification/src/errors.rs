//! The failure taxonomy of the ledger operations.

use vstd::prelude::*;

verus! {

/// Why a ledger operation was rejected.  A rejected operation changes
/// no ledger state at all.
#[derive(Clone, Copy, Debug, PartialEq, Eq, Structural)]
pub enum SwapError {
    /// A zero amount was supplied where a positive amount is required.
    InvalidAmount,
    /// The requested amount exceeds an available reserve or the
    /// caller's recorded contribution.
    InsufficientLiquidity,
    /// A swap's computed output fell below the caller's minimum.
    SlippageExceeded,
    /// A checked arithmetic step would leave the representable range
    /// (overflow, or a subtraction that would go negative).
    ArithmeticOverflow,
    /// The rate oracle returned a degenerate rate of zero, meaning no
    /// rate is available for the requested pair.
    OracleUnavailable,
}

} // verus!
