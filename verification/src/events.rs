//! Notification values describing committed ledger operations.
//!
//! Each successful mutating operation returns one of these records; the
//! host forwards them to whatever indexer or user interface listens for
//! state changes.  The ledger never reads them back.

use vstd::prelude::*;

verus! {

/// A reserve-only top-up of `amount` units of `token` by `user`.
#[derive(Clone, Copy, Debug, PartialEq, Eq, Structural)]
pub struct TokenDeposited {
    pub user: u64,
    pub token: u64,
    pub amount: u128,
}

/// A committed swap: `user` paid `amount_in` of `token_in` and received
/// `amount_out` of `token_out` (net of the fee).
#[derive(Clone, Copy, Debug, PartialEq, Eq, Structural)]
pub struct TokensSwapped {
    pub user: u64,
    pub token_in: u64,
    pub amount_in: u128,
    pub token_out: u64,
    pub amount_out: u128,
}

/// `user` added `amount` units of `token` as liquidity.
#[derive(Clone, Copy, Debug, PartialEq, Eq, Structural)]
pub struct LiquidityAdded {
    pub user: u64,
    pub token: u64,
    pub amount: u128,
}

/// `user` removed liquidity in `token`; `amount` is the net amount paid
/// out after the fee was retained.
#[derive(Clone, Copy, Debug, PartialEq, Eq, Structural)]
pub struct LiquidityRemoved {
    pub user: u64,
    pub token: u64,
    pub amount: u128,
}

} // verus!
