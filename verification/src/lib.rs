//! Accounting core of a two-sided token exchange pool.
//!
//! The ledger tracks per-token reserves, per-account liquidity
//! contributions, and per-token contribution totals, and executes five
//! operations — deposit, swap, add-liquidity, remove-liquidity and
//! rate-query — under checked fixed-point unsigned arithmetic.  Every
//! operation is all-or-nothing: a failed step leaves the ledger exactly
//! as it was.
//!
//! The exchange rate is supplied by an injected [`oracle::RateOracle`];
//! the caller's account identifier and the delivery of the emitted
//! notification values are the host's concern, outside this crate.

pub mod balances;
pub mod errors;
pub mod events;
pub mod ledger;
pub mod oracle;
pub mod state;
