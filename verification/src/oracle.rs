//! The injected exchange-rate capability.
//!
//! The ledger prices a swap with a single externally supplied rate: a
//! fixed-point value scaled by `10^18` giving units of the outgoing
//! token per unit of the incoming token.  The oracle is read-only from
//! the ledger's side; a zero rate means no rate is available and makes
//! the swap fail rather than trade at a degenerate price.

use vstd::prelude::*;

verus! {

/// A source of exchange rates between token identifiers.
///
/// `spec_rate` is the oracle's mathematical content; `get_rate` must
/// return exactly that value, so a rate query is a pure function of the
/// oracle's state and the token pair.
pub trait RateOracle: Sized {
    /// The rate the oracle holds for the pair, scaled by `10^18`.
    spec fn spec_rate(&self, token_in: u64, token_out: u64) -> u128;

    /// Reads the rate for the pair.
    fn get_rate(&self, token_in: u64, token_out: u64) -> (r: u128)
        ensures
            r == self.spec_rate(token_in, token_out),
    ;
}

/// An oracle quoting one fixed rate for every pair.  With `rate` set to
/// `1` it matches a placeholder 1:1 quote before scaling; a realistic
/// deployment injects a richer implementation of [`RateOracle`].
pub struct FixedRateOracle {
    pub rate: u128,
}

impl RateOracle for FixedRateOracle {
    open spec fn spec_rate(&self, token_in: u64, token_out: u64) -> u128 {
        self.rate
    }

    fn get_rate(&self, token_in: u64, token_out: u64) -> (r: u128) {
        self.rate
    }
}

} // verus!
