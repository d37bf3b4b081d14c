//! The executable liquidity ledger.
//!
//! `SwapX` owns the reserve, contribution and total-contribution maps
//! and commits each operation atomically: every checked step is carried
//! out before the first map write, so a failing operation returns its
//! error with the ledger exactly as it was.  Each operation's contract
//! ties its result and the new state to the corresponding transition
//! function of [`crate::state`].
//!
//! The caller's account identifier is passed in by the host, and each
//! successful mutating operation returns the notification value the
//! host is expected to emit.  A fee's protocol share — half of it,
//! rounded down — is never moved by the ledger itself: crediting it to
//! the protocol-fund account is the host's treasury transfer, outside
//! this crate.

use vstd::prelude::*;

use crate::balances::PairMap;
use crate::balances::TokenMap;
use crate::errors::SwapError;
use crate::events::LiquidityAdded;
use crate::events::LiquidityRemoved;
use crate::events::TokenDeposited;
use crate::events::TokensSwapped;
use crate::oracle::RateOracle;
use crate::state::add_liquidity_transition;
use crate::state::deposit_transition;
use crate::state::net_of;
use crate::state::remove_liquidity_transition;
use crate::state::swap_transition;
use crate::state::LedgerView;
use crate::state::FEE_DENOMINATOR;
use crate::state::RATE_SCALE;

verus! {

/// The liquidity ledger, generic over the injected rate oracle.
pub struct SwapX<O: RateOracle> {
    fee_percentage: u128,
    protocol_fund: u64,
    oracle: O,
    liquidity_pool: TokenMap,
    user_liquidity: PairMap,
    total_liquidity: TokenMap,
}

impl<O: RateOracle> View for SwapX<O> {
    type V = LedgerView;

    closed spec fn view(&self) -> LedgerView {
        LedgerView {
            reserves: Map::new(|t: u64| true, |t: u64| self.liquidity_pool.val(t)),
            contributions: Map::new(
                |k: (u64, u64)| true,
                |k: (u64, u64)| self.user_liquidity.val(k),
            ),
            total_contributions: Map::new(|t: u64| true, |t: u64| self.total_liquidity.val(t)),
            fee_rate: self.fee_percentage,
            protocol_fund: self.protocol_fund,
        }
    }
}

impl<O: RateOracle> SwapX<O> {
    /// The rate the injected oracle holds for the pair.
    pub closed spec fn oracle_rate(&self, token_in: u64, token_out: u64) -> u128 {
        self.oracle.spec_rate(token_in, token_out)
    }

    /// The two ledgers answer every rate query alike.
    pub open spec fn same_oracle(self, other: Self) -> bool {
        forall|a: u64, b: u64| self.oracle_rate(a, b) == other.oracle_rate(a, b)
    }

    /// A fresh ledger: every balance zero, the given fee rate and
    /// protocol-fund account, and the injected oracle.
    pub fn new(fee_percentage: u128, protocol_fund: u64, oracle: O) -> (s: Self)
        ensures
            s@.fee_rate == fee_percentage,
            s@.protocol_fund == protocol_fund,
            forall|t: u64| s@.reserves[t] == 0,
            forall|k: (u64, u64)| s@.contributions[k] == 0,
            forall|t: u64| s@.total_contributions[t] == 0,
            forall|a: u64, b: u64| s.oracle_rate(a, b) == oracle.spec_rate(a, b),
    {
        SwapX {
            fee_percentage,
            protocol_fund,
            oracle,
            liquidity_pool: TokenMap::new(),
            user_liquidity: PairMap::new(),
            total_liquidity: TokenMap::new(),
        }
    }

    /// Reads the current fee percentage.
    pub fn fee_percentage(&self) -> (r: u128)
        ensures
            r == self@.fee_rate,
    {
        self.fee_percentage
    }

    /// Reads the protocol-fund account identifier.
    pub fn protocol_fund(&self) -> (r: u64)
        ensures
            r == self@.protocol_fund,
    {
        self.protocol_fund
    }

    /// Reads the pool's reserve of `token`.
    pub fn reserve_of(&self, token: u64) -> (r: u128)
        ensures
            r == self@.reserves[token],
    {
        self.liquidity_pool.get(token)
    }

    /// Reads `user`'s recorded liquidity stake in `token`.
    pub fn contribution_of(&self, user: u64, token: u64) -> (r: u128)
        ensures
            r == self@.contributions[(user, token)],
    {
        self.user_liquidity.get((user, token))
    }

    /// Reads the running total of liquidity contributed in `token`.
    pub fn total_contribution_of(&self, token: u64) -> (r: u128)
        ensures
            r == self@.total_contributions[token],
    {
        self.total_liquidity.get(token)
    }

    /// A reserve-only top-up: adds `amount` to the reserve of `token`
    /// without crediting any contributor.
    pub fn deposit_token(&mut self, caller: u64, token: u64, amount: u128) -> (r: Result<
        TokenDeposited,
        SwapError,
    >)
        ensures
            match deposit_transition(old(self)@, token, amount) {
                Ok(v) => {
                    &&& r matches Ok(e) && e.user == caller && e.token == token && e.amount
                        == amount
                    &&& final(self)@ == v
                },
                Err(e) => r == Err::<TokenDeposited, SwapError>(e) && final(self)@ == old(self)@,
            },
            final(self).same_oracle(*old(self)),
    {
        if amount == 0 {
            return Err(SwapError::InvalidAmount);
        }
        let current = self.liquidity_pool.get(token);
        proof {
            assert(current == old(self)@.reserves[token]);
        }
        match current.checked_add(amount) {
            Some(updated) => {
                self.liquidity_pool.set(token, updated);
                proof {
                    let v = deposit_transition(old(self)@, token, amount)->Ok_0;
                    assert(self@.reserves =~= v.reserves);
                    assert(self@.contributions =~= v.contributions);
                    assert(self@.total_contributions =~= v.total_contributions);
                    assert(self@ =~= v);
                }
                Ok(TokenDeposited { user: caller, token, amount })
            },
            None => Err(SwapError::ArithmeticOverflow),
        }
    }

    /// Queries the oracle for the pair's rate.  The result is a pure
    /// function of the ledger's oracle state, so repeated queries with
    /// an unchanged ledger return the same value, and the ledger itself
    /// is untouched.
    pub fn get_swap_rate(&self, token_in: u64, token_out: u64) -> (r: u128)
        ensures
            r == self.oracle_rate(token_in, token_out),
    {
        self.oracle.get_rate(token_in, token_out)
    }

    /// Overwrites the fee percentage.  The value is deliberately not
    /// clamped: a rate above `FEE_DENOMINATOR` is representable, and
    /// operations priced under it fail with an arithmetic error rather
    /// than pay out a negative amount.
    pub fn set_fee_percentage(&mut self, fee_percentage: u128)
        ensures
            final(self)@ == (LedgerView { fee_rate: fee_percentage, ..old(self)@ }),
            final(self).same_oracle(*old(self)),
    {
        self.fee_percentage = fee_percentage;
        proof {
            assert(self@ =~= (LedgerView { fee_rate: fee_percentage, ..old(self)@ }));
        }
    }

    /// Adds `amount` of `token` as liquidity from `caller`: the
    /// reserve, the caller's stake and the token's contribution total
    /// all grow by `amount`, or nothing changes.
    pub fn add_liquidity(&mut self, caller: u64, token: u64, amount: u128) -> (r: Result<
        LiquidityAdded,
        SwapError,
    >)
        ensures
            match add_liquidity_transition(old(self)@, caller, token, amount) {
                Ok(v) => {
                    &&& r matches Ok(e) && e.user == caller && e.token == token && e.amount
                        == amount
                    &&& final(self)@ == v
                },
                Err(e) => r == Err::<LiquidityAdded, SwapError>(e) && final(self)@ == old(self)@,
            },
            final(self).same_oracle(*old(self)),
    {
        if amount == 0 {
            return Err(SwapError::InvalidAmount);
        }
        let current_liquidity = self.liquidity_pool.get(token);
        proof {
            assert(current_liquidity == old(self)@.reserves[token]);
        }
        let new_liquidity = match current_liquidity.checked_add(amount) {
            Some(v) => v,
            None => {
                return Err(SwapError::ArithmeticOverflow);
            },
        };
        let current_user_liquidity = self.user_liquidity.get((caller, token));
        proof {
            assert(current_user_liquidity == old(self)@.contributions[(caller, token)]);
        }
        let new_user_liquidity = match current_user_liquidity.checked_add(amount) {
            Some(v) => v,
            None => {
                return Err(SwapError::ArithmeticOverflow);
            },
        };
        let current_total = self.total_liquidity.get(token);
        proof {
            assert(current_total == old(self)@.total_contributions[token]);
        }
        let new_total = match current_total.checked_add(amount) {
            Some(v) => v,
            None => {
                return Err(SwapError::ArithmeticOverflow);
            },
        };
        self.liquidity_pool.set(token, new_liquidity);
        self.user_liquidity.set((caller, token), new_user_liquidity);
        self.total_liquidity.set(token, new_total);
        proof {
            let v = add_liquidity_transition(old(self)@, caller, token, amount)->Ok_0;
            assert(self@.reserves =~= v.reserves);
            assert(self@.contributions =~= v.contributions);
            assert(self@.total_contributions =~= v.total_contributions);
            assert(self@ =~= v);
        }
        Ok(LiquidityAdded { user: caller, token, amount })
    }

    /// Removes `amount` of `caller`'s liquidity in `token`.  The stake
    /// shrinks by the gross amount while the reserve and the total
    /// shrink by the net amount, so the fee stays in the pool.  The
    /// returned notification carries the net amount paid out.
    pub fn remove_liquidity(&mut self, caller: u64, token: u64, amount: u128) -> (r: Result<
        LiquidityRemoved,
        SwapError,
    >)
        ensures
            match remove_liquidity_transition(old(self)@, caller, token, amount) {
                Ok(v) => {
                    &&& r matches Ok(e) && e.user == caller && e.token == token && e.amount
                        == net_of(amount as int, old(self)@.fee_rate as int)
                    &&& final(self)@ == v
                },
                Err(e) => r == Err::<LiquidityRemoved, SwapError>(e) && final(self)@ == old(self)@,
            },
            final(self).same_oracle(*old(self)),
    {
        if amount == 0 {
            return Err(SwapError::InvalidAmount);
        }
        let user_liquidity = self.user_liquidity.get((caller, token));
        proof {
            assert(user_liquidity == old(self)@.contributions[(caller, token)]);
        }
        if user_liquidity < amount {
            return Err(SwapError::InsufficientLiquidity);
        }
        let fee_share = match amount.checked_mul(self.fee_percentage) {
            Some(p) => p / FEE_DENOMINATOR,
            None => {
                return Err(SwapError::ArithmeticOverflow);
            },
        };
        let amount_after_fee = match amount.checked_sub(fee_share) {
            Some(v) => v,
            None => {
                return Err(SwapError::ArithmeticOverflow);
            },
        };
        let current_liquidity = self.liquidity_pool.get(token);
        proof {
            assert(current_liquidity == old(self)@.reserves[token]);
        }
        let new_liquidity = match current_liquidity.checked_sub(amount_after_fee) {
            Some(v) => v,
            None => {
                return Err(SwapError::InsufficientLiquidity);
            },
        };
        let current_total = self.total_liquidity.get(token);
        proof {
            assert(current_total == old(self)@.total_contributions[token]);
        }
        let new_total = match current_total.checked_sub(amount_after_fee) {
            Some(v) => v,
            None => {
                return Err(SwapError::ArithmeticOverflow);
            },
        };
        let new_user_liquidity = user_liquidity - amount;
        self.liquidity_pool.set(token, new_liquidity);
        self.user_liquidity.set((caller, token), new_user_liquidity);
        self.total_liquidity.set(token, new_total);
        proof {
            let v = remove_liquidity_transition(old(self)@, caller, token, amount)->Ok_0;
            assert(self@.reserves =~= v.reserves);
            assert(self@.contributions =~= v.contributions);
            assert(self@.total_contributions =~= v.total_contributions);
            assert(self@ =~= v);
        }
        Ok(LiquidityRemoved { user: caller, token, amount: amount_after_fee })
    }

    /// Swaps `amount_in` of `token_in` for `token_out` at the oracle's
    /// rate, enforcing the caller's slippage minimum.  The pool keeps
    /// the liquidity-provider share of the fee in the outgoing reserve.
    /// A zero oracle rate means no rate is available and fails the swap
    /// rather than trading at a degenerate price.
    pub fn swap_tokens(
        &mut self,
        caller: u64,
        token_in: u64,
        amount_in: u128,
        token_out: u64,
        min_amount_out: u128,
    ) -> (r: Result<TokensSwapped, SwapError>)
        ensures
            match swap_transition(
                old(self)@,
                token_in,
                amount_in,
                token_out,
                min_amount_out,
                old(self).oracle_rate(token_in, token_out),
            ) {
                Ok(v) => {
                    &&& r matches Ok(e) && e.user == caller && e.token_in == token_in
                        && e.amount_in == amount_in && e.token_out == token_out && e.amount_out
                        == v.1
                    &&& final(self)@ == v.0
                },
                Err(e) => r == Err::<TokensSwapped, SwapError>(e) && final(self)@ == old(self)@,
            },
            final(self).same_oracle(*old(self)),
    {
        if amount_in == 0 {
            return Err(SwapError::InvalidAmount);
        }
        let liquidity_in = self.liquidity_pool.get(token_in);
        let liquidity_out = self.liquidity_pool.get(token_out);
        proof {
            assert(liquidity_in == old(self)@.reserves[token_in]);
            assert(liquidity_out == old(self)@.reserves[token_out]);
        }
        if liquidity_in < amount_in {
            return Err(SwapError::InsufficientLiquidity);
        }
        if liquidity_out == 0 {
            return Err(SwapError::InsufficientLiquidity);
        }
        let swap_rate = self.get_swap_rate(token_in, token_out);
        if swap_rate == 0 {
            return Err(SwapError::OracleUnavailable);
        }
        let amount_out_pre = match amount_in.checked_mul(swap_rate) {
            Some(p) => p / RATE_SCALE,
            None => {
                return Err(SwapError::ArithmeticOverflow);
            },
        };
        let fee = match amount_out_pre.checked_mul(self.fee_percentage) {
            Some(p) => p / FEE_DENOMINATOR,
            None => {
                return Err(SwapError::ArithmeticOverflow);
            },
        };
        let protocol_fee = fee / 2;
        let liquidity_fee = fee - protocol_fee;
        let amount_out = match amount_out_pre.checked_sub(fee) {
            Some(v) => v,
            None => {
                return Err(SwapError::ArithmeticOverflow);
            },
        };
        if amount_out < min_amount_out {
            return Err(SwapError::SlippageExceeded);
        }
        if liquidity_out < amount_out {
            return Err(SwapError::InsufficientLiquidity);
        }
        let new_liquidity_in = match liquidity_in.checked_add(amount_in) {
            Some(v) => v,
            None => {
                return Err(SwapError::ArithmeticOverflow);
            },
        };
        let final_liquidity_out = match (liquidity_out - amount_out).checked_add(liquidity_fee) {
            Some(v) => v,
            None => {
                return Err(SwapError::ArithmeticOverflow);
            },
        };
        self.liquidity_pool.set(token_in, new_liquidity_in);
        self.liquidity_pool.set(token_out, final_liquidity_out);
        proof {
            let v = swap_transition(
                old(self)@,
                token_in,
                amount_in,
                token_out,
                min_amount_out,
                old(self).oracle_rate(token_in, token_out),
            )->Ok_0;
            assert(self@.reserves =~= v.0.reserves);
            assert(self@.contributions =~= v.0.contributions);
            assert(self@.total_contributions =~= v.0.total_contributions);
            assert(self@ =~= v.0);
        }
        Ok(TokensSwapped { user: caller, token_in, amount_in, token_out, amount_out })
    }
}

} // verus!
