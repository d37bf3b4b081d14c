//! The mathematical model of the ledger.
//!
//! A [`LedgerView`] is the abstract state: total maps from identifiers
//! to balances, the fee rate and the protocol-fund account.  Each
//! operation of the executable ledger is specified by a transition
//! function here, which either names the exact error the operation must
//! return or gives the exact state it must leave behind.  The laws at
//! the end of the module are proved of the transitions alone, so they
//! hold of every implementation meeting the contracts.

use vstd::prelude::*;

use crate::errors::SwapError;

verus! {

/// Fixed-point scale of an exchange rate: a rate of `RATE_SCALE` is a
/// 1:1 price.
pub const RATE_SCALE: u128 = 1_000_000_000_000_000_000;

/// The fee rate is a percentage: a fee rate of `FEE_DENOMINATOR` takes
/// the whole amount.
pub const FEE_DENOMINATOR: u128 = 100;

/// The abstract ledger state.  The maps are total: a token or account
/// the ledger never touched holds a zero balance.
#[verifier::ext_equal]
pub struct LedgerView {
    /// The pool's holdings of each token.
    pub reserves: Map<u64, u128>,
    /// Each (account, token) pair's recorded liquidity stake.
    pub contributions: Map<(u64, u64), u128>,
    /// Per token, the running total of contributed liquidity.
    pub total_contributions: Map<u64, u128>,
    /// The fee percentage applied to swap output and liquidity removal.
    pub fee_rate: u128,
    /// The account intended to receive the protocol's fee share.
    pub protocol_fund: u64,
}

/// Output of a swap before the fee: `amount_in * rate / RATE_SCALE`,
/// rounded down.
pub open spec fn gross_output_of(amount_in: int, rate: int) -> int {
    amount_in * rate / (RATE_SCALE as int)
}

/// The fee taken from `amount` at `fee_rate` percent, rounded down.
pub open spec fn fee_of(amount: int, fee_rate: int) -> int {
    amount * fee_rate / (FEE_DENOMINATOR as int)
}

/// The half of the fee intended for the protocol treasury, rounded
/// down.
pub open spec fn protocol_share_of(fee: int) -> int {
    fee / 2
}

/// The rest of the fee, retained in the pool for liquidity providers.
pub open spec fn liquidity_share_of(fee: int) -> int {
    fee - protocol_share_of(fee)
}

/// What remains of `amount` once the fee is taken.
pub open spec fn net_of(amount: int, fee_rate: int) -> int {
    amount - fee_of(amount, fee_rate)
}

/// A deposit: a reserve-only top-up of `token` by `amount`.
pub open spec fn deposit_transition(s: LedgerView, token: u64, amount: u128) -> Result<
    LedgerView,
    SwapError,
> {
    if amount == 0 {
        Err(SwapError::InvalidAmount)
    } else if s.reserves[token] + amount > u128::MAX {
        Err(SwapError::ArithmeticOverflow)
    } else {
        Ok(
            LedgerView {
                reserves: s.reserves.insert(token, (s.reserves[token] + amount) as u128),
                ..s
            },
        )
    }
}

/// Adding liquidity raises the token's reserve, the caller's stake and
/// the token's contribution total by the same amount.
pub open spec fn add_liquidity_transition(
    s: LedgerView,
    user: u64,
    token: u64,
    amount: u128,
) -> Result<LedgerView, SwapError> {
    if amount == 0 {
        Err(SwapError::InvalidAmount)
    } else if s.reserves[token] + amount > u128::MAX {
        Err(SwapError::ArithmeticOverflow)
    } else if s.contributions[(user, token)] + amount > u128::MAX {
        Err(SwapError::ArithmeticOverflow)
    } else if s.total_contributions[token] + amount > u128::MAX {
        Err(SwapError::ArithmeticOverflow)
    } else {
        Ok(
            LedgerView {
                reserves: s.reserves.insert(token, (s.reserves[token] + amount) as u128),
                contributions: s.contributions.insert(
                    (user, token),
                    (s.contributions[(user, token)] + amount) as u128,
                ),
                total_contributions: s.total_contributions.insert(
                    token,
                    (s.total_contributions[token] + amount) as u128,
                ),
                ..s
            },
        )
    }
}

/// Removing liquidity pays out the amount net of the fee: the caller's
/// stake shrinks by the gross amount, while the reserve and the
/// contribution total shrink only by the net amount, so the fee stays
/// in the pool.
pub open spec fn remove_liquidity_transition(
    s: LedgerView,
    user: u64,
    token: u64,
    amount: u128,
) -> Result<LedgerView, SwapError> {
    let stake = s.contributions[(user, token)];
    let fee = fee_of(amount as int, s.fee_rate as int);
    let net = net_of(amount as int, s.fee_rate as int);
    if amount == 0 {
        Err(SwapError::InvalidAmount)
    } else if stake < amount {
        Err(SwapError::InsufficientLiquidity)
    } else if amount * s.fee_rate > u128::MAX {
        Err(SwapError::ArithmeticOverflow)
    } else if fee > amount {
        Err(SwapError::ArithmeticOverflow)
    } else if s.reserves[token] < net {
        Err(SwapError::InsufficientLiquidity)
    } else if s.total_contributions[token] < net {
        Err(SwapError::ArithmeticOverflow)
    } else {
        Ok(
            LedgerView {
                reserves: s.reserves.insert(token, (s.reserves[token] - net) as u128),
                contributions: s.contributions.insert((user, token), (stake - amount) as u128),
                total_contributions: s.total_contributions.insert(
                    token,
                    (s.total_contributions[token] - net) as u128,
                ),
                ..s
            },
        )
    }
}

/// A swap of `amount_in` of `token_in` for `token_out` at `rate`.
/// On success the result carries the new state and the amount paid out.
/// The incoming reserve grows by the full input; the outgoing reserve
/// loses the payout but keeps the liquidity-provider share of the fee.
/// When both tokens are the same the outgoing update is the one that
/// stands, as the sequential reserve writes of the ledger leave it.
pub open spec fn swap_transition(
    s: LedgerView,
    token_in: u64,
    amount_in: u128,
    token_out: u64,
    min_amount_out: u128,
    rate: u128,
) -> Result<(LedgerView, u128), SwapError> {
    let liq_in = s.reserves[token_in];
    let liq_out = s.reserves[token_out];
    let pre = gross_output_of(amount_in as int, rate as int);
    let fee = fee_of(pre, s.fee_rate as int);
    let out = pre - fee;
    if amount_in == 0 {
        Err(SwapError::InvalidAmount)
    } else if liq_in < amount_in {
        Err(SwapError::InsufficientLiquidity)
    } else if liq_out == 0 {
        Err(SwapError::InsufficientLiquidity)
    } else if rate == 0 {
        Err(SwapError::OracleUnavailable)
    } else if amount_in * rate > u128::MAX {
        Err(SwapError::ArithmeticOverflow)
    } else if pre * s.fee_rate > u128::MAX {
        Err(SwapError::ArithmeticOverflow)
    } else if fee > pre {
        Err(SwapError::ArithmeticOverflow)
    } else if out < min_amount_out {
        Err(SwapError::SlippageExceeded)
    } else if liq_out < out {
        Err(SwapError::InsufficientLiquidity)
    } else if liq_in + amount_in > u128::MAX {
        Err(SwapError::ArithmeticOverflow)
    } else if liq_out - out + liquidity_share_of(fee) > u128::MAX {
        Err(SwapError::ArithmeticOverflow)
    } else {
        Ok(
            (
                LedgerView {
                    reserves: s.reserves.insert(token_in, (liq_in + amount_in) as u128).insert(
                        token_out,
                        (liq_out - out + liquidity_share_of(fee)) as u128,
                    ),
                    ..s
                },
                out as u128,
            ),
        )
    }
}

/// Law: a successful deposit raises the deposited token's reserve by
/// exactly the amount and changes no other entry of the ledger.
pub proof fn lemma_deposit_adds_exactly(s: LedgerView, token: u64, amount: u128)
    requires
        amount > 0,
        deposit_transition(s, token, amount) is Ok,
    ensures
        ({
            let t = deposit_transition(s, token, amount)->Ok_0;
            &&& t.reserves[token] == s.reserves[token] + amount
            &&& forall|t2: u64| t2 != token ==> t.reserves[t2] == s.reserves[t2]
            &&& t.contributions == s.contributions
            &&& t.total_contributions == s.total_contributions
            &&& t.fee_rate == s.fee_rate
            &&& t.protocol_fund == s.protocol_fund
        }),
{
}

/// Law: adding liquidity and then removing the same amount returns the
/// caller's stake to its pre-add value, while the reserve and the
/// contribution total keep exactly the removal fee.  The inputs on
/// which the removal itself fails — a fee rate above the percentage
/// scale, or a fee product out of range — are excluded, and the lemma
/// proves that on the remaining inputs the removal does succeed.
pub proof fn lemma_add_remove_round_trip(s: LedgerView, user: u64, token: u64, amount: u128)
    requires
        amount > 0,
        add_liquidity_transition(s, user, token, amount) is Ok,
        amount * s.fee_rate <= u128::MAX,
        fee_of(amount as int, s.fee_rate as int) <= amount,
    ensures
        ({
            let s1 = add_liquidity_transition(s, user, token, amount)->Ok_0;
            let fee = fee_of(amount as int, s.fee_rate as int);
            &&& remove_liquidity_transition(s1, user, token, amount) is Ok
            &&& ({
                let s2 = remove_liquidity_transition(s1, user, token, amount)->Ok_0;
                &&& s2.contributions[(user, token)] == s.contributions[(user, token)]
                &&& s2.reserves[token] == s.reserves[token] + fee
                &&& s2.reserves[token] == s1.reserves[token] - net_of(
                    amount as int,
                    s.fee_rate as int,
                )
                &&& s2.total_contributions[token] == s.total_contributions[token] + fee
                &&& s2.fee_rate == s.fee_rate
            })
        }),
{
    let s1 = add_liquidity_transition(s, user, token, amount)->Ok_0;
    let fee = fee_of(amount as int, s.fee_rate as int);
    assert(fee >= 0) by (nonlinear_arith)
        requires
            amount >= 0,
            s.fee_rate >= 0,
            fee == amount * s.fee_rate / 100,
    ;
    assert(s1.contributions[(user, token)] == s.contributions[(user, token)] + amount);
    assert(s1.reserves[token] == s.reserves[token] + amount);
    assert(s1.total_contributions[token] == s.total_contributions[token] + amount);
}

/// Law: a successful swap pays out at least the caller's minimum and at
/// most the gross output, and leaves the outgoing reserve at exactly
/// the prior reserve minus the payout plus the pool's fee share — a
/// quantity that can never go negative.
pub proof fn lemma_swap_conservation(
    s: LedgerView,
    token_in: u64,
    amount_in: u128,
    token_out: u64,
    min_amount_out: u128,
    rate: u128,
)
    requires
        swap_transition(s, token_in, amount_in, token_out, min_amount_out, rate) is Ok,
    ensures
        ({
            let (s2, out) = swap_transition(
                s,
                token_in,
                amount_in,
                token_out,
                min_amount_out,
                rate,
            )->Ok_0;
            let pre = gross_output_of(amount_in as int, rate as int);
            let fee = fee_of(pre, s.fee_rate as int);
            &&& out >= min_amount_out
            &&& out <= pre
            &&& s2.reserves[token_out] == s.reserves[token_out] - out + liquidity_share_of(fee)
            &&& s.reserves[token_out] - out + liquidity_share_of(fee) >= 0
        }),
{
    let pre = gross_output_of(amount_in as int, rate as int);
    let fee = fee_of(pre, s.fee_rate as int);
    assert(pre >= 0) by (nonlinear_arith)
        requires
            amount_in >= 0,
            rate >= 0,
            pre == amount_in * rate / (RATE_SCALE as int),
    ;
    assert(fee >= 0) by (nonlinear_arith)
        requires
            pre >= 0,
            s.fee_rate >= 0,
            fee == pre * s.fee_rate / 100,
    ;
    assert(liquidity_share_of(fee) >= 0) by (nonlinear_arith)
        requires
            fee >= 0,
    ;
}

} // verus!
