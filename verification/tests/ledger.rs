//! Exercises the ledger end to end: construction, deposits, liquidity
//! round trips, swaps (the concrete success and failure scenarios), the
//! failure taxonomy, and the atomicity of rejected operations.

use swapx::errors::SwapError;
use swapx::ledger::SwapX;
use swapx::oracle::FixedRateOracle;
use swapx::state::RATE_SCALE;

fn one_to_one() -> FixedRateOracle {
    FixedRateOracle { rate: RATE_SCALE }
}

#[test]
fn default_works() {
    let swapx = SwapX::new(1, 1, FixedRateOracle { rate: 1 });
    assert_eq!(swapx.fee_percentage(), 1);
}

#[test]
fn new_ledger_is_empty() {
    let ledger = SwapX::new(2, 9, one_to_one());
    assert_eq!(ledger.fee_percentage(), 2);
    assert_eq!(ledger.protocol_fund(), 9);
    assert_eq!(ledger.reserve_of(1), 0);
    assert_eq!(ledger.contribution_of(7, 1), 0);
    assert_eq!(ledger.total_contribution_of(1), 0);
}

#[test]
fn deposit_increases_reserve_exactly() {
    let mut ledger = SwapX::new(1, 9, one_to_one());
    let event = ledger.deposit_token(7, 1, 500).unwrap();
    assert_eq!(event.user, 7);
    assert_eq!(event.token, 1);
    assert_eq!(event.amount, 500);
    assert_eq!(ledger.reserve_of(1), 500);
    // no other entry moves: not another token, not any contribution
    assert_eq!(ledger.reserve_of(2), 0);
    assert_eq!(ledger.contribution_of(7, 1), 0);
    assert_eq!(ledger.total_contribution_of(1), 0);
    let again = ledger.deposit_token(7, 1, 250).unwrap();
    assert_eq!(again.amount, 250);
    assert_eq!(ledger.reserve_of(1), 750);
}

#[test]
fn deposit_zero_amount_rejected() {
    let mut ledger = SwapX::new(1, 9, one_to_one());
    assert_eq!(ledger.deposit_token(7, 1, 0), Err(SwapError::InvalidAmount));
    assert_eq!(ledger.reserve_of(1), 0);
}

#[test]
fn deposit_overflow_leaves_state_untouched() {
    let mut ledger = SwapX::new(1, 9, one_to_one());
    ledger.deposit_token(7, 1, u128::MAX).unwrap();
    ledger.deposit_token(7, 2, 41).unwrap();
    assert_eq!(
        ledger.deposit_token(7, 1, 1),
        Err(SwapError::ArithmeticOverflow)
    );
    assert_eq!(ledger.reserve_of(1), u128::MAX);
    assert_eq!(ledger.reserve_of(2), 41);
}

#[test]
fn add_liquidity_raises_all_three_balances() {
    let mut ledger = SwapX::new(1, 9, one_to_one());
    let event = ledger.add_liquidity(7, 1, 1000).unwrap();
    assert_eq!(event.user, 7);
    assert_eq!(event.token, 1);
    assert_eq!(event.amount, 1000);
    assert_eq!(ledger.reserve_of(1), 1000);
    assert_eq!(ledger.contribution_of(7, 1), 1000);
    assert_eq!(ledger.total_contribution_of(1), 1000);
    // another account's stake in the same token is its own entry
    assert_eq!(ledger.contribution_of(8, 1), 0);
}

#[test]
fn add_liquidity_zero_amount_rejected() {
    let mut ledger = SwapX::new(1, 9, one_to_one());
    assert_eq!(ledger.add_liquidity(7, 1, 0), Err(SwapError::InvalidAmount));
}

#[test]
fn add_liquidity_overflow_leaves_state_untouched() {
    let mut ledger = SwapX::new(1, 9, one_to_one());
    ledger.deposit_token(7, 1, u128::MAX).unwrap();
    // the reserve add overflows even though the stake add would not
    assert_eq!(
        ledger.add_liquidity(7, 1, 1),
        Err(SwapError::ArithmeticOverflow)
    );
    assert_eq!(ledger.reserve_of(1), u128::MAX);
    assert_eq!(ledger.contribution_of(7, 1), 0);
    assert_eq!(ledger.total_contribution_of(1), 0);
}

#[test]
fn add_then_remove_returns_stake_and_keeps_fee() {
    let mut ledger = SwapX::new(1, 9, one_to_one());
    ledger.add_liquidity(7, 1, 1000).unwrap();
    let event = ledger.remove_liquidity(7, 1, 1000).unwrap();
    // fee = 1000 * 1 / 100 = 10; the notification carries the net payout
    assert_eq!(event.amount, 990);
    assert_eq!(ledger.contribution_of(7, 1), 0);
    assert_eq!(ledger.reserve_of(1), 10);
    assert_eq!(ledger.total_contribution_of(1), 10);
}

#[test]
fn remove_liquidity_fee_rounds_down() {
    let mut ledger = SwapX::new(3, 9, one_to_one());
    ledger.add_liquidity(7, 1, 999).unwrap();
    let event = ledger.remove_liquidity(7, 1, 999).unwrap();
    // fee = 999 * 3 / 100 = 29 (29.97 rounded down), net = 970
    assert_eq!(event.amount, 970);
    assert_eq!(ledger.reserve_of(1), 29);
    assert_eq!(ledger.contribution_of(7, 1), 0);
}

#[test]
fn remove_liquidity_zero_amount_rejected() {
    let mut ledger = SwapX::new(1, 9, one_to_one());
    ledger.add_liquidity(7, 1, 100).unwrap();
    assert_eq!(
        ledger.remove_liquidity(7, 1, 0),
        Err(SwapError::InvalidAmount)
    );
}

#[test]
fn remove_more_than_stake_rejected() {
    let mut ledger = SwapX::new(1, 9, one_to_one());
    ledger.add_liquidity(7, 1, 100).unwrap();
    assert_eq!(
        ledger.remove_liquidity(7, 1, 101),
        Err(SwapError::InsufficientLiquidity)
    );
    assert_eq!(ledger.contribution_of(7, 1), 100);
    assert_eq!(ledger.reserve_of(1), 100);
}

#[test]
fn remove_with_fee_rate_above_scale_rejected() {
    // a fee rate of 200 percent makes the fee exceed the amount, so the
    // net payout would go negative: the whole call fails cleanly
    let mut ledger = SwapX::new(200, 9, one_to_one());
    ledger.add_liquidity(7, 1, 100).unwrap();
    assert_eq!(
        ledger.remove_liquidity(7, 1, 100),
        Err(SwapError::ArithmeticOverflow)
    );
    assert_eq!(ledger.contribution_of(7, 1), 100);
    assert_eq!(ledger.reserve_of(1), 100);
    assert_eq!(ledger.total_contribution_of(1), 100);
}

#[test]
fn remove_starved_reserve_rejected() {
    // a reserve drained below the net payout fails the removal even
    // though the caller's stake covers the gross amount
    let mut ledger = SwapX::new(0, 9, one_to_one());
    ledger.add_liquidity(7, 1, 1000).unwrap();
    ledger.deposit_token(7, 2, 1000).unwrap();
    // swap away most of token 1's reserve
    ledger.swap_tokens(8, 2, 900, 1, 0).unwrap();
    assert_eq!(ledger.reserve_of(1), 100);
    assert_eq!(
        ledger.remove_liquidity(7, 1, 1000),
        Err(SwapError::InsufficientLiquidity)
    );
    assert_eq!(ledger.contribution_of(7, 1), 1000);
}

#[test]
fn swap_concrete_scenario_succeeds() {
    let mut ledger = SwapX::new(1, 9, one_to_one());
    ledger.deposit_token(7, 1, 1_000_000).unwrap();
    ledger.deposit_token(7, 2, 1_000_000).unwrap();
    let event = ledger.swap_tokens(7, 1, 1000, 2, 985).unwrap();
    // gross output 1000, fee 10, protocol half 5, pool half 5, net 990
    assert_eq!(event.user, 7);
    assert_eq!(event.token_in, 1);
    assert_eq!(event.amount_in, 1000);
    assert_eq!(event.token_out, 2);
    assert_eq!(event.amount_out, 990);
    assert_eq!(ledger.reserve_of(1), 1_001_000);
    assert_eq!(ledger.reserve_of(2), 999_015);
}

#[test]
fn swap_slippage_exceeded_leaves_state_unchanged() {
    let mut ledger = SwapX::new(1, 9, one_to_one());
    ledger.deposit_token(7, 1, 1_000_000).unwrap();
    ledger.deposit_token(7, 2, 1_000_000).unwrap();
    assert_eq!(
        ledger.swap_tokens(7, 1, 1000, 2, 995),
        Err(SwapError::SlippageExceeded)
    );
    assert_eq!(ledger.reserve_of(1), 1_000_000);
    assert_eq!(ledger.reserve_of(2), 1_000_000);
}

#[test]
fn swap_zero_amount_rejected() {
    let mut ledger = SwapX::new(1, 9, one_to_one());
    ledger.deposit_token(7, 1, 100).unwrap();
    ledger.deposit_token(7, 2, 100).unwrap();
    assert_eq!(
        ledger.swap_tokens(7, 1, 0, 2, 0),
        Err(SwapError::InvalidAmount)
    );
}

#[test]
fn swap_needs_incoming_reserve_to_cover_input() {
    let mut ledger = SwapX::new(1, 9, one_to_one());
    ledger.deposit_token(7, 1, 50).unwrap();
    ledger.deposit_token(7, 2, 100).unwrap();
    assert_eq!(
        ledger.swap_tokens(7, 1, 51, 2, 0),
        Err(SwapError::InsufficientLiquidity)
    );
}

#[test]
fn swap_needs_outgoing_reserve() {
    let mut ledger = SwapX::new(1, 9, one_to_one());
    ledger.deposit_token(7, 1, 100).unwrap();
    assert_eq!(
        ledger.swap_tokens(7, 1, 10, 2, 0),
        Err(SwapError::InsufficientLiquidity)
    );
}

#[test]
fn swap_output_above_outgoing_reserve_rejected() {
    let mut ledger = SwapX::new(1, 9, one_to_one());
    ledger.deposit_token(7, 1, 10_000).unwrap();
    ledger.deposit_token(7, 2, 500).unwrap();
    // net output would be 990, more than the 500 held
    assert_eq!(
        ledger.swap_tokens(7, 1, 1000, 2, 0),
        Err(SwapError::InsufficientLiquidity)
    );
    assert_eq!(ledger.reserve_of(1), 10_000);
    assert_eq!(ledger.reserve_of(2), 500);
}

#[test]
fn swap_zero_rate_means_oracle_unavailable() {
    let mut ledger = SwapX::new(1, 9, FixedRateOracle { rate: 0 });
    ledger.deposit_token(7, 1, 100).unwrap();
    ledger.deposit_token(7, 2, 100).unwrap();
    assert_eq!(
        ledger.swap_tokens(7, 1, 10, 2, 0),
        Err(SwapError::OracleUnavailable)
    );
    assert_eq!(ledger.reserve_of(1), 100);
    assert_eq!(ledger.reserve_of(2), 100);
}

#[test]
fn swap_rate_product_overflow_rejected() {
    let mut ledger = SwapX::new(1, 9, FixedRateOracle { rate: u128::MAX });
    ledger.deposit_token(7, 1, 100).unwrap();
    ledger.deposit_token(7, 2, 100).unwrap();
    assert_eq!(
        ledger.swap_tokens(7, 1, 2, 2, 0),
        Err(SwapError::ArithmeticOverflow)
    );
    assert_eq!(ledger.reserve_of(1), 100);
    assert_eq!(ledger.reserve_of(2), 100);
}

#[test]
fn swap_fee_rate_above_scale_rejected() {
    // at 200 percent the fee exceeds the gross output
    let mut ledger = SwapX::new(200, 9, one_to_one());
    ledger.deposit_token(7, 1, 10_000).unwrap();
    ledger.deposit_token(7, 2, 10_000).unwrap();
    assert_eq!(
        ledger.swap_tokens(7, 1, 1000, 2, 0),
        Err(SwapError::ArithmeticOverflow)
    );
    assert_eq!(ledger.reserve_of(1), 10_000);
    assert_eq!(ledger.reserve_of(2), 10_000);
}

#[test]
fn swap_with_zero_fee_conserves_value() {
    let mut ledger = SwapX::new(0, 9, one_to_one());
    ledger.deposit_token(7, 1, 1_000).unwrap();
    ledger.deposit_token(7, 2, 1_000).unwrap();
    let event = ledger.swap_tokens(7, 1, 100, 2, 100).unwrap();
    assert_eq!(event.amount_out, 100);
    assert_eq!(ledger.reserve_of(1), 1_100);
    assert_eq!(ledger.reserve_of(2), 900);
}

#[test]
fn swap_between_same_token_keeps_outgoing_update() {
    // with an equal pair the outgoing reserve write is the one that
    // stands, as the ledger's sequential writes leave it
    let mut ledger = SwapX::new(0, 9, one_to_one());
    ledger.deposit_token(7, 1, 1_000).unwrap();
    let event = ledger.swap_tokens(7, 1, 100, 1, 0).unwrap();
    assert_eq!(event.amount_out, 100);
    assert_eq!(ledger.reserve_of(1), 900);
}

#[test]
fn rate_query_is_repeatable_and_read_only() {
    let mut ledger = SwapX::new(1, 9, FixedRateOracle { rate: 42 });
    ledger.deposit_token(7, 1, 100).unwrap();
    let first = ledger.get_swap_rate(1, 2);
    let second = ledger.get_swap_rate(1, 2);
    assert_eq!(first, 42);
    assert_eq!(first, second);
    assert_eq!(ledger.reserve_of(1), 100);
}

#[test]
fn set_fee_percentage_overwrites_unconditionally() {
    let mut ledger = SwapX::new(1, 9, one_to_one());
    ledger.set_fee_percentage(5);
    assert_eq!(ledger.fee_percentage(), 5);
    // even a rate beyond the percentage scale is stored as given
    ledger.set_fee_percentage(1_000);
    assert_eq!(ledger.fee_percentage(), 1_000);
}

#[test]
fn set_fee_percentage_changes_later_pricing() {
    let mut ledger = SwapX::new(1, 9, one_to_one());
    ledger.deposit_token(7, 1, 1_000_000).unwrap();
    ledger.deposit_token(7, 2, 1_000_000).unwrap();
    ledger.set_fee_percentage(10);
    let event = ledger.swap_tokens(7, 1, 1000, 2, 0).unwrap();
    // fee is now 100, so the payout drops to 900
    assert_eq!(event.amount_out, 900);
}
