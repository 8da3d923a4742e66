//! Reserve-level math: exchange rates, conversions, utilization, the rate
//! curve and interest accrual.

use lendborrow::errors::LendingError;
use lendborrow::keys::Pubkey;
use lendborrow::reserve::Reserve;
use lendborrow::reserve_config::{ReserveConfig, ReserveFees};
use lendborrow::WAD;

fn key(tag: u8) -> Pubkey {
    Pubkey { bytes: [tag; 32] }
}

fn config() -> ReserveConfig {
    ReserveConfig {
        optimal_utilization_rate: 80,
        loan_to_value_ratio: 50,
        liquidation_bonus: 5,
        liquidation_threshold: 55,
        min_borrow_rate: 0,
        optimal_borrow_rate: 4,
        max_borrow_rate: 30,
        fees: ReserveFees { borrow_fee_wad: 0, flash_loan_fee_wad: 0, host_fee_percentage: 0 },
        pyth_price_feed_id: [7u8; 32],
    }
}

fn reserve(available: u64, borrowed_wads: u128, collateral_supply: u64) -> Reserve {
    Reserve {
        version: 1,
        last_update_slot: 100,
        lending_market: key(1),
        liquidity_mint: key(2),
        liquidity_mint_decimals: 0,
        liquidity_supply: key(3),
        liquidity_fee_receiver: key(4),
        liquidity_oracle: key(5),
        liquidity_available_amount: available,
        liquidity_borrowed_amount_wads: borrowed_wads,
        liquidity_cumulative_borrow_rate_wads: WAD,
        liquidity_market_price: 1_000_000,
        collateral_mint: key(6),
        collateral_supply: key(7),
        collateral_mint_total_supply: collateral_supply,
        config: config(),
    }
}

#[test]
fn exchange_rate_is_initial_with_no_receipts() {
    let r = reserve(1_000_000, 0, 0);
    assert_eq!(r.collateral_exchange_rate(), Ok(WAD));
}

#[test]
fn exchange_rate_tracks_total_liquidity() {
    // 1_500 liquidity against 1_000 receipts: 1.5 WAD.
    let r = reserve(500, 1_000 * WAD, 1_000);
    assert_eq!(r.collateral_exchange_rate(), Ok(WAD / 2 * 3));
}

#[test]
fn conversions_round_trip_at_par() {
    let r = reserve(1_000, 0, 1_000);
    assert_eq!(r.collateral_exchange_rate(), Ok(WAD));
    let receipts = r.liquidity_to_collateral(123).unwrap();
    assert_eq!(receipts, 123);
    assert_eq!(r.collateral_to_liquidity(receipts), Ok(123));
}

#[test]
fn round_trip_loses_at_most_one_unit_below_par() {
    // 999 liquidity against 1_000 receipts: rate below 1.0 WAD.
    let r = reserve(999, 0, 1_000);
    for x in [1u64, 2, 3, 999, 1_000, 12_345] {
        let receipts = r.liquidity_to_collateral(x).unwrap();
        let back = r.collateral_to_liquidity(receipts).unwrap();
        assert!(back <= x);
        assert!(x - back <= 1, "lost more than one unit: {} -> {}", x, back);
    }
}

#[test]
fn deposit_mints_at_par() {
    // Scenario: fresh reserve, zero borrows, zero receipts: first deposit
    // of 500_000 mints one receipt per token.
    let mut r = reserve(1_000_000, 0, 0);
    let minted = r.deposit_liquidity(500_000).unwrap();
    assert_eq!(minted, 500_000);
    assert_eq!(r.liquidity_available_amount, 1_500_000);
    assert_eq!(r.collateral_mint_total_supply, 500_000);
}

#[test]
fn deposit_rejects_zero() {
    let mut r = reserve(1_000, 0, 0);
    assert_eq!(r.deposit_liquidity(0), Err(LendingError::InvalidAmount));
    assert_eq!(r.liquidity_available_amount, 1_000);
}

#[test]
fn utilization_is_borrowed_share() {
    // 250 borrowed of 1_000 total: 25%.
    let r = reserve(750, 250 * WAD, 0);
    assert_eq!(r.calculate_utilization_rate(), Ok(25 * WAD));
    let empty = reserve(0, 0, 0);
    assert_eq!(empty.calculate_utilization_rate(), Ok(0));
}

#[test]
fn borrow_rate_interpolates_below_optimal() {
    // At half the optimal utilization the rate is halfway from the
    // minimum to the optimal rate: 2% as a WAD fraction.
    let r = reserve(0, 0, 0);
    let rate = r.calculate_borrow_rate(40 * WAD).unwrap();
    assert_eq!(rate, 2 * (WAD / 100));
}

#[test]
fn borrow_rate_interpolates_above_optimal() {
    // At 90% utilization, halfway through the upper segment: 4% + 13% = 17%.
    let r = reserve(0, 0, 0);
    let rate = r.calculate_borrow_rate(90 * WAD).unwrap();
    assert_eq!(rate, 17 * (WAD / 100));
}

#[test]
fn accrue_interest_same_slot_is_a_no_op() {
    let mut r = reserve(750, 250 * WAD, 1_000);
    let before = r;
    assert_eq!(r.accrue_interest(100), Ok(()));
    assert_eq!(r, before);
}

#[test]
fn accrue_interest_without_borrows_is_a_no_op() {
    let mut r = reserve(1_000_000, 0, 1_000);
    let before = r;
    assert_eq!(r.accrue_interest(10_100), Ok(()));
    assert_eq!(r, before);
}

#[test]
fn accrue_interest_grows_debt_and_rate() {
    let mut r = reserve(0, 100 * WAD, 100);
    let rate_before = r.collateral_exchange_rate().unwrap();
    // 100% utilization: the borrow rate is max_borrow_rate (30%).
    assert_eq!(r.accrue_interest(100 + 63_072).unwrap(), ());
    // factor = 1 + 0.30 * 63_072 / 63_072_000 = 1.0003
    assert_eq!(r.liquidity_cumulative_borrow_rate_wads, WAD + 3 * WAD / 10_000);
    assert_eq!(r.liquidity_borrowed_amount_wads, 100 * WAD + 3 * WAD / 100);
    // The fractional interest floors to zero whole tokens.
    assert_eq!(r.liquidity_available_amount, 0);
    let rate_after = r.collateral_exchange_rate().unwrap();
    assert!(rate_after >= rate_before);
}

#[test]
fn accrue_interest_rejects_clock_rollback() {
    let mut r = reserve(0, WAD, 0);
    assert_eq!(r.accrue_interest(99), Err(LendingError::MathOverflow));
}

#[test]
fn borrow_moves_liquidity_into_debt() {
    let mut r = reserve(1_000, 0, 0);
    let (receive, fee, host_fee) = r.borrow(400).unwrap();
    assert_eq!((receive, fee, host_fee), (400, 0, 0));
    assert_eq!(r.liquidity_available_amount, 600);
    assert_eq!(r.liquidity_borrowed_amount_wads, 400 * WAD);
}

#[test]
fn borrow_rejects_insufficient_liquidity() {
    let mut r = reserve(100, 0, 0);
    assert_eq!(r.borrow(200), Err(LendingError::InsufficientLiquidity));
    assert_eq!(r.liquidity_available_amount, 100);
}

#[test]
fn borrow_fee_splits_between_host_and_owner() {
    let mut r = reserve(10_000, 0, 0);
    // 1% borrow fee, host takes 20% of it.
    r.config.fees.borrow_fee_wad = WAD as u64 / 100;
    r.config.fees.host_fee_percentage = 20;
    let (fee, host_fee) = r.calculate_borrow_fee(5_000).unwrap();
    assert_eq!(fee, 50);
    assert_eq!(host_fee, 10);
}

#[test]
fn repay_settles_at_most_the_debt() {
    // An offer beyond the debt settles the debt and credits only the
    // settled amount; the surplus is never transferred.
    let mut r = reserve(0, 300 * WAD, 0);
    let settled = r.repay(500).unwrap();
    assert_eq!(settled, 300);
    assert_eq!(r.liquidity_borrowed_amount_wads, 0);
    assert_eq!(r.liquidity_available_amount, 300);
}

#[test]
fn repay_credits_the_settled_tokens() {
    let mut r = reserve(10, 250 * WAD, 0);
    let settled = r.repay(100).unwrap();
    assert_eq!(settled, 100);
    assert_eq!(r.liquidity_borrowed_amount_wads, 150 * WAD);
    assert_eq!(r.liquidity_available_amount, 110);
}

#[test]
fn repay_rejects_when_nothing_is_owed() {
    let mut r = reserve(0, 0, 0);
    assert_eq!(r.repay(500), Err(LendingError::RepayTooSmall));
}

#[test]
fn redeem_collateral_values_receipts() {
    // 1_500 liquidity against 1_000 receipts: each receipt redeems 1.5.
    let r = reserve(1_500, 0, 1_000);
    assert_eq!(r.redeem_collateral(100), Ok(150));
    assert_eq!(r.redeem_collateral(0), Err(LendingError::InvalidAmount));
    assert_eq!(r.redeem_collateral(2_000), Err(LendingError::InvalidAmount));
}

#[test]
fn is_stale_after_window() {
    let r = reserve(0, 0, 0);
    assert_eq!(r.is_stale(100), Ok(false));
    assert_eq!(r.is_stale(220), Ok(false));
    assert_eq!(r.is_stale(221), Ok(true));
    assert_eq!(r.is_stale(99), Err(LendingError::MathOverflow));
}

#[test]
fn mark_stale_pushes_update_slot_back() {
    let mut r = reserve(0, 0, 0);
    r.last_update_slot = 500;
    r.mark_stale();
    assert_eq!(r.last_update_slot, 379);
    let mut early = reserve(0, 0, 0);
    early.last_update_slot = 50;
    early.mark_stale();
    assert_eq!(early.last_update_slot, 0);
}

#[test]
fn config_validation_enforces_bounds() {
    assert_eq!(config().validate(), Ok(()));
    let mut bad = config();
    bad.loan_to_value_ratio = 60;
    bad.liquidation_threshold = 55;
    assert_eq!(bad.validate(), Err(LendingError::InvalidReserveConfig));
    let mut bad_rates = config();
    bad_rates.min_borrow_rate = 10;
    bad_rates.optimal_borrow_rate = 5;
    assert_eq!(bad_rates.validate(), Err(LendingError::InvalidReserveConfig));
    let mut zero_feed = config();
    zero_feed.pyth_price_feed_id = [0u8; 32];
    assert_eq!(zero_feed.validate(), Err(LendingError::InvalidOracleConfig));
}
