//! Whole-operation flows: refresh, deposit, borrow, repay, withdraw and
//! liquidation, plus oracle and quote-currency validation.

use lendborrow::calculators::{
    calculate_borrow, calculate_liquidation, calculate_repay, CalculateRepayResult,
};
use lendborrow::errors::LendingError;
use lendborrow::keys::Pubkey;
use lendborrow::lending_market::LendingMarket;
use lendborrow::obligation::{Obligation, ObligationCollateral, ObligationLiquidity};
use lendborrow::operations::{
    borrow_obligation_liquidity, deposit_obligation_collateral, deposit_reserve_liquidity,
    init_lending_market, init_obligation, init_reserve, liquidate_obligation,
    redeem_reserve_collateral, refresh_reserve, repay_obligation_liquidity,
    set_lending_market_owner, withdraw_obligation_collateral,
};
use lendborrow::oracle::{validate_pyth_price, validate_quote_currency_compatibility};
use lendborrow::refresh::{
    refresh_all_borrows, refresh_all_collaterals, refresh_collateral, refresh_liquidity,
    refresh_obligation, refresh_obligation_complete, refresh_obligation_internal,
    verify_reserve_freshness, KeyedReserve,
};
use lendborrow::reserve::Reserve;
use lendborrow::reserve_config::{ReserveConfig, ReserveFees};
use lendborrow::WAD;

fn key(tag: u8) -> Pubkey {
    Pubkey { bytes: [tag; 32] }
}

fn config() -> ReserveConfig {
    ReserveConfig {
        optimal_utilization_rate: 80,
        loan_to_value_ratio: 50,
        liquidation_bonus: 5,
        liquidation_threshold: 55,
        min_borrow_rate: 0,
        optimal_borrow_rate: 4,
        max_borrow_rate: 30,
        fees: ReserveFees { borrow_fee_wad: 0, flash_loan_fee_wad: 0, host_fee_percentage: 0 },
        pyth_price_feed_id: [7u8; 32],
    }
}

/// A reserve priced at one quote unit per token (decimals 0, price 1),
/// refreshed at `slot`.
fn unit_reserve(tag: u8, available: u64, slot: u64) -> Reserve {
    Reserve {
        version: 1,
        last_update_slot: slot,
        lending_market: key(1),
        liquidity_mint: key(tag),
        liquidity_mint_decimals: 0,
        liquidity_supply: key(tag),
        liquidity_fee_receiver: key(tag),
        liquidity_oracle: key(tag),
        liquidity_available_amount: available,
        liquidity_borrowed_amount_wads: 0,
        liquidity_cumulative_borrow_rate_wads: WAD,
        liquidity_market_price: 1,
        collateral_mint: key(tag),
        collateral_supply: key(tag),
        collateral_mint_total_supply: 0,
        config: config(),
    }
}

fn fresh_obligation(slot: u64) -> Obligation {
    init_obligation(key(1), key(2), slot)
}

#[test]
fn market_init_validates_quote_currency() {
    let mut quote = [0u8; 32];
    quote[0] = b'U';
    quote[1] = b'S';
    quote[2] = b'D';
    let market = init_lending_market(key(2), key(3), 254, 255, quote, key(4)).unwrap();
    assert_eq!(market.owner, key(2));
    assert_eq!(market.version, 1);
    assert_eq!(
        init_lending_market(key(2), key(3), 254, 255, [0u8; 32], key(4)).unwrap_err(),
        LendingError::InvalidQuoteCurrency
    );
    // A space is valid UTF-8 but not alphanumeric.
    let mut spaced = quote;
    spaced[3] = b' ';
    assert_eq!(
        init_lending_market(key(2), key(3), 254, 255, spaced, key(4)).unwrap_err(),
        LendingError::InvalidQuoteCurrency
    );
}

#[test]
fn quote_currency_accepts_opaque_ids() {
    // 0xFF bytes are not UTF-8; 32 non-zero bytes pass the opaque rule.
    assert!(LendingMarket::validate_quote_currency(&[0xFFu8; 32]));
    // Only 16 non-zero bytes: rejected.
    let mut sparse = [0u8; 32];
    for i in 0..16 {
        sparse[i] = 0xFF;
    }
    assert!(!LendingMarket::validate_quote_currency(&sparse));
    // Valid non-ASCII UTF-8 is not an ASCII identifier.
    let mut accented = [0u8; 32];
    accented[0] = 0xC3;
    accented[1] = 0xA9;
    assert!(!LendingMarket::validate_quote_currency(&accented));
}

#[test]
fn owner_change_rejects_same_and_zero() {
    let quote = {
        let mut q = [0u8; 32];
        q[0] = b'U';
        q
    };
    let mut market = init_lending_market(key(2), key(3), 254, 255, quote, key(4)).unwrap();
    assert_eq!(
        set_lending_market_owner(&mut market, key(2)),
        Err(LendingError::SameOwner)
    );
    assert_eq!(
        set_lending_market_owner(&mut market, key(0)),
        Err(LendingError::InvalidNewOwner)
    );
    assert_eq!(set_lending_market_owner(&mut market, key(9)), Ok(()));
    assert_eq!(market.owner, key(9));
}

#[test]
fn reserve_init_seeds_the_pool() {
    let r = init_reserve(
        1_000,
        config(),
        1_000_000,
        42,
        key(1),
        key(2),
        6,
        key(3),
        key(4),
        key(5),
        key(6),
        key(7),
    )
    .unwrap();
    assert_eq!(r.liquidity_available_amount, 1_000);
    assert_eq!(r.collateral_mint_total_supply, 1_000);
    assert_eq!(r.liquidity_cumulative_borrow_rate_wads, WAD);
    assert_eq!(r.last_update_slot, 42);
    assert_eq!(
        init_reserve(
            0,
            config(),
            1,
            42,
            key(1),
            key(2),
            6,
            key(3),
            key(4),
            key(5),
            key(6),
            key(7)
        ),
        Err(LendingError::InvalidLiquidityAmount)
    );
}

#[test]
fn oracle_price_normalizes_exponent() {
    // price 12_345 at exponent -2 is 123.45: normalized to 123_450_000
    // in the 10^6 base.
    assert_eq!(validate_pyth_price(12_345, 0, -2), Ok(123_450_000));
    assert_eq!(validate_pyth_price(0, 0, 0), Err(LendingError::OraclePriceInvalid));
    assert_eq!(validate_pyth_price(-5, 0, 0), Err(LendingError::OraclePriceInvalid));
    // Confidence of 5% of the price or more is too wide.
    assert_eq!(
        validate_pyth_price(100, 5, 0),
        Err(LendingError::OraclePriceConfidenceTooWide)
    );
    assert_eq!(validate_pyth_price(100, 4, 0), Ok(100_000_000));
}

#[test]
fn quote_compatibility_requires_nonzero_quote() {
    let quote = {
        let mut q = [0u8; 32];
        q[0] = b'U';
        q
    };
    let market = init_lending_market(key(2), key(3), 254, 255, quote, key(4)).unwrap();
    assert_eq!(validate_quote_currency_compatibility(&market, &[7u8; 32]), Ok(()));
    let mut zeroed = market;
    zeroed.quote_currency = [0u8; 32];
    assert_eq!(
        validate_quote_currency_compatibility(&zeroed, &[7u8; 32]),
        Err(LendingError::InvalidOracleConfig)
    );
}

#[test]
fn refresh_reserve_prices_and_accrues() {
    let mut r = unit_reserve(10, 0, 100);
    r.liquidity_borrowed_amount_wads = 100 * WAD;
    refresh_reserve(&mut r, 2, 100 + 63_072).unwrap();
    assert_eq!(r.liquidity_market_price, 2);
    assert_eq!(r.last_update_slot, 100 + 63_072);
    assert_eq!(r.liquidity_cumulative_borrow_rate_wads, WAD + 3 * WAD / 10_000);
    // Same slot: untouched, even with a different price offered.
    let before = r;
    refresh_reserve(&mut r, 9, 100 + 63_072).unwrap();
    assert_eq!(r, before);
}

#[test]
fn deposit_and_redeem_round_trip() {
    // Receipts already track the pool one-for-one.
    let mut r = unit_reserve(10, 1_000_000, 100);
    r.collateral_mint_total_supply = 1_000_000;
    let minted = deposit_reserve_liquidity(&mut r, 500_000, 150).unwrap();
    assert_eq!(minted, 500_000);
    assert_eq!(r.last_update_slot, 150);
    let returned = redeem_reserve_collateral(&mut r, 200_000, 160).unwrap();
    assert_eq!(returned, 200_000);
    assert_eq!(r.collateral_mint_total_supply, 1_300_000);
    assert_eq!(r.liquidity_available_amount, 1_300_000);
    // A stale reserve refuses deposits.
    let mut stale = unit_reserve(11, 1_000, 100);
    assert_eq!(
        deposit_reserve_liquidity(&mut stale, 10, 500),
        Err(LendingError::ReserveStale)
    );
}

/// Builds an obligation holding 1_000 collateral of reserve 10, refreshed
/// at `slot` so that its aggregates are current.
fn funded_obligation(slot: u64) -> (Obligation, Reserve) {
    let reserve = unit_reserve(10, 1_000_000, slot);
    let mut ob = fresh_obligation(slot);
    deposit_obligation_collateral(&mut ob, &reserve, key(10), 1_000, slot).unwrap();
    refresh_obligation_complete(&mut ob, &vec![reserve], &Vec::new(), slot).unwrap();
    (ob, reserve)
}

#[test]
fn collateral_deposit_values_and_limits() {
    // Scenario: collateral worth 1_000 quote units under a 50% loan-to-value
    // ratio and a 55% liquidation threshold.
    let (ob, _reserve) = funded_obligation(100);
    assert_eq!(ob.deposited_value, 1_000);
    assert_eq!(ob.allowed_borrow_value, 500);
    assert_eq!(ob.unhealthy_borrow_value, 550);
    assert_eq!(ob.deposits[0].market_value, 1_000);
}

#[test]
fn collateral_deposit_rejects_disabled_reserve() {
    let mut reserve = unit_reserve(10, 1_000, 100);
    reserve.config.loan_to_value_ratio = 0;
    let mut ob = fresh_obligation(100);
    assert_eq!(
        deposit_obligation_collateral(&mut ob, &reserve, key(10), 10, 100),
        Err(LendingError::ReserveCollateralDisabled)
    );
}

#[test]
fn borrow_respects_capacity() {
    // Borrowing up to the 500 quote-unit capacity succeeds; 501 exceeds it.
    let (ob, reserve) = funded_obligation(100);
    // One account per record: the collateral reserve and the borrow
    // reserve are the same reserve here.
    let accounts = vec![
        KeyedReserve { key: key(10), reserve },
        KeyedReserve { key: key(10), reserve },
    ];
    {
        let mut ob = ob.clone();
        let mut br = reserve;
        let result =
            borrow_obligation_liquidity(&mut ob, &mut br, key(10), &accounts, 500, 100).unwrap();
        assert_eq!(result.receive_amount, 500);
        assert_eq!(br.liquidity_borrowed_amount_wads, 500 * WAD);
        assert_eq!(br.liquidity_available_amount, 1_000_000 - 500);
        assert_eq!(ob.borrows[0].borrowed_amount_wads, 500 * WAD);
        assert_eq!(ob.borrowed_value, 500);
    }
    {
        let mut ob = ob.clone();
        let mut br = reserve;
        assert_eq!(
            borrow_obligation_liquidity(&mut ob, &mut br, key(10), &accounts, 501, 100),
            Err(LendingError::BorrowTooLarge)
        );
        assert_eq!(br, reserve);
    }
}

#[test]
fn borrow_requires_fresh_obligation() {
    let (mut ob, mut reserve) = funded_obligation(100);
    let accounts = vec![KeyedReserve { key: key(10), reserve }];
    assert_eq!(
        borrow_obligation_liquidity(&mut ob, &mut reserve, key(10), &accounts, 10, 101),
        Err(LendingError::ObligationStale)
    );
}

/// An obligation with 1_000 collateral and a 400-token borrow, fully
/// refreshed at `slot`.
fn borrowed_position(slot: u64) -> (Obligation, Reserve) {
    let (mut ob, mut reserve) = funded_obligation(slot);
    let accounts = vec![
        KeyedReserve { key: key(10), reserve },
        KeyedReserve { key: key(10), reserve },
    ];
    borrow_obligation_liquidity(&mut ob, &mut reserve, key(10), &accounts, 400, slot).unwrap();
    // The borrow marks the reserve stale; bring it back for later steps.
    reserve.last_update_slot = slot;
    (ob, reserve)
}

#[test]
fn repay_flow_settles_debt() {
    let (mut ob, mut reserve) = borrowed_position(100);
    let (repaid, settled) =
        repay_obligation_liquidity(&mut ob, &mut reserve, key(10), 150, 1_000, 100).unwrap();
    assert_eq!(repaid, 150);
    assert_eq!(settled, 150 * WAD);
    assert_eq!(ob.borrows[0].borrowed_amount_wads, 250 * WAD);
    assert_eq!(reserve.liquidity_borrowed_amount_wads, 250 * WAD);
}

#[test]
fn repay_sentinel_closes_the_position() {
    // Scenario: the whole-debt sentinel settles every WAD and removes the
    // record.
    let (mut ob, mut reserve) = borrowed_position(100);
    let (repaid, settled) =
        repay_obligation_liquidity(&mut ob, &mut reserve, key(10), u64::MAX, 1_000, 100).unwrap();
    assert_eq!(repaid, 400);
    assert_eq!(settled, 400 * WAD);
    assert_eq!(ob.borrows.len(), 0);
    assert_eq!(reserve.liquidity_borrowed_amount_wads, 0);
}

#[test]
fn repay_calculator_ceils_full_repayment() {
    // Scenario: a debt of 1_000 WAD plus one fractional unit needs 1_001
    // tokens to close.
    let reserve = unit_reserve(10, 0, 100);
    let result = calculate_repay(&reserve, u64::MAX, 1_000 * WAD + 1).unwrap();
    assert_eq!(
        result,
        CalculateRepayResult {
            settle_amount_wads: 1_000 * WAD + 1,
            repay_amount: 1_001,
        }
    );
    // A partial offer settles exactly the offer.
    let partial = calculate_repay(&reserve, 400, 1_000 * WAD + 1).unwrap();
    assert_eq!(partial.repay_amount, 400);
    assert_eq!(partial.settle_amount_wads, 400 * WAD);
}

#[test]
fn withdraw_flow_respects_margin() {
    let (mut ob, reserve) = borrowed_position(100);
    // borrowed 400 of 500 allowed: required deposit = 400*1000/500 = 800,
    // so only 200 of value (and tokens at par) may leave.
    let amount = withdraw_obligation_collateral(&mut ob, &reserve, key(10), 200, 100).unwrap();
    assert_eq!(amount, 200);
    assert_eq!(ob.deposits[0].deposited_amount, 800);
    let mut over = ob.clone();
    assert_eq!(
        withdraw_obligation_collateral(&mut over, &reserve, key(10), 300, 100),
        Err(LendingError::WithdrawTooLarge)
    );
}

#[test]
fn withdraw_sentinel_without_borrows_takes_all() {
    let (mut ob, reserve) = funded_obligation(100);
    let amount =
        withdraw_obligation_collateral(&mut ob, &reserve, key(10), u64::MAX, 100).unwrap();
    assert_eq!(amount, 1_000);
    assert_eq!(ob.deposits.len(), 0);
}

#[test]
fn liquidation_calculator_applies_bonus() {
    // Repaying 100 at price 1 with a 5% bonus seizes 105 collateral.
    let repay_reserve = unit_reserve(10, 0, 100);
    let withdraw_reserve = unit_reserve(11, 0, 100);
    let liq = ObligationLiquidity {
        borrow_reserve: key(10),
        cumulative_borrow_rate_wads: WAD,
        borrowed_amount_wads: 400 * WAD,
        market_value: 400,
    };
    let col = ObligationCollateral {
        deposit_reserve: key(11),
        deposited_amount: 1_000,
        market_value: 1_000,
    };
    let ob = fresh_obligation(100);
    let result =
        calculate_liquidation(&repay_reserve, &withdraw_reserve, 100, &liq, &col, &ob).unwrap();
    assert_eq!(result.repay_amount, 100);
    assert_eq!(result.settle_amount_wads, 100 * WAD);
    assert_eq!(result.withdraw_collateral, 105);
    // A zero withdraw-reserve price is an oracle fault.
    let mut unpriced = withdraw_reserve;
    unpriced.liquidity_market_price = 0;
    assert_eq!(
        calculate_liquidation(&repay_reserve, &unpriced, 100, &liq, &col, &ob),
        Err(LendingError::InvalidOracleConfig)
    );
}

#[test]
fn liquidation_flow_requires_unhealthy() {
    let (mut ob, mut reserve) = borrowed_position(100);
    let withdraw_reserve = reserve;
    assert_eq!(
        liquidate_obligation(&mut ob, &mut reserve, &withdraw_reserve, key(10), key(10), 100, 100),
        Err(LendingError::ObligationHealthy)
    );
    // Push the position past its threshold and liquidate.
    ob.borrowed_value = 560;
    ob.unhealthy_borrow_value = 550;
    ob.borrows[0].borrowed_amount_wads = 560 * WAD;
    ob.borrows[0].market_value = 560;
    let result = liquidate_obligation(
        &mut ob,
        &mut reserve,
        &withdraw_reserve,
        key(10),
        key(10),
        100,
        100,
    )
    .unwrap();
    assert_eq!(result.repay_amount, 100);
    assert_eq!(result.withdraw_collateral, 105);
    assert_eq!(ob.borrows[0].borrowed_amount_wads, 460 * WAD);
}

#[test]
fn refresh_keeps_aggregates_equal_to_record_sums() {
    // Two collateral records and one borrow record, all priced at par.
    let slot = 100u64;
    let r1 = unit_reserve(10, 1_000_000, slot);
    let r2 = unit_reserve(11, 1_000_000, slot);
    let mut ob = fresh_obligation(slot);
    deposit_obligation_collateral(&mut ob, &r1, key(10), 1_000, slot).unwrap();
    deposit_obligation_collateral(&mut ob, &r2, key(11), 250, slot).unwrap();
    ob.borrows.push(ObligationLiquidity {
        borrow_reserve: key(11),
        cumulative_borrow_rate_wads: WAD,
        borrowed_amount_wads: 40 * WAD,
        market_value: 0,
    });
    refresh_obligation_complete(&mut ob, &vec![r1, r2], &vec![r2], slot).unwrap();
    let deposit_sum: u128 = ob.deposits.iter().map(|c| c.market_value).sum();
    let borrow_sum: u128 = ob.borrows.iter().map(|l| l.market_value).sum();
    assert_eq!(ob.deposited_value, deposit_sum);
    assert_eq!(ob.borrowed_value, borrow_sum);
    assert_eq!(ob.deposited_value, 1_250);
    assert_eq!(ob.borrowed_value, 40);
    assert_eq!(ob.allowed_borrow_value, 625);
    assert_eq!(ob.unhealthy_borrow_value, 687);
}

#[test]
fn refresh_twice_in_one_slot_is_identical() {
    let slot = 100u64;
    let r1 = unit_reserve(10, 1_000_000, slot);
    let mut ob = fresh_obligation(slot);
    deposit_obligation_collateral(&mut ob, &r1, key(10), 1_000, slot).unwrap();
    ob.borrows.push(ObligationLiquidity {
        borrow_reserve: key(10),
        cumulative_borrow_rate_wads: WAD,
        borrowed_amount_wads: 40 * WAD,
        market_value: 0,
    });
    refresh_obligation_complete(&mut ob, &vec![r1], &vec![r1], slot).unwrap();
    let once = ob.clone();
    refresh_obligation_complete(&mut ob, &vec![r1], &vec![r1], slot).unwrap();
    assert_eq!(ob.deposited_value, once.deposited_value);
    assert_eq!(ob.borrowed_value, once.borrowed_value);
    assert_eq!(ob.allowed_borrow_value, once.allowed_borrow_value);
    assert_eq!(ob.unhealthy_borrow_value, once.unhealthy_borrow_value);
    assert_eq!(ob.deposits, once.deposits);
    assert_eq!(ob.borrows, once.borrows);
}

#[test]
fn refresh_rejects_stale_reserves() {
    let slot = 500u64;
    let fresh = unit_reserve(10, 1_000, slot);
    let stale = unit_reserve(10, 1_000, slot - 121);
    let mut ob = fresh_obligation(slot);
    deposit_obligation_collateral(&mut ob, &fresh, key(10), 100, slot).unwrap();
    let before = ob.clone();
    assert_eq!(
        refresh_all_collaterals(&mut ob, &vec![stale], slot),
        Err(LendingError::ReserveStale)
    );
    assert_eq!(ob.deposits, before.deposits);
    assert_eq!(
        refresh_all_collaterals(&mut ob, &Vec::new(), slot),
        Err(LendingError::InvalidAccountInput)
    );
}

#[test]
fn refresh_single_records() {
    let slot = 100u64;
    let reserve = unit_reserve(10, 1_000, slot);
    let mut ob = fresh_obligation(slot);
    deposit_obligation_collateral(&mut ob, &reserve, key(10), 300, slot).unwrap();
    let result = refresh_collateral(&mut ob, 0, &reserve, slot).unwrap();
    assert_eq!(result.market_value, 300);
    assert_eq!(result.allowed_borrow_value, 150);
    assert_eq!(result.unhealthy_borrow_value, 165);
    ob.borrows.push(ObligationLiquidity {
        borrow_reserve: key(10),
        cumulative_borrow_rate_wads: WAD / 2,
        borrowed_amount_wads: 100 * WAD,
        market_value: 0,
    });
    // The reserve's rate is double the checkpoint: the debt doubles.
    let value = refresh_liquidity(&mut ob, 0, &reserve, slot).unwrap();
    assert_eq!(value, 200);
    assert_eq!(ob.borrows[0].borrowed_amount_wads, 200 * WAD);
    assert_eq!(ob.borrows[0].cumulative_borrow_rate_wads, WAD);
    let total = refresh_all_borrows(&mut ob, &vec![reserve], slot).unwrap();
    assert_eq!(total, 200);
}

#[test]
fn keyed_refresh_checks_pairing() {
    let slot = 100u64;
    let reserve = unit_reserve(10, 1_000, slot);
    let mut ob = fresh_obligation(slot);
    deposit_obligation_collateral(&mut ob, &reserve, key(10), 300, slot).unwrap();
    assert_eq!(
        refresh_obligation(&mut ob, &Vec::new(), slot),
        Err(LendingError::InvalidReserveCount)
    );
    let wrong = vec![KeyedReserve { key: key(11), reserve }];
    assert_eq!(
        refresh_obligation(&mut ob, &wrong, slot),
        Err(LendingError::InvalidReserveForObligation)
    );
    let right = vec![KeyedReserve { key: key(10), reserve }];
    refresh_obligation(&mut ob, &right, slot).unwrap();
    assert_eq!(ob.deposited_value, 300);
    // The strict path insists on this very slot.
    let mut ob2 = ob.clone();
    let lagging = vec![KeyedReserve {
        key: key(10),
        reserve: unit_reserve(10, 1_000, slot - 1),
    }];
    assert_eq!(
        refresh_obligation_internal(&mut ob2, &lagging, slot),
        Err(LendingError::ReserveStale)
    );
    refresh_obligation_internal(&mut ob2, &right, slot).unwrap();
    assert_eq!(ob2.deposited_value, 300);
    // An empty obligation has nothing to refresh on the keyed path.
    let mut empty = fresh_obligation(slot);
    assert_eq!(
        refresh_obligation(&mut empty, &Vec::new(), slot),
        Err(LendingError::NoReservesToRefresh)
    );
}

#[test]
fn freshness_window_is_one_slot() {
    let reserve = unit_reserve(10, 0, 99);
    assert_eq!(verify_reserve_freshness(&reserve, 100), Ok(()));
    assert_eq!(
        verify_reserve_freshness(&reserve, 101),
        Err(LendingError::ReserveStale)
    );
}

#[test]
fn borrow_rejects_empty_collateral() {
    let mut ob = fresh_obligation(100);
    let mut reserve = unit_reserve(10, 1_000, 100);
    let accounts = Vec::new();
    assert_eq!(
        borrow_obligation_liquidity(&mut ob, &mut reserve, key(10), &accounts, 10, 100),
        Err(LendingError::ObligationDepositsEmpty)
    );
}

#[test]
fn borrow_eaten_by_fee_is_too_small() {
    // A 100% borrow fee leaves the borrower with nothing.
    let (mut ob, mut reserve) = funded_obligation(100);
    reserve.config.fees.borrow_fee_wad = WAD as u64;
    let accounts = vec![
        KeyedReserve { key: key(10), reserve },
        KeyedReserve { key: key(10), reserve },
    ];
    assert_eq!(
        borrow_obligation_liquidity(&mut ob, &mut reserve, key(10), &accounts, 10, 100),
        Err(LendingError::BorrowTooSmall)
    );
}

#[test]
fn liquidation_of_dust_is_too_small() {
    // Less than one whole token outstanding: the repayment resolves to
    // zero tokens.
    let repay_reserve = unit_reserve(10, 0, 100);
    let mut ob = fresh_obligation(100);
    ob.borrowed_value = 10;
    ob.unhealthy_borrow_value = 5;
    ob.borrows.push(ObligationLiquidity {
        borrow_reserve: key(10),
        cumulative_borrow_rate_wads: WAD,
        borrowed_amount_wads: WAD / 2,
        market_value: 10,
    });
    ob.deposits.push(ObligationCollateral {
        deposit_reserve: key(11),
        deposited_amount: 100,
        market_value: 100,
    });
    let withdraw_reserve = unit_reserve(11, 0, 100);
    let mut repay = repay_reserve;
    assert_eq!(
        liquidate_obligation(&mut ob, &mut repay, &withdraw_reserve, key(10), key(11), 50, 100),
        Err(LendingError::LiquidationTooSmall)
    );
}

#[test]
fn oracle_age_is_bounded() {
    assert_eq!(lendborrow::oracle::validate_price_age(0), Ok(()));
    assert_eq!(lendborrow::oracle::validate_price_age(60), Ok(()));
    assert_eq!(
        lendborrow::oracle::validate_price_age(61),
        Err(LendingError::OraclePriceStale)
    );
}

#[test]
fn borrow_calculator_rejects_fee_consuming_borrow() {
    let mut reserve = unit_reserve(10, 10_000, 100);
    // A 100% fee leaves the borrower with nothing.
    reserve.config.fees.borrow_fee_wad = WAD as u64;
    assert_eq!(
        calculate_borrow(&reserve, 1_000, u128::MAX),
        Err(LendingError::BorrowTooSmall)
    );
}

#[test]
fn liquidation_beyond_close_factor_is_too_large() {
    // The position owes 560 in value: one call may repay at most 280.
    let (mut ob, mut reserve) = borrowed_position(100);
    ob.borrowed_value = 560;
    ob.unhealthy_borrow_value = 550;
    ob.borrows[0].borrowed_amount_wads = 560 * WAD;
    ob.borrows[0].market_value = 560;
    let withdraw_reserve = reserve;
    assert_eq!(
        liquidate_obligation(&mut ob, &mut reserve, &withdraw_reserve, key(10), key(10), 300, 100),
        Err(LendingError::LiquidationTooLarge)
    );
    // At the cap the liquidation goes through.
    let result = liquidate_obligation(
        &mut ob,
        &mut reserve,
        &withdraw_reserve,
        key(10),
        key(10),
        280,
        100,
    )
    .unwrap();
    assert_eq!(result.repay_amount, 280);
}

#[test]
fn borrow_calculator_prices_against_capacity() {
    let mut reserve = unit_reserve(10, 10_000, 100);
    reserve.config.fees.borrow_fee_wad = (WAD / 100) as u64;
    reserve.config.fees.host_fee_percentage = 20;
    let result = calculate_borrow(&reserve, 1_000, 5_000).unwrap();
    assert_eq!(result.borrow_amount_wads, 1_000 * WAD);
    assert_eq!(result.borrow_fee, 10);
    assert_eq!(result.host_fee, 2);
    assert_eq!(result.owner_fee, 8);
    assert_eq!(result.receive_amount, 990);
    assert_eq!(
        calculate_borrow(&reserve, 1_000, 999),
        Err(LendingError::BorrowTooLarge)
    );
    assert_eq!(
        calculate_borrow(&reserve, 20_000, u128::MAX),
        Err(LendingError::InsufficientLiquidity)
    );
}
