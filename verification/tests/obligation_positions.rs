//! Obligation position store: find, add, update, remove, the combined
//! ten-record cap, and the withdraw/repay mutators.

use lendborrow::errors::LendingError;
use lendborrow::keys::Pubkey;
use lendborrow::obligation::{
    Obligation, ObligationCollateral, ObligationLiquidity, LIQUIDATION_CLOSE_FACTOR,
    MAX_OBLIGATION_RESERVES,
};
use lendborrow::WAD;

fn key(tag: u8) -> Pubkey {
    Pubkey { bytes: [tag; 32] }
}

fn empty_obligation() -> Obligation {
    Obligation {
        version: 1,
        last_update_slot: 100,
        lending_market: key(1),
        owner: key(2),
        deposited_value: 0,
        borrowed_value: 0,
        allowed_borrow_value: 0,
        unhealthy_borrow_value: 0,
        deposits: Vec::new(),
        borrows: Vec::new(),
    }
}

fn collateral(tag: u8, amount: u64, value: u128) -> ObligationCollateral {
    ObligationCollateral {
        deposit_reserve: key(tag),
        deposited_amount: amount,
        market_value: value,
    }
}

fn liquidity(tag: u8, borrowed_wads: u128, value: u128) -> ObligationLiquidity {
    ObligationLiquidity {
        borrow_reserve: key(tag),
        cumulative_borrow_rate_wads: WAD,
        borrowed_amount_wads: borrowed_wads,
        market_value: value,
    }
}

#[test]
fn constants_match_protocol_limits() {
    assert_eq!(MAX_OBLIGATION_RESERVES, 10);
    assert_eq!(LIQUIDATION_CLOSE_FACTOR, 50);
}

#[test]
fn find_collateral_scans_in_order() {
    let mut ob = empty_obligation();
    ob.deposits.push(collateral(10, 1, 0));
    ob.deposits.push(collateral(11, 2, 0));
    let (found, index) = ob.find_collateral(key(11)).unwrap();
    assert_eq!(index, 1);
    assert_eq!(found.deposited_amount, 2);
    assert_eq!(
        ob.find_collateral(key(12)),
        Err(LendingError::InvalidObligationCollateral)
    );
}

#[test]
fn find_liquidity_scans_in_order() {
    let mut ob = empty_obligation();
    ob.borrows.push(liquidity(20, WAD, 0));
    let (found, index) = ob.find_liquidity(key(20)).unwrap();
    assert_eq!(index, 0);
    assert_eq!(found.borrowed_amount_wads, WAD);
    assert_eq!(
        ob.find_liquidity(key(21)),
        Err(LendingError::InvalidObligationLiquidity)
    );
}

#[test]
fn find_or_add_creates_then_reuses() {
    let mut ob = empty_obligation();
    let index = ob.find_or_add_collateral(key(10)).unwrap();
    assert_eq!(index, 0);
    assert_eq!(ob.deposits.len(), 1);
    assert_eq!(ob.find_or_add_collateral(key(10)).unwrap(), 0);
    assert_eq!(ob.deposits.len(), 1);
    let borrow_index = ob.find_or_add_liquidity(key(20)).unwrap();
    assert_eq!(borrow_index, 0);
    assert_eq!(ob.borrows[0].cumulative_borrow_rate_wads, WAD);
}

#[test]
fn eleventh_position_is_rejected() {
    // Scenario: six collateral and four borrow records fill the ten slots;
    // an eleventh fails, and after removing one a new record fits while
    // the other nine keep their exact contents.
    let mut ob = empty_obligation();
    for tag in 0..6u8 {
        ob.add_collateral(collateral(tag, tag as u64 + 1, tag as u128)).unwrap();
    }
    for tag in 6..10u8 {
        ob.add_liquidity(liquidity(tag, tag as u128 * WAD, 0)).unwrap();
    }
    assert_eq!(
        ob.add_collateral(collateral(10, 1, 0)),
        Err(LendingError::ObligationReserveLimit)
    );
    assert_eq!(
        ob.add_liquidity(liquidity(10, WAD, 0)),
        Err(LendingError::ObligationReserveLimit)
    );
    assert_eq!(
        ob.find_or_add_collateral(key(10)),
        Err(LendingError::ObligationReserveLimit)
    );

    let kept_deposits: Vec<ObligationCollateral> = ob.deposits[1..].to_vec();
    let kept_borrows = ob.borrows.clone();
    ob.remove_collateral(0).unwrap();
    ob.add_collateral(collateral(10, 1, 0)).unwrap();
    assert_eq!(ob.deposits.len(), 6);
    assert_eq!(ob.borrows.len(), 4);
    for (i, kept) in kept_deposits.iter().enumerate() {
        assert_eq!(ob.deposits[i], *kept);
    }
    for (i, kept) in kept_borrows.iter().enumerate() {
        assert_eq!(ob.borrows[i], *kept);
    }
    assert_eq!(ob.deposits[5], collateral(10, 1, 0));
}

#[test]
fn duplicate_keys_resolve_to_first_record() {
    let mut ob = empty_obligation();
    ob.deposits.push(collateral(10, 1, 0));
    ob.deposits.push(collateral(10, 2, 0));
    let (found, index) = ob.find_collateral(key(10)).unwrap();
    assert_eq!(index, 0);
    assert_eq!(found.deposited_amount, 1);
    assert_eq!(ob.find_or_add_collateral(key(10)).unwrap(), 0);
    assert_eq!(ob.deposits.len(), 2);
}

#[test]
fn update_and_remove_bounds_checked() {
    let mut ob = empty_obligation();
    ob.deposits.push(collateral(10, 1, 0));
    assert_eq!(
        ob.update_collateral(1, collateral(10, 2, 0)),
        Err(LendingError::InvalidObligationIndex)
    );
    assert_eq!(ob.remove_collateral(1), Err(LendingError::InvalidObligationIndex));
    assert_eq!(ob.remove_liquidity(0), Err(LendingError::InvalidObligationIndex));
    ob.update_collateral(0, collateral(10, 2, 7)).unwrap();
    assert_eq!(ob.deposits[0].deposited_amount, 2);
    ob.remove_collateral(0).unwrap();
    assert_eq!(ob.deposits.len(), 0);
}

#[test]
fn max_withdraw_value_keeps_debt_covered() {
    let mut ob = empty_obligation();
    ob.deposited_value = 1_000;
    ob.borrowed_value = 250;
    ob.allowed_borrow_value = 500;
    // required = 250 * 1000 / 500 = 500, so 500 may leave.
    assert_eq!(ob.max_withdraw_value(), Ok(500));
    ob.allowed_borrow_value = 0;
    assert_eq!(ob.max_withdraw_value(), Ok(0));
    ob.allowed_borrow_value = 200;
    // required = 1250 >= deposited: nothing may leave.
    assert_eq!(ob.max_withdraw_value(), Ok(0));
}

#[test]
fn remaining_borrow_value_requires_health() {
    let mut ob = empty_obligation();
    ob.allowed_borrow_value = 500;
    ob.borrowed_value = 200;
    assert_eq!(ob.remaining_borrow_value(), Ok(300));
    ob.borrowed_value = 600;
    assert_eq!(ob.remaining_borrow_value(), Err(LendingError::MathOverflow));
}

#[test]
fn loan_to_value_is_wad_fraction() {
    let mut ob = empty_obligation();
    ob.deposited_value = 100;
    ob.borrowed_value = 50;
    assert_eq!(ob.loan_to_value(), Ok(WAD / 2));
    ob.deposited_value = 0;
    assert_eq!(ob.loan_to_value(), Ok(0));
}

#[test]
fn verify_healthy_gates_on_threshold() {
    // Scenario: borrowed 560 against an unhealthy threshold of 550: the
    // health check fails and the liquidation eligibility test passes.
    let mut ob = empty_obligation();
    ob.borrows.push(liquidity(20, WAD, 560));
    ob.borrowed_value = 560;
    ob.unhealthy_borrow_value = 550;
    assert_eq!(ob.verify_healthy(), Err(LendingError::ObligationUnhealthy));
    assert!(ob.borrowed_value > ob.unhealthy_borrow_value);
    ob.borrowed_value = 550;
    assert_eq!(ob.verify_healthy(), Ok(()));
    let empty = empty_obligation();
    assert_eq!(empty.verify_healthy(), Ok(()));
}

#[test]
fn withdraw_scales_market_value() {
    let mut ob = empty_obligation();
    ob.deposits.push(collateral(10, 1_000, 500));
    ob.deposited_value = 500;
    // Withdrawing 400 of 1_000 removes 40% of the record's value.
    ob.withdraw(0, 400).unwrap();
    assert_eq!(ob.deposits[0].deposited_amount, 600);
    assert_eq!(ob.deposits[0].market_value, 300);
    assert_eq!(ob.deposited_value, 300);
}

#[test]
fn full_withdraw_removes_the_record() {
    let mut ob = empty_obligation();
    ob.deposits.push(collateral(10, 1_000, 500));
    ob.deposits.push(collateral(11, 10, 5));
    ob.deposited_value = 505;
    ob.withdraw(0, 1_000).unwrap();
    assert_eq!(ob.deposits.len(), 1);
    assert_eq!(ob.deposits[0], collateral(11, 10, 5));
    assert_eq!(ob.deposited_value, 5);
}

#[test]
fn withdraw_rejects_empty_record() {
    let mut ob = empty_obligation();
    ob.deposits.push(collateral(10, 0, 0));
    assert_eq!(ob.withdraw(0, 1), Err(LendingError::ObligationCollateralEmpty));
    assert_eq!(ob.withdraw(3, 1), Err(LendingError::InvalidObligationIndex));
}

#[test]
fn repay_scales_market_value() {
    let mut ob = empty_obligation();
    ob.borrows.push(liquidity(20, 1_000 * WAD, 800));
    ob.borrowed_value = 800;
    // Settling a quarter of the debt removes a quarter of its value.
    ob.repay(0, 250 * WAD).unwrap();
    assert_eq!(ob.borrows[0].borrowed_amount_wads, 750 * WAD);
    assert_eq!(ob.borrows[0].market_value, 600);
    assert_eq!(ob.borrowed_value, 600);
}

#[test]
fn repay_to_zero_removes_the_record() {
    // Scenario: a full repayment settles every WAD of debt and drops the
    // record, leaving the debt at exactly zero.
    let mut ob = empty_obligation();
    ob.borrows.push(liquidity(20, 1_000 * WAD + 1, 700));
    ob.borrowed_value = 700;
    ob.repay(0, 1_000 * WAD + 1).unwrap();
    assert_eq!(ob.borrows.len(), 0);
    assert_eq!(ob.borrowed_value, 0);
}

#[test]
fn repay_rejects_empty_record() {
    let mut ob = empty_obligation();
    ob.borrows.push(liquidity(20, 0, 0));
    assert_eq!(ob.repay(0, 1), Err(LendingError::ObligationLiquidityEmpty));
}

#[test]
fn record_accrual_compounds_by_rate_ratio() {
    let mut record = liquidity(20, 100 * WAD, 0);
    // The reserve's cumulative rate moved from 1.0 to 1.1.
    record.accrue_interest(WAD + WAD / 10).unwrap();
    assert_eq!(record.borrowed_amount_wads, 110 * WAD);
    assert_eq!(record.cumulative_borrow_rate_wads, WAD + WAD / 10);
    // The same rate again changes nothing.
    let before = record;
    record.accrue_interest(WAD + WAD / 10).unwrap();
    assert_eq!(record, before);
    // A lower rate is rejected.
    assert_eq!(
        record.accrue_interest(WAD),
        Err(LendingError::NegativeInterestRate)
    );
}
