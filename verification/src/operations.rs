//! The protocol's operations: the state-changing core of each
//! instruction, over plain values.  The host validates accounts, moves
//! tokens and reads the clock and the oracle; everything here is the
//! decision and ledger logic, and every operation either commits all of
//! its listed effects or returns an error with its inputs unchanged.

use vstd::prelude::*;

use crate::errors::LendingError;
use crate::keys::Pubkey;
use crate::lending_market::LendingMarket;
use crate::obligation::{Obligation, ObligationCollateral, MAX_OBLIGATION_RESERVES};
use crate::reserve::Reserve;
use crate::reserve_config::ReserveConfig;
use crate::WAD;

verus! {

/// Creates a lending market.  The host supplies the derived authority and
/// the bump seeds; the quote currency must pass `validate_quote_currency`.
pub fn init_lending_market(
    owner: Pubkey,
    authority: Pubkey,
    authority_bump: u8,
    bump_seed: u8,
    quote_currency: [u8; 32],
    token_program_id: Pubkey,
) -> (r: Result<LendingMarket, LendingError>)
    ensures
        crate::lending_market::quote_currency_valid(quote_currency@) <==> r is Ok,
        r matches Ok(market) ==> market == (LendingMarket {
            owner,
            authority,
            authority_bump,
            version: LendingMarket::PROGRAM_VERSION as u64,
            bump_seed,
            quote_currency,
            token_program_id,
        }),
        r is Err ==> r == Err::<LendingMarket, LendingError>(LendingError::InvalidQuoteCurrency),
{
    if !LendingMarket::validate_quote_currency(&quote_currency) {
        return Err(LendingError::InvalidQuoteCurrency);
    }
    Ok(
        LendingMarket {
            owner,
            authority,
            authority_bump,
            version: LendingMarket::PROGRAM_VERSION as u64,
            bump_seed,
            quote_currency,
            token_program_id,
        },
    )
}

/// Hands the market to a new owner, rejecting the current owner and the
/// all-zero key.
pub fn set_lending_market_owner(lending_market: &mut LendingMarket, new_owner: Pubkey) -> (r:
    Result<(), LendingError>)
    ensures
        new_owner == old(lending_market).owner ==> r == Err::<(), LendingError>(
            LendingError::SameOwner,
        ) && *final(lending_market) == *old(lending_market),
        new_owner != old(lending_market).owner && new_owner.is_zero_spec() ==> r == Err::<
            (),
            LendingError,
        >(LendingError::InvalidNewOwner) && *final(lending_market) == *old(lending_market),
        new_owner != old(lending_market).owner && !new_owner.is_zero_spec() ==> r == Ok::<
            (),
            LendingError,
        >(()) && *final(lending_market) == (LendingMarket {
            owner: new_owner,
            ..*old(lending_market)
        }),
{
    if new_owner == lending_market.owner {
        return Err(LendingError::SameOwner);
    }
    if new_owner.is_zero() {
        return Err(LendingError::InvalidNewOwner);
    }
    lending_market.owner = new_owner;
    Ok(())
}

/// Creates a reserve around an initial deposit.  The configuration must
/// validate, the amount must be positive, and the oracle price comes in
/// already validated.  Receipts start one-for-one with the deposit and
/// the cumulative borrow rate starts at 1.0 WAD.
pub fn init_reserve(
    liquidity_amount: u64,
    config: ReserveConfig,
    market_price: u128,
    current_slot: u64,
    lending_market: Pubkey,
    liquidity_mint: Pubkey,
    liquidity_mint_decimals: u8,
    liquidity_supply: Pubkey,
    liquidity_fee_receiver: Pubkey,
    liquidity_oracle: Pubkey,
    collateral_mint: Pubkey,
    collateral_supply: Pubkey,
) -> (r: Result<Reserve, LendingError>)
    ensures
        liquidity_amount == 0 ==> r == Err::<Reserve, LendingError>(
            LendingError::InvalidLiquidityAmount,
        ),
        liquidity_amount > 0 && !config.valid() ==> r is Err && (r == Err::<Reserve, LendingError>(
            LendingError::InvalidReserveConfig,
        ) || r == Err::<Reserve, LendingError>(LendingError::InvalidOracleConfig)),
        liquidity_amount > 0 && config.valid() ==> (r matches Ok(reserve) && reserve == (Reserve {
            version: Reserve::PROGRAM_VERSION,
            last_update_slot: current_slot,
            lending_market,
            liquidity_mint,
            liquidity_mint_decimals,
            liquidity_supply,
            liquidity_fee_receiver,
            liquidity_oracle,
            liquidity_available_amount: liquidity_amount,
            liquidity_borrowed_amount_wads: 0,
            liquidity_cumulative_borrow_rate_wads: WAD,
            liquidity_market_price: market_price,
            collateral_mint,
            collateral_supply,
            collateral_mint_total_supply: liquidity_amount,
            config,
        })),
        r matches Ok(reserve) ==> reserve.wf(),
{
    if liquidity_amount == 0 {
        return Err(LendingError::InvalidLiquidityAmount);
    }
    match config.validate() {
        Ok(()) => {},
        Err(e) => {
            return Err(e);
        },
    }
    Ok(
        Reserve {
            version: Reserve::PROGRAM_VERSION,
            last_update_slot: current_slot,
            lending_market,
            liquidity_mint,
            liquidity_mint_decimals,
            liquidity_supply,
            liquidity_fee_receiver,
            liquidity_oracle,
            liquidity_available_amount: liquidity_amount,
            liquidity_borrowed_amount_wads: 0,
            liquidity_cumulative_borrow_rate_wads: Reserve::INITIAL_BORROW_RATE,
            liquidity_market_price: market_price,
            collateral_mint,
            collateral_supply,
            collateral_mint_total_supply: liquidity_amount,
            config,
        },
    )
}

/// Creates an empty obligation for an owner in a market.
pub fn init_obligation(lending_market: Pubkey, owner: Pubkey, current_slot: u64) -> (r: Obligation)
    ensures
        r.version == Obligation::PROGRAM_VERSION,
        r.last_update_slot == current_slot,
        r.lending_market == lending_market,
        r.owner == owner,
        r.deposited_value == 0,
        r.borrowed_value == 0,
        r.allowed_borrow_value == 0,
        r.unhealthy_borrow_value == 0,
        r.deposits@ == Seq::<ObligationCollateral>::empty(),
        r.borrows@ == Seq::<crate::obligation::ObligationLiquidity>::empty(),
        r.wf(),
{
    let deposits: Vec<ObligationCollateral> = Vec::new();
    let borrows: Vec<crate::obligation::ObligationLiquidity> = Vec::new();
    Obligation {
        version: Obligation::PROGRAM_VERSION,
        last_update_slot: current_slot,
        lending_market,
        owner,
        deposited_value: 0,
        borrowed_value: 0,
        allowed_borrow_value: 0,
        unhealthy_borrow_value: 0,
        deposits,
        borrows,
    }
}

/// What `refresh_reserve` does: a no-op when already refreshed in this
/// slot; otherwise the validated oracle price is written, interest
/// accrues, and the update slot advances.
pub open spec fn refresh_reserve_result(
    reserve: Reserve,
    market_price: u128,
    current_slot: u64,
) -> Result<Reserve, LendingError> {
    if reserve.last_update_slot == current_slot {
        Ok(reserve)
    } else {
        let priced = Reserve { liquidity_market_price: market_price, ..reserve };
        match priced.accrue_result(current_slot) {
            Err(e) => Err(e),
            Ok(accrued) => Ok(Reserve { last_update_slot: current_slot, ..accrued }),
        }
    }
}

/// Brings a reserve current: writes the already-validated oracle price,
/// accrues interest since the last update and advances the update slot.
/// A reserve already refreshed in this slot is left untouched.  On any
/// error the reserve is unchanged.
pub fn refresh_reserve(reserve: &mut Reserve, market_price: u128, current_slot: u64) -> (r: Result<
    (),
    LendingError,
>)
    requires
        old(reserve).wf(),
    ensures
        (match refresh_reserve_result(*old(reserve), market_price, current_slot) {
            Ok(refreshed) => r == Ok::<(), LendingError>(()) && *final(reserve) == refreshed,
            Err(e) => r == Err::<(), LendingError>(e) && *final(reserve) == *old(reserve),
        }),
{
    if reserve.last_update_slot == current_slot {
        return Ok(());
    }
    let mut updated = *reserve;
    updated.liquidity_market_price = market_price;
    match updated.accrue_interest(current_slot) {
        Ok(()) => {},
        Err(e) => {
            return Err(e);
        },
    }
    updated.last_update_slot = current_slot;
    *reserve = updated;
    Ok(())
}

/// What `deposit_reserve_liquidity` does: the reserve must be within its
/// staleness window, the deposit mints receipts at the exchange rate, and
/// the update slot advances.
pub open spec fn deposit_reserve_liquidity_result(
    reserve: Reserve,
    liquidity_amount: u64,
    current_slot: u64,
) -> Result<(Reserve, u64), LendingError> {
    if liquidity_amount == 0 {
        Err(LendingError::InvalidAmount)
    } else if current_slot < reserve.last_update_slot {
        Err(LendingError::MathOverflow)
    } else if current_slot - reserve.last_update_slot > Reserve::MAX_STALE_SLOTS {
        Err(LendingError::ReserveStale)
    } else {
        match reserve.deposit_liquidity_result(liquidity_amount) {
            Err(e) => Err(e),
            Ok((deposited, collateral_amount)) => Ok(
                (Reserve { last_update_slot: current_slot, ..deposited }, collateral_amount),
            ),
        }
    }
}

/// Deposits liquidity into a fresh reserve and returns the collateral
/// receipts to mint.  On any error the reserve is unchanged.
pub fn deposit_reserve_liquidity(
    reserve: &mut Reserve,
    liquidity_amount: u64,
    current_slot: u64,
) -> (r: Result<u64, LendingError>)
    ensures
        (match deposit_reserve_liquidity_result(*old(reserve), liquidity_amount, current_slot) {
            Ok((updated, collateral_amount)) => r == Ok::<u64, LendingError>(collateral_amount)
                && *final(reserve) == updated,
            Err(e) => r == Err::<u64, LendingError>(e) && *final(reserve) == *old(reserve),
        }),
{
    if liquidity_amount == 0 {
        return Err(LendingError::InvalidAmount);
    }
    let stale = match reserve.is_stale(current_slot) {
        Ok(v) => v,
        Err(e) => {
            return Err(e);
        },
    };
    if stale {
        return Err(LendingError::ReserveStale);
    }
    let collateral_amount = match reserve.deposit_liquidity(liquidity_amount) {
        Ok(v) => v,
        Err(e) => {
            return Err(e);
        },
    };
    reserve.last_update_slot = current_slot;
    Ok(collateral_amount)
}

/// What `redeem_reserve_collateral` does: the reserve must be within its
/// staleness window and hold the liquidity the receipts are worth; the
/// receipts leave the supply, the liquidity leaves the pool, and the
/// update slot advances.
pub open spec fn redeem_reserve_collateral_result(
    reserve: Reserve,
    collateral_amount: u64,
    current_slot: u64,
) -> Result<(Reserve, u64), LendingError> {
    if collateral_amount == 0 {
        Err(LendingError::InvalidAmount)
    } else if current_slot < reserve.last_update_slot {
        Err(LendingError::MathOverflow)
    } else if current_slot - reserve.last_update_slot > Reserve::MAX_STALE_SLOTS {
        Err(LendingError::ReserveStale)
    } else {
        match reserve.redeem_result(collateral_amount) {
            Err(e) => Err(e),
            Ok(liquidity_amount) => if reserve.liquidity_available_amount < liquidity_amount {
                Err(LendingError::InsufficientLiquidity)
            } else {
                Ok(
                    (
                        Reserve {
                            liquidity_available_amount: (reserve.liquidity_available_amount
                                - liquidity_amount) as u64,
                            collateral_mint_total_supply: (reserve.collateral_mint_total_supply
                                - collateral_amount) as u64,
                            last_update_slot: current_slot,
                            ..reserve
                        },
                        liquidity_amount,
                    ),
                )
            },
        }
    }
}

/// Redeems collateral receipts from a fresh reserve for the liquidity
/// they are worth at the exchange rate, and returns the liquidity to
/// transfer out.  On any error the reserve is unchanged.
pub fn redeem_reserve_collateral(
    reserve: &mut Reserve,
    collateral_amount: u64,
    current_slot: u64,
) -> (r: Result<u64, LendingError>)
    ensures
        (match redeem_reserve_collateral_result(*old(reserve), collateral_amount, current_slot) {
            Ok((updated, liquidity_amount)) => r == Ok::<u64, LendingError>(liquidity_amount)
                && *final(reserve) == updated,
            Err(e) => r == Err::<u64, LendingError>(e) && *final(reserve) == *old(reserve),
        }),
{
    if collateral_amount == 0 {
        return Err(LendingError::InvalidAmount);
    }
    let stale = match reserve.is_stale(current_slot) {
        Ok(v) => v,
        Err(e) => {
            return Err(e);
        },
    };
    if stale {
        return Err(LendingError::ReserveStale);
    }
    let liquidity_amount = match reserve.redeem_collateral(collateral_amount) {
        Ok(v) => v,
        Err(e) => {
            return Err(e);
        },
    };
    if reserve.liquidity_available_amount < liquidity_amount {
        return Err(LendingError::InsufficientLiquidity);
    }
    reserve.liquidity_available_amount = reserve.liquidity_available_amount - liquidity_amount;
    reserve.collateral_mint_total_supply = reserve.collateral_mint_total_supply
        - collateral_amount;
    reserve.last_update_slot = current_slot;
    Ok(liquidity_amount)
}

/// How many slots old a reserve may be for a collateral deposit.
pub const DEPOSIT_MAX_SLOT_AGE: u64 = 10;

/// How many slots old the obligation and reserve may be for a withdrawal.
pub const WITHDRAW_MAX_SLOT_AGE: u64 = 3600;

/// Pledges collateral receipts to the obligation, growing the record for
/// the reserve or creating one.  The reserve must accept collateral (a
/// positive loan-to-value ratio) and have been refreshed within the last
/// `DEPOSIT_MAX_SLOT_AGE` slots.  On any error the obligation is
/// unchanged.
pub fn deposit_obligation_collateral(
    obligation: &mut Obligation,
    reserve: &Reserve,
    reserve_key: Pubkey,
    collateral_amount: u64,
    current_slot: u64,
) -> (r: Result<(), LendingError>)
    requires
        old(obligation).wf(),
    ensures
        collateral_amount == 0 ==> r == Err::<(), LendingError>(LendingError::InvalidAmount)
            && *final(obligation) == *old(obligation),
        collateral_amount > 0 && current_slot > reserve.last_update_slot + DEPOSIT_MAX_SLOT_AGE
            ==> r == Err::<(), LendingError>(LendingError::ReserveStale) && *final(obligation)
            == *old(obligation),
        collateral_amount > 0 && current_slot <= reserve.last_update_slot + DEPOSIT_MAX_SLOT_AGE
            && reserve.config.loan_to_value_ratio == 0 ==> r == Err::<(), LendingError>(
            LendingError::ReserveCollateralDisabled,
        ) && *final(obligation) == *old(obligation),
        collateral_amount > 0 && current_slot <= reserve.last_update_slot + DEPOSIT_MAX_SLOT_AGE
            && reserve.config.loan_to_value_ratio > 0 && old(obligation).has_collateral(
            reserve_key,
        ) ==> ({
            let index = crate::obligation::first_collateral_index(
                old(obligation).deposits@,
                reserve_key,
            );
            let record = old(obligation).deposits@[index];
            if record.deposited_amount + collateral_amount > u64::MAX {
                r == Err::<(), LendingError>(LendingError::MathOverflow) && *final(obligation)
                    == *old(obligation)
            } else {
                r == Ok::<(), LendingError>(()) && *final(obligation) == (Obligation {
                    last_update_slot: current_slot,
                    deposits: final(obligation).deposits,
                    ..*old(obligation)
                }) && final(obligation).deposits@ == old(obligation).deposits@.update(
                    index,
                    ObligationCollateral {
                        deposited_amount: (record.deposited_amount + collateral_amount) as u64,
                        ..record
                    },
                )
            }
        }),
        collateral_amount > 0 && current_slot <= reserve.last_update_slot + DEPOSIT_MAX_SLOT_AGE
            && reserve.config.loan_to_value_ratio > 0 && !old(obligation).has_collateral(
            reserve_key,
        ) && old(obligation).deposits@.len() + old(obligation).borrows@.len()
            >= MAX_OBLIGATION_RESERVES ==> r == Err::<(), LendingError>(
            LendingError::ObligationReserveLimit,
        ) && *final(obligation) == *old(obligation),
        collateral_amount > 0 && current_slot <= reserve.last_update_slot + DEPOSIT_MAX_SLOT_AGE
            && reserve.config.loan_to_value_ratio > 0 && !old(obligation).has_collateral(
            reserve_key,
        ) && old(obligation).deposits@.len() + old(obligation).borrows@.len()
            < MAX_OBLIGATION_RESERVES ==> r == Ok::<(), LendingError>(()) && *final(obligation)
            == (Obligation {
            last_update_slot: current_slot,
            deposits: final(obligation).deposits,
            ..*old(obligation)
        }) && final(obligation).deposits@ == old(obligation).deposits@.push(
            ObligationCollateral {
                deposit_reserve: reserve_key,
                deposited_amount: collateral_amount,
                market_value: 0,
            },
        ),
{
    if collateral_amount == 0 {
        return Err(LendingError::InvalidAmount);
    }
    let age = if current_slot >= reserve.last_update_slot {
        current_slot - reserve.last_update_slot
    } else {
        0
    };
    if age > DEPOSIT_MAX_SLOT_AGE {
        return Err(LendingError::ReserveStale);
    }
    if reserve.config.loan_to_value_ratio == 0 {
        return Err(LendingError::ReserveCollateralDisabled);
    }

    match obligation.find_collateral(reserve_key) {
        Ok((collateral, index)) => {
            proof {
                crate::obligation::lemma_first_collateral_index_of(
                    obligation.deposits@,
                    reserve_key,
                    index as int,
                );
            }
            let mut updated = collateral;
            match updated.deposit(collateral_amount) {
                Ok(()) => {},
                Err(e) => {
                    return Err(e);
                },
            }
            match obligation.update_collateral(index, updated) {
                Ok(()) => {},
                Err(e) => {
                    return Err(e);
                },
            }
            obligation.last_update_slot = current_slot;
            Ok(())
        },
        Err(_) => {
            let index = match obligation.find_or_add_collateral(reserve_key) {
                Ok(i) => i,
                Err(e) => {
                    return Err(e);
                },
            };
            let (collateral, _) = match obligation.find_collateral_by_index(index) {
                Ok(v) => v,
                Err(e) => {
                    return Err(e);
                },
            };
            let mut updated = collateral;
            match updated.deposit(collateral_amount) {
                Ok(()) => {},
                Err(e) => {
                    return Err(e);
                },
            }
            match obligation.update_collateral(index, updated) {
                Ok(()) => {},
                Err(e) => {
                    return Err(e);
                },
            }
            obligation.last_update_slot = current_slot;
            proof {
                assert(final(obligation).deposits@ =~= old(obligation).deposits@.push(
                    ObligationCollateral {
                        deposit_reserve: reserve_key,
                        deposited_amount: collateral_amount,
                        market_value: 0,
                    },
                ));
            }
            Ok(())
        },
    }
}

/// The withdrawal the request resolves to, before any mutation: all the
/// staleness, existence and capacity checks, and the translation of a
/// requested amount (or the whole-position sentinel `u64::MAX`) into the
/// collateral amount that may leave without the remaining collateral
/// falling short of the debt.
pub open spec fn resolve_withdraw_amount(
    obligation: Obligation,
    reserve: Reserve,
    withdraw_reserve_key: Pubkey,
    collateral_amount: u64,
    current_slot: u64,
) -> Result<u64, LendingError> {
    if collateral_amount == 0 {
        Err(LendingError::InvalidAmount)
    } else if current_slot > obligation.last_update_slot + WITHDRAW_MAX_SLOT_AGE {
        Err(LendingError::ObligationStale)
    } else if current_slot > reserve.last_update_slot + WITHDRAW_MAX_SLOT_AGE {
        Err(LendingError::ReserveStale)
    } else if !obligation.has_collateral(withdraw_reserve_key) {
        Err(LendingError::InvalidObligationCollateral)
    } else {
        let index = crate::obligation::first_collateral_index(
            obligation.deposits@,
            withdraw_reserve_key,
        );
        let collateral = obligation.deposits@[index];
        if collateral.deposited_amount == 0 {
            Err(LendingError::ObligationCollateralEmpty)
        } else if obligation.borrows@.len() == 0 {
            let amount = if collateral_amount == u64::MAX {
                collateral.deposited_amount as int
            } else if collateral.deposited_amount <= collateral_amount {
                collateral.deposited_amount as int
            } else {
                collateral_amount as int
            };
            if amount == 0 {
                Err(LendingError::WithdrawTooSmall)
            } else {
                Ok(amount as u64)
            }
        } else if obligation.deposited_value == 0 {
            Err(LendingError::ObligationDepositsZero)
        } else {
            match obligation.max_withdraw_value_result() {
                Err(e) => Err(e),
                Ok(max_withdraw_value) => if max_withdraw_value == 0 {
                    Err(LendingError::WithdrawTooLarge)
                } else if collateral_amount == u64::MAX {
                    let withdraw_value = if max_withdraw_value <= collateral.market_value {
                        max_withdraw_value as int
                    } else {
                        collateral.market_value as int
                    };
                    if collateral.market_value > 0 && withdraw_value * WAD > u128::MAX {
                        Err(LendingError::MathOverflow)
                    } else {
                        let withdraw_pct = if collateral.market_value > 0 {
                            withdraw_value * WAD / (collateral.market_value as int)
                        } else {
                            0
                        };
                        if collateral.deposited_amount * withdraw_pct > u128::MAX {
                            Err(LendingError::MathOverflow)
                        } else {
                            let scaled_amount = collateral.deposited_amount * withdraw_pct / (
                            WAD as int);
                            if scaled_amount > u64::MAX {
                                Err(LendingError::MathOverflow)
                            } else {
                                let amount = if scaled_amount <= collateral.deposited_amount {
                                    scaled_amount
                                } else {
                                    collateral.deposited_amount as int
                                };
                                if amount == 0 {
                                    Err(LendingError::WithdrawTooSmall)
                                } else {
                                    Ok(amount as u64)
                                }
                            }
                        }
                    }
                } else {
                    let amount = if collateral_amount <= collateral.deposited_amount {
                        collateral_amount as int
                    } else {
                        collateral.deposited_amount as int
                    };
                    let withdraw_pct = amount * WAD / (collateral.deposited_amount as int);
                    if collateral.market_value * withdraw_pct > u128::MAX {
                        Err(LendingError::MathOverflow)
                    } else {
                        let withdraw_value = collateral.market_value * withdraw_pct / (WAD as int);
                        if withdraw_value > max_withdraw_value {
                            Err(LendingError::WithdrawTooLarge)
                        } else if amount == 0 {
                            Err(LendingError::WithdrawTooSmall)
                        } else {
                            Ok(amount as u64)
                        }
                    }
                },
            }
        }
    }
}

/// Withdraws collateral from the obligation.  The request (or the
/// whole-position sentinel `u64::MAX`) resolves to an amount that keeps
/// the remaining collateral covering the debt; the position must be
/// healthy, and both the obligation and the reserve must have been
/// refreshed within `WITHDRAW_MAX_SLOT_AGE` slots.  Returns the collateral
/// amount to transfer out.  On any error the obligation is unchanged.
#[verifier::rlimit(60)]
pub fn withdraw_obligation_collateral(
    obligation: &mut Obligation,
    withdraw_reserve: &Reserve,
    withdraw_reserve_key: Pubkey,
    collateral_amount: u64,
    current_slot: u64,
) -> (r: Result<u64, LendingError>)
    ensures
        (match resolve_withdraw_amount(
            *old(obligation),
            *withdraw_reserve,
            withdraw_reserve_key,
            collateral_amount,
            current_slot,
        ) {
            Err(e) => r == Err::<u64, LendingError>(e) && *final(obligation) == *old(obligation),
            Ok(withdraw_amount) => if !(old(obligation).borrows@.len() == 0 || old(obligation).borrowed_value <= old(obligation).unhealthy_borrow_value) {
                r == Err::<u64, LendingError>(LendingError::ObligationUnhealthy) && *final(obligation) == *old(obligation)
            } else {
                let index = crate::obligation::first_collateral_index(
                    old(obligation).deposits@,
                    withdraw_reserve_key,
                );
                match old(obligation).withdraw_result(index as usize, withdraw_amount) {
                    Err(e) => r == Err::<u64, LendingError>(e) && *final(obligation) == *old(obligation),
                    Ok(withdrawn) => r == Ok::<u64, LendingError>(withdraw_amount) && *final(obligation) == (Obligation {
                        last_update_slot: current_slot,
                        deposits: final(obligation).deposits,
                        ..withdrawn
                    }) && final(obligation).deposits@ == old(obligation).withdraw_deposits(
                        index as usize,
                        withdraw_amount,
                    ),
                }
            },
        }),
{
    if collateral_amount == 0 {
        return Err(LendingError::InvalidAmount);
    }
    let obligation_age = if current_slot >= obligation.last_update_slot {
        current_slot - obligation.last_update_slot
    } else {
        0
    };
    if obligation_age > WITHDRAW_MAX_SLOT_AGE {
        return Err(LendingError::ObligationStale);
    }
    let reserve_age = if current_slot >= withdraw_reserve.last_update_slot {
        current_slot - withdraw_reserve.last_update_slot
    } else {
        0
    };
    if reserve_age > WITHDRAW_MAX_SLOT_AGE {
        return Err(LendingError::ReserveStale);
    }

    let (collateral, collateral_index) = match obligation.find_collateral(withdraw_reserve_key) {
        Ok(v) => v,
        Err(_) => {
            return Err(LendingError::InvalidObligationCollateral);
        },
    };
    proof {
        crate::obligation::lemma_first_collateral_index_of(
            obligation.deposits@,
            withdraw_reserve_key,
            collateral_index as int,
        );
    }
    if collateral.deposited_amount == 0 {
        return Err(LendingError::ObligationCollateralEmpty);
    }

    let withdraw_amount: u64;
    if obligation.borrows_len() == 0 {
        withdraw_amount = if collateral_amount == u64::MAX {
            collateral.deposited_amount
        } else if collateral.deposited_amount <= collateral_amount {
            collateral.deposited_amount
        } else {
            collateral_amount
        };
    } else {
        if obligation.deposited_value == 0 {
            return Err(LendingError::ObligationDepositsZero);
        }
        let max_withdraw_value = match obligation.max_withdraw_value() {
            Ok(v) => v,
            Err(e) => {
                return Err(e);
            },
        };
        if max_withdraw_value == 0 {
            return Err(LendingError::WithdrawTooLarge);
        }
        if collateral_amount == u64::MAX {
            let withdraw_value = if max_withdraw_value <= collateral.market_value {
                max_withdraw_value
            } else {
                collateral.market_value
            };
            let withdraw_pct: u128 = if collateral.market_value > 0 {
                match withdraw_value.checked_mul(WAD) {
                    Some(v) => v / collateral.market_value,
                    None => {
                        return Err(LendingError::MathOverflow);
                    },
                }
            } else {
                0
            };
            let scaled_amount = match (collateral.deposited_amount as u128).checked_mul(
                withdraw_pct,
            ) {
                Some(v) => v / WAD,
                None => {
                    return Err(LendingError::MathOverflow);
                },
            };
            if scaled_amount > u64::MAX as u128 {
                return Err(LendingError::MathOverflow);
            }
            withdraw_amount = if (scaled_amount as u64) <= collateral.deposited_amount {
                scaled_amount as u64
            } else {
                collateral.deposited_amount
            };
        } else {
            let capped_amount = if collateral_amount <= collateral.deposited_amount {
                collateral_amount
            } else {
                collateral.deposited_amount
            };
            proof {
                vstd::arithmetic::mul::lemma_mul_inequality(
                    capped_amount as int,
                    u64::MAX as int,
                    WAD as int,
                );
            }
            let withdraw_pct = ((capped_amount as u128) * WAD) / (
            collateral.deposited_amount as u128);
            let withdraw_value = match collateral.market_value.checked_mul(withdraw_pct) {
                Some(v) => v / WAD,
                None => {
                    return Err(LendingError::MathOverflow);
                },
            };
            if withdraw_value > max_withdraw_value {
                return Err(LendingError::WithdrawTooLarge);
            }
            withdraw_amount = capped_amount;
        }
    }
    if withdraw_amount == 0 {
        return Err(LendingError::WithdrawTooSmall);
    }

    match obligation.verify_healthy() {
        Ok(()) => {},
        Err(e) => {
            return Err(e);
        },
    }
    proof {
        assert(*obligation == *old(obligation));
        assert(old(obligation).borrows@.len() == 0 || old(obligation).borrowed_value <= old(obligation).unhealthy_borrow_value);
    }
    match obligation.withdraw(collateral_index, withdraw_amount) {
        Ok(()) => {},
        Err(e) => {
            return Err(e);
        },
    }
    obligation.last_update_slot = current_slot;
    Ok(withdraw_amount)
}

/// Copies a vector of collateral records.
fn clone_collateral_vec(source: &Vec<ObligationCollateral>) -> (r: Vec<ObligationCollateral>)
    ensures
        r@ == source@,
{
    let mut copy: Vec<ObligationCollateral> = Vec::new();
    let mut i: usize = 0;
    while i < source.len()
        invariant
            0 <= i <= source@.len(),
            copy@.len() == i,
            forall|j: int| 0 <= j < i ==> copy@[j] == source@[j],
        decreases source@.len() - i,
    {
        copy.push(source[i]);
        i = i + 1;
    }
    proof {
        assert(copy@ =~= source@);
    }
    copy
}

/// Copies a vector of borrow records.
fn clone_liquidity_vec(source: &Vec<crate::obligation::ObligationLiquidity>) -> (r: Vec<
    crate::obligation::ObligationLiquidity,
>)
    ensures
        r@ == source@,
{
    let mut copy: Vec<crate::obligation::ObligationLiquidity> = Vec::new();
    let mut i: usize = 0;
    while i < source.len()
        invariant
            0 <= i <= source@.len(),
            copy@.len() == i,
            forall|j: int| 0 <= j < i ==> copy@[j] == source@[j],
        decreases source@.len() - i,
    {
        copy.push(source[i]);
        i = i + 1;
    }
    proof {
        assert(copy@ =~= source@);
    }
    copy
}

/// The repayment the request resolves to: staleness and existence checks,
/// the calculator, and the scale-down to the payer's actual balance when
/// the whole debt was requested with the `u64::MAX` sentinel.  Returns
/// `(repay_amount, settle_amount_wads)`.
pub open spec fn resolve_repay(
    obligation: Obligation,
    repay_reserve: Reserve,
    repay_reserve_key: Pubkey,
    liquidity_amount: u64,
    source_liquidity_balance: u64,
    current_slot: u64,
) -> Result<(u64, u128), LendingError> {
    if liquidity_amount == 0 {
        Err(LendingError::InvalidAmount)
    } else if obligation.last_update_slot != current_slot {
        Err(LendingError::ObligationStale)
    } else if repay_reserve.last_update_slot != current_slot {
        Err(LendingError::ReserveStale)
    } else if !obligation.has_liquidity(repay_reserve_key) {
        Err(LendingError::ObligationLiquidityNotFound)
    } else {
        let index = crate::obligation::first_liquidity_index(
            obligation.borrows@,
            repay_reserve_key,
        );
        let liquidity = obligation.borrows@[index];
        if liquidity.borrowed_amount_wads == 0 {
            Err(LendingError::ObligationLiquidityEmpty)
        } else {
            match crate::calculators::calculate_repay_result(
                liquidity_amount,
                liquidity.borrowed_amount_wads,
            ) {
                Err(e) => Err(e),
                Ok(repay_result) => {
                    let actual_repay_amount = if liquidity_amount == u64::MAX
                        && source_liquidity_balance < repay_result.repay_amount {
                        source_liquidity_balance as int
                    } else {
                        repay_result.repay_amount as int
                    };
                    let actual_settle_amount = if actual_repay_amount
                        < repay_result.repay_amount {
                        if actual_repay_amount * WAD <= repay_result.settle_amount_wads {
                            actual_repay_amount * WAD
                        } else {
                            repay_result.settle_amount_wads as int
                        }
                    } else {
                        repay_result.settle_amount_wads as int
                    };
                    if source_liquidity_balance < actual_repay_amount {
                        Err(LendingError::InsufficientLiquidity)
                    } else if actual_repay_amount == 0 {
                        Err(LendingError::RepayTooSmall)
                    } else if actual_settle_amount > repay_reserve.liquidity_borrowed_amount_wads {
                        Err(LendingError::MathOverflow)
                    } else if repay_reserve.liquidity_available_amount + actual_repay_amount
                        > u64::MAX {
                        Err(LendingError::MathOverflow)
                    } else {
                        Ok((actual_repay_amount as u64, actual_settle_amount as u128))
                    }
                },
            }
        }
    }
}

/// Repays borrowed liquidity.  The obligation and the repaid reserve must
/// both be refreshed in this very slot; `u64::MAX` repays the whole debt,
/// scaled down to the payer's balance.  The settled WAD debt leaves both
/// the reserve's and the position's books, and the repaid tokens re-enter
/// the pool.  Returns `(repay_amount, settle_amount_wads)`: what the
/// payer must transfer, and the debt settled.  On any error both the
/// obligation and the reserve are unchanged.
#[verifier::rlimit(40)]
pub fn repay_obligation_liquidity(
    obligation: &mut Obligation,
    repay_reserve: &mut Reserve,
    repay_reserve_key: Pubkey,
    liquidity_amount: u64,
    source_liquidity_balance: u64,
    current_slot: u64,
) -> (r: Result<(u64, u128), LendingError>)
    ensures
        (match resolve_repay(
            *old(obligation),
            *old(repay_reserve),
            repay_reserve_key,
            liquidity_amount,
            source_liquidity_balance,
            current_slot,
        ) {
            Err(e) => r == Err::<(u64, u128), LendingError>(e) && *final(obligation) == *old(obligation) && *final(repay_reserve) == *old(repay_reserve),
            Ok((repay_amount, settle_amount_wads)) => {
                let index = crate::obligation::first_liquidity_index(
                    old(obligation).borrows@,
                    repay_reserve_key,
                );
                match old(obligation).repay_position_result(
                    index as usize,
                    settle_amount_wads,
                ) {
                    Err(e) => r == Err::<(u64, u128), LendingError>(e) && *final(obligation)
                        == *old(obligation) && *final(repay_reserve) == *old(repay_reserve),
                    Ok(repaid) => r == Ok::<(u64, u128), LendingError>(
                        (repay_amount, settle_amount_wads),
                    ) && *final(obligation) == (Obligation {
                        borrows: final(obligation).borrows,
                        ..repaid
                    }) && final(obligation).borrows@ == old(obligation).repay_borrows(
                        index as usize,
                        settle_amount_wads,
                    ) && *final(repay_reserve) == (Reserve {
                        liquidity_borrowed_amount_wads: (old(repay_reserve).liquidity_borrowed_amount_wads - settle_amount_wads) as u128,
                        liquidity_available_amount: (old(repay_reserve).liquidity_available_amount
                            + repay_amount) as u64,
                        last_update_slot: current_slot,
                        ..*old(repay_reserve)
                    }),
                }
            },
        }),
{
    if liquidity_amount == 0 {
        return Err(LendingError::InvalidAmount);
    }
    if obligation.last_update_slot != current_slot {
        return Err(LendingError::ObligationStale);
    }
    if repay_reserve.last_update_slot != current_slot {
        return Err(LendingError::ReserveStale);
    }

    let (liquidity, liquidity_index) = match obligation.find_liquidity(repay_reserve_key) {
        Ok(v) => v,
        Err(_) => {
            return Err(LendingError::ObligationLiquidityNotFound);
        },
    };
    proof {
        crate::obligation::lemma_first_liquidity_index_of(
            obligation.borrows@,
            repay_reserve_key,
            liquidity_index as int,
        );
    }
    if liquidity.borrowed_amount_wads == 0 {
        return Err(LendingError::ObligationLiquidityEmpty);
    }

    let repay_result = match crate::calculators::calculate_repay(
        repay_reserve,
        liquidity_amount,
        liquidity.borrowed_amount_wads,
    ) {
        Ok(v) => v,
        Err(e) => {
            return Err(e);
        },
    };

    let actual_repay_amount: u64 = if liquidity_amount == u64::MAX && source_liquidity_balance
        < repay_result.repay_amount {
        source_liquidity_balance
    } else {
        repay_result.repay_amount
    };
    let actual_settle_amount: u128 = if actual_repay_amount < repay_result.repay_amount {
        proof {
            vstd::arithmetic::mul::lemma_mul_inequality(
                actual_repay_amount as int,
                u64::MAX as int,
                WAD as int,
            );
        }
        let scaled = (actual_repay_amount as u128) * WAD;
        if scaled <= repay_result.settle_amount_wads {
            scaled
        } else {
            repay_result.settle_amount_wads
        }
    } else {
        repay_result.settle_amount_wads
    };

    if source_liquidity_balance < actual_repay_amount {
        return Err(LendingError::InsufficientLiquidity);
    }
    if actual_repay_amount == 0 {
        return Err(LendingError::RepayTooSmall);
    }

    let new_borrowed = match repay_reserve.liquidity_borrowed_amount_wads.checked_sub(
        actual_settle_amount,
    ) {
        Some(v) => v,
        None => {
            return Err(LendingError::MathOverflow);
        },
    };
    let new_available = match repay_reserve.liquidity_available_amount.checked_add(
        actual_repay_amount,
    ) {
        Some(v) => v,
        None => {
            return Err(LendingError::MathOverflow);
        },
    };

    match obligation.repay(liquidity_index, actual_settle_amount) {
        Ok(()) => {},
        Err(e) => {
            return Err(e);
        },
    }

    repay_reserve.liquidity_borrowed_amount_wads = new_borrowed;
    repay_reserve.liquidity_available_amount = new_available;
    repay_reserve.last_update_slot = current_slot;
    Ok((actual_repay_amount, actual_settle_amount))
}

/// The liquidation the request resolves to: the position must be past its
/// unhealthy threshold, must owe the repaid reserve and hold collateral
/// in the withdrawn one, and the calculator's amounts must be positive,
/// within the close factor -- the repaid value may not exceed half the
/// position's total borrowed value -- and applicable to the repaid
/// reserve's books.
pub open spec fn resolve_liquidation(
    obligation: Obligation,
    repay_reserve: Reserve,
    withdraw_reserve: Reserve,
    repay_reserve_key: Pubkey,
    withdraw_reserve_key: Pubkey,
    liquidity_amount: u64,
    current_slot: u64,
) -> Result<crate::calculators::LiquidationResult, LendingError> {
    if liquidity_amount == 0 {
        Err(LendingError::InvalidAmount)
    } else if obligation.last_update_slot != current_slot {
        Err(LendingError::ObligationStale)
    } else if repay_reserve.last_update_slot != current_slot {
        Err(LendingError::ReserveStale)
    } else if withdraw_reserve.last_update_slot != current_slot {
        Err(LendingError::ReserveStale)
    } else if !(obligation.borrowed_value > obligation.unhealthy_borrow_value) {
        Err(LendingError::ObligationHealthy)
    } else if !obligation.has_liquidity(repay_reserve_key) {
        Err(LendingError::ObligationLiquidityNotFound)
    } else {
        let liquidity = obligation.borrows@[crate::obligation::first_liquidity_index(
            obligation.borrows@,
            repay_reserve_key,
        )];
        if liquidity.borrowed_amount_wads == 0 {
            Err(LendingError::ObligationLiquidityEmpty)
        } else if !obligation.has_collateral(withdraw_reserve_key) {
            Err(LendingError::InvalidObligationCollateral)
        } else {
            let collateral = obligation.deposits@[crate::obligation::first_collateral_index(
                obligation.deposits@,
                withdraw_reserve_key,
            )];
            if collateral.deposited_amount == 0 {
                Err(LendingError::ObligationCollateralEmpty)
            } else {
                match crate::calculators::calculate_liquidation_result(
                    repay_reserve,
                    withdraw_reserve,
                    liquidity_amount,
                    liquidity,
                    collateral,
                    obligation,
                ) {
                    Err(e) => Err(e),
                    Ok(result) => if result.repay_amount == 0 {
                        Err(LendingError::LiquidationTooSmall)
                    } else if result.withdraw_collateral == 0 {
                        Err(LendingError::LiquidationTooSmall)
                    } else if result.repay_amount * repay_reserve.liquidity_market_price
                        > obligation.borrowed_value
                        * crate::calculators::LIQUIDATION_CLOSE_FACTOR_PCT / 100 {
                        Err(LendingError::LiquidationTooLarge)
                    } else if result.settle_amount_wads
                        > repay_reserve.liquidity_borrowed_amount_wads {
                        Err(LendingError::MathOverflow)
                    } else if repay_reserve.liquidity_available_amount + result.repay_amount
                        > u64::MAX {
                        Err(LendingError::MathOverflow)
                    } else {
                        Ok(result)
                    },
                }
            }
        }
    }
}

/// Liquidates an unhealthy obligation: the liquidator repays up to the
/// position's outstanding tokens on the repaid reserve and seizes
/// bonus-priced collateral from the withdrawn reserve.  Everything must
/// be refreshed in this very slot, and the repaid value may not exceed
/// the close factor's half of the position's total borrowed value.
/// Returns the resolved amounts; the caller transfers the repayment in
/// and the seized collateral out.  On any error the obligation and both
/// reserves are unchanged.
#[verifier::rlimit(60)]
pub fn liquidate_obligation(
    obligation: &mut Obligation,
    repay_reserve: &mut Reserve,
    withdraw_reserve: &Reserve,
    repay_reserve_key: Pubkey,
    withdraw_reserve_key: Pubkey,
    liquidity_amount: u64,
    current_slot: u64,
) -> (r: Result<crate::calculators::LiquidationResult, LendingError>)
    ensures
        (match resolve_liquidation(
            *old(obligation),
            *old(repay_reserve),
            *withdraw_reserve,
            repay_reserve_key,
            withdraw_reserve_key,
            liquidity_amount,
            current_slot,
        ) {
            Err(e) => r == Err::<crate::calculators::LiquidationResult, LendingError>(e) && *final(obligation) == *old(obligation) && *final(repay_reserve) == *old(repay_reserve),
            Ok(result) => {
                let liquidity_index = crate::obligation::first_liquidity_index(
                    old(obligation).borrows@,
                    repay_reserve_key,
                );
                let collateral_index = crate::obligation::first_collateral_index(
                    old(obligation).deposits@,
                    withdraw_reserve_key,
                );
                match old(obligation).repay_position_result(
                    liquidity_index as usize,
                    result.settle_amount_wads,
                ) {
                    Err(e) => r == Err::<crate::calculators::LiquidationResult, LendingError>(e)
                        && *final(obligation) == *old(obligation) && *final(repay_reserve) == *old(repay_reserve),
                    Ok(repaid) => {
                        let repaid_full = Obligation {
                            borrows: final(obligation).borrows,
                            ..repaid
                        };
                        match repaid_full.withdraw_result(
                            collateral_index as usize,
                            result.withdraw_collateral,
                        ) {
                            Err(e) => r == Err::<
                                crate::calculators::LiquidationResult,
                                LendingError,
                            >(e) && *final(obligation) == *old(obligation) && *final(repay_reserve)
                                == *old(repay_reserve),
                            Ok(withdrawn) => r == Ok::<
                                crate::calculators::LiquidationResult,
                                LendingError,
                            >(result) && *final(obligation) == (Obligation {
                                deposits: final(obligation).deposits,
                                borrows: final(obligation).borrows,
                                ..withdrawn
                            }) && final(obligation).borrows@ == old(obligation).repay_borrows(
                                liquidity_index as usize,
                                result.settle_amount_wads,
                            ) && final(obligation).deposits@ == repaid_full.withdraw_deposits(
                                collateral_index as usize,
                                result.withdraw_collateral,
                            ) && *final(repay_reserve) == (Reserve {
                                liquidity_borrowed_amount_wads: (old(repay_reserve).liquidity_borrowed_amount_wads - result.settle_amount_wads)
                                    as u128,
                                liquidity_available_amount: (old(repay_reserve).liquidity_available_amount + result.repay_amount) as u64,
                                ..*old(repay_reserve)
                            }),
                        }
                    },
                }
            },
        }),
{
    if liquidity_amount == 0 {
        return Err(LendingError::InvalidAmount);
    }
    if obligation.last_update_slot != current_slot {
        return Err(LendingError::ObligationStale);
    }
    if repay_reserve.last_update_slot != current_slot {
        return Err(LendingError::ReserveStale);
    }
    if withdraw_reserve.last_update_slot != current_slot {
        return Err(LendingError::ReserveStale);
    }
    if !(obligation.borrowed_value > obligation.unhealthy_borrow_value) {
        return Err(LendingError::ObligationHealthy);
    }

    let (liquidity, liquidity_index) = match obligation.find_liquidity(repay_reserve_key) {
        Ok(v) => v,
        Err(_) => {
            return Err(LendingError::ObligationLiquidityNotFound);
        },
    };
    proof {
        crate::obligation::lemma_first_liquidity_index_of(
            obligation.borrows@,
            repay_reserve_key,
            liquidity_index as int,
        );
    }
    if liquidity.borrowed_amount_wads == 0 {
        return Err(LendingError::ObligationLiquidityEmpty);
    }

    let (collateral, collateral_index) = match obligation.find_collateral(withdraw_reserve_key) {
        Ok(v) => v,
        Err(_) => {
            return Err(LendingError::InvalidObligationCollateral);
        },
    };
    proof {
        crate::obligation::lemma_first_collateral_index_of(
            obligation.deposits@,
            withdraw_reserve_key,
            collateral_index as int,
        );
    }
    if collateral.deposited_amount == 0 {
        return Err(LendingError::ObligationCollateralEmpty);
    }

    let liquidation_result = match crate::calculators::calculate_liquidation(
        repay_reserve,
        withdraw_reserve,
        liquidity_amount,
        &liquidity,
        &collateral,
        obligation,
    ) {
        Ok(v) => v,
        Err(e) => {
            return Err(e);
        },
    };
    if liquidation_result.repay_amount == 0 {
        return Err(LendingError::LiquidationTooSmall);
    }
    if liquidation_result.withdraw_collateral == 0 {
        return Err(LendingError::LiquidationTooSmall);
    }

    proof {
        assert(liquidation_result.repay_amount * repay_reserve.liquidity_market_price
            <= u128::MAX);
        assert(obligation.borrowed_value * crate::calculators::LIQUIDATION_CLOSE_FACTOR_PCT
            <= u128::MAX);
    }
    let repay_value = (liquidation_result.repay_amount as u128)
        * repay_reserve.liquidity_market_price;
    let max_liquidation_value = obligation.borrowed_value
        * crate::calculators::LIQUIDATION_CLOSE_FACTOR_PCT / 100;
    if repay_value > max_liquidation_value {
        return Err(LendingError::LiquidationTooLarge);
    }

    let new_borrowed = match repay_reserve.liquidity_borrowed_amount_wads.checked_sub(
        liquidation_result.settle_amount_wads,
    ) {
        Some(v) => v,
        None => {
            return Err(LendingError::MathOverflow);
        },
    };
    let new_available = match repay_reserve.liquidity_available_amount.checked_add(
        liquidation_result.repay_amount,
    ) {
        Some(v) => v,
        None => {
            return Err(LendingError::MathOverflow);
        },
    };

    let mut scratch = Obligation {
        deposits: clone_collateral_vec(&obligation.deposits),
        borrows: clone_liquidity_vec(&obligation.borrows),
        ..*obligation
    };
    match scratch.repay(liquidity_index, liquidation_result.settle_amount_wads) {
        Ok(()) => {},
        Err(e) => {
            return Err(e);
        },
    }
    match scratch.withdraw(collateral_index, liquidation_result.withdraw_collateral) {
        Ok(()) => {},
        Err(e) => {
            return Err(e);
        },
    }

    *obligation = scratch;
    repay_reserve.liquidity_borrowed_amount_wads = new_borrowed;
    repay_reserve.liquidity_available_amount = new_available;
    Ok(liquidation_result)
}

/// The borrow the request resolves to: freshness and deposit checks, the
/// remaining capacity, and the calculator's fee split, all before any
/// mutation.
pub open spec fn resolve_borrow(
    obligation: Obligation,
    borrow_reserve: Reserve,
    liquidity_amount: u64,
    current_slot: u64,
) -> Result<crate::calculators::CalculateBorrowResult, LendingError> {
    if liquidity_amount == 0 {
        Err(LendingError::InvalidAmount)
    } else if obligation.last_update_slot != current_slot {
        Err(LendingError::ObligationStale)
    } else if current_slot < borrow_reserve.last_update_slot {
        Err(LendingError::MathOverflow)
    } else if current_slot - borrow_reserve.last_update_slot > Reserve::MAX_STALE_SLOTS {
        Err(LendingError::ReserveStale)
    } else if obligation.deposits@.len() == 0 {
        Err(LendingError::ObligationDepositsEmpty)
    } else if obligation.deposited_value == 0 {
        Err(LendingError::ObligationDepositsZero)
    } else if obligation.allowed_borrow_value < obligation.borrowed_value {
        Err(LendingError::MathOverflow)
    } else if obligation.allowed_borrow_value == obligation.borrowed_value {
        Err(LendingError::BorrowTooLarge)
    } else {
        let remaining_borrow_value = (obligation.allowed_borrow_value
            - obligation.borrowed_value) as u128;
        match crate::calculators::calculate_borrow_result(
            borrow_reserve,
            liquidity_amount,
            remaining_borrow_value,
        ) {
            Err(e) => Err(e),
            Ok(borrow_result) => if borrow_result.receive_amount == 0 {
                Err(LendingError::BorrowTooSmall)
            } else if borrow_reserve.liquidity_borrowed_amount_wads
                + borrow_result.borrow_amount_wads > u128::MAX {
                Err(LendingError::MathOverflow)
            } else if borrow_reserve.liquidity_available_amount < liquidity_amount {
                Err(LendingError::InsufficientLiquidity)
            } else {
                Ok(borrow_result)
            },
        }
    }
}

/// The borrow records after the new debt is booked: the record for the
/// borrowed reserve grows by the WAD amount (a zero rate checkpoint is
/// repaired to the reserve's), or a fresh record is appended.
pub open spec fn borrow_updated_borrows(
    obligation: Obligation,
    borrow_reserve_key: Pubkey,
    borrow_amount_wads: u128,
    reserve_cumulative_borrow_rate_wads: u128,
) -> Seq<crate::obligation::ObligationLiquidity> {
    if obligation.has_liquidity(borrow_reserve_key) {
        let index = crate::obligation::first_liquidity_index(
            obligation.borrows@,
            borrow_reserve_key,
        );
        let record = obligation.borrows@[index];
        let grown = crate::obligation::ObligationLiquidity {
            borrowed_amount_wads: (record.borrowed_amount_wads + borrow_amount_wads) as u128,
            ..record
        };
        let repaired = if grown.cumulative_borrow_rate_wads == 0 {
            crate::obligation::ObligationLiquidity {
                cumulative_borrow_rate_wads: reserve_cumulative_borrow_rate_wads,
                ..grown
            }
        } else {
            grown
        };
        obligation.borrows@.update(index, repaired)
    } else {
        obligation.borrows@.push(
            crate::obligation::ObligationLiquidity {
                borrow_reserve: borrow_reserve_key,
                cumulative_borrow_rate_wads: WAD,
                borrowed_amount_wads: borrow_amount_wads,
                market_value: 0,
            },
        )
    }
}

/// Borrows liquidity against the obligation's collateral.  The obligation
/// must have been refreshed in this slot and the reserve must be within
/// its staleness window; the borrow's quote value must fit the remaining
/// capacity.  The debt is booked on the reserve and the position, the
/// whole obligation is strictly re-refreshed from the supplied reserve
/// accounts, and it must come out healthy.  Returns the resolved amounts;
/// the caller transfers the received tokens and the fees.  On any error
/// both the obligation and the reserve are unchanged.
#[verifier::rlimit(100)]
pub fn borrow_obligation_liquidity(
    obligation: &mut Obligation,
    borrow_reserve: &mut Reserve,
    borrow_reserve_key: Pubkey,
    reserve_accounts: &Vec<crate::refresh::KeyedReserve>,
    liquidity_amount: u64,
    current_slot: u64,
) -> (r: Result<crate::calculators::CalculateBorrowResult, LendingError>)
    requires
        old(obligation).wf(),
    ensures
        (match resolve_borrow(
            *old(obligation),
            *old(borrow_reserve),
            liquidity_amount,
            current_slot,
        ) {
            Err(e) => r == Err::<crate::calculators::CalculateBorrowResult, LendingError>(e)
                && *final(obligation) == *old(obligation) && *final(borrow_reserve) == *old(borrow_reserve),
            Ok(borrow_result) => {
                let known = old(obligation).has_liquidity(borrow_reserve_key);
                let index = crate::obligation::first_liquidity_index(
                    old(obligation).borrows@,
                    borrow_reserve_key,
                );
                if known && old(obligation).borrows@[index].borrowed_amount_wads
                    + borrow_result.borrow_amount_wads > u128::MAX {
                    r == Err::<crate::calculators::CalculateBorrowResult, LendingError>(
                        LendingError::MathOverflow,
                    ) && *final(obligation) == *old(obligation) && *final(borrow_reserve) == *old(borrow_reserve)
                } else if !known && old(obligation).deposits@.len() + old(obligation).borrows@.len() >= MAX_OBLIGATION_RESERVES {
                    r == Err::<crate::calculators::CalculateBorrowResult, LendingError>(
                        LendingError::ObligationReserveLimit,
                    ) && *final(obligation) == *old(obligation) && *final(borrow_reserve) == *old(borrow_reserve)
                } else {
                    let new_borrows = borrow_updated_borrows(
                        *old(obligation),
                        borrow_reserve_key,
                        borrow_result.borrow_amount_wads,
                        old(borrow_reserve).liquidity_cumulative_borrow_rate_wads,
                    );
                    if reserve_accounts@.len() != old(obligation).deposits@.len()
                        + new_borrows.len() {
                        r == Err::<crate::calculators::CalculateBorrowResult, LendingError>(
                            LendingError::InvalidReserveCount,
                        ) && *final(obligation) == *old(obligation) && *final(borrow_reserve)
                            == *old(borrow_reserve)
                    } else {
                        match crate::refresh::strict_collaterals_result(
                            old(obligation).deposits@,
                            reserve_accounts@.subrange(0, old(obligation).deposits@.len() as int),
                            current_slot,
                        ) {
                            Err(e) => r == Err::<
                                crate::calculators::CalculateBorrowResult,
                                LendingError,
                            >(e) && *final(obligation) == *old(obligation) && *final(borrow_reserve) == *old(borrow_reserve),
                            Ok((new_deposits, deposit_totals)) => match crate::refresh::strict_borrows_result(
                                new_borrows,
                                reserve_accounts@.subrange(
                                    old(obligation).deposits@.len() as int,
                                    reserve_accounts@.len() as int,
                                ),
                                current_slot,
                            ) {
                                Err(e) => r == Err::<
                                    crate::calculators::CalculateBorrowResult,
                                    LendingError,
                                >(e) && *final(obligation) == *old(obligation) && *final(borrow_reserve) == *old(borrow_reserve),
                                Ok((refreshed_borrows, borrowed_total)) => if !(borrowed_total
                                    <= deposit_totals.2) {
                                    r == Err::<
                                        crate::calculators::CalculateBorrowResult,
                                        LendingError,
                                    >(LendingError::ObligationUnhealthy) && *final(obligation)
                                        == *old(obligation) && *final(borrow_reserve) == *old(borrow_reserve)
                                } else {
                                    r == Ok::<
                                        crate::calculators::CalculateBorrowResult,
                                        LendingError,
                                    >(borrow_result) && final(obligation).deposits@ == new_deposits
                                        && final(obligation).borrows@ == refreshed_borrows && final(obligation).deposited_value == deposit_totals.0 && final(obligation).allowed_borrow_value == deposit_totals.1 && final(obligation).unhealthy_borrow_value == deposit_totals.2 && final(obligation).borrowed_value == borrowed_total && final(obligation).last_update_slot == current_slot && final(obligation).owner
                                        == old(obligation).owner && final(obligation).lending_market
                                        == old(obligation).lending_market && final(obligation).version == old(obligation).version && *final(borrow_reserve)
                                        == (Reserve {
                                        liquidity_borrowed_amount_wads: (old(borrow_reserve).liquidity_borrowed_amount_wads
                                            + borrow_result.borrow_amount_wads) as u128,
                                        liquidity_available_amount: (old(borrow_reserve).liquidity_available_amount - liquidity_amount) as u64,
                                        last_update_slot: (if old(borrow_reserve).last_update_slot
                                            >= Reserve::MAX_STALE_SLOTS + 1 {
                                            (old(borrow_reserve).last_update_slot - (
                                            Reserve::MAX_STALE_SLOTS + 1)) as u64
                                        } else {
                                            0u64
                                        }),
                                        ..*old(borrow_reserve)
                                    })
                                },
                            },
                        }
                    }
                }
            },
        }),
{
    if liquidity_amount == 0 {
        return Err(LendingError::InvalidAmount);
    }
    if obligation.last_update_slot != current_slot {
        return Err(LendingError::ObligationStale);
    }
    let stale = match borrow_reserve.is_stale(current_slot) {
        Ok(v) => v,
        Err(e) => {
            return Err(e);
        },
    };
    if stale {
        return Err(LendingError::ReserveStale);
    }
    if obligation.deposits_len() == 0 {
        return Err(LendingError::ObligationDepositsEmpty);
    }
    if obligation.deposited_value == 0 {
        return Err(LendingError::ObligationDepositsZero);
    }
    let remaining_borrow_value = match obligation.remaining_borrow_value() {
        Ok(v) => v,
        Err(e) => {
            return Err(e);
        },
    };
    if remaining_borrow_value == 0 {
        return Err(LendingError::BorrowTooLarge);
    }

    let borrow_result = match crate::calculators::calculate_borrow(
        borrow_reserve,
        liquidity_amount,
        remaining_borrow_value,
    ) {
        Ok(v) => v,
        Err(e) => {
            return Err(e);
        },
    };
    if borrow_result.receive_amount == 0 {
        return Err(LendingError::BorrowTooSmall);
    }

    let new_reserve_borrowed = match borrow_reserve.liquidity_borrowed_amount_wads.checked_add(
        borrow_result.borrow_amount_wads,
    ) {
        Some(v) => v,
        None => {
            return Err(LendingError::MathOverflow);
        },
    };
    if borrow_reserve.liquidity_available_amount < liquidity_amount {
        return Err(LendingError::InsufficientLiquidity);
    }

    let mut scratch = Obligation {
        deposits: clone_collateral_vec(&obligation.deposits),
        borrows: clone_liquidity_vec(&obligation.borrows),
        ..*obligation
    };
    let borrow_index = match scratch.find_or_add_liquidity(borrow_reserve_key) {
        Ok(i) => i,
        Err(e) => {
            return Err(e);
        },
    };
    proof {
        if old(obligation).has_liquidity(borrow_reserve_key) {
            crate::obligation::lemma_first_liquidity_index_of(
                old(obligation).borrows@,
                borrow_reserve_key,
                borrow_index as int,
            );
        }
    }
    let (record, _) = match scratch.find_liquidity_by_index(borrow_index) {
        Ok(v) => v,
        Err(e) => {
            return Err(e);
        },
    };
    let mut updated = record;
    match updated.borrow(borrow_result.borrow_amount_wads) {
        Ok(()) => {},
        Err(e) => {
            return Err(e);
        },
    }
    if updated.cumulative_borrow_rate_wads == 0 {
        updated.cumulative_borrow_rate_wads = borrow_reserve.liquidity_cumulative_borrow_rate_wads;
    }
    match scratch.update_liquidity(borrow_index, updated) {
        Ok(()) => {},
        Err(e) => {
            return Err(e);
        },
    }
    proof {
        assert(scratch.borrows@ =~= borrow_updated_borrows(
            *old(obligation),
            borrow_reserve_key,
            borrow_result.borrow_amount_wads,
            old(borrow_reserve).liquidity_cumulative_borrow_rate_wads,
        ));
    }

    let expected_deposits = scratch.deposits_len();
    let expected_borrows = scratch.borrows_len();
    if reserve_accounts.len() < expected_deposits || reserve_accounts.len() - expected_deposits
        != expected_borrows {
        return Err(LendingError::InvalidReserveCount);
    }

    match crate::refresh::refresh_obligation_internal(
        &mut scratch,
        reserve_accounts,
        current_slot,
    ) {
        Ok(()) => {},
        Err(e) => {
            return Err(e);
        },
    }
    match scratch.verify_healthy() {
        Ok(()) => {},
        Err(e) => {
            return Err(e);
        },
    }

    borrow_reserve.liquidity_borrowed_amount_wads = new_reserve_borrowed;
    borrow_reserve.liquidity_available_amount = borrow_reserve.liquidity_available_amount
        - liquidity_amount;
    borrow_reserve.mark_stale();
    *obligation = scratch;
    Ok(borrow_result)
}

} // verus!
