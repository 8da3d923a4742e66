//! Pure calculators for the three money-moving operations: borrow, repay
//! and liquidation.  Each takes already-refreshed state and returns the
//! amounts the caller must then apply and transfer.

use vstd::prelude::*;

use vstd::arithmetic::mul::lemma_mul_inequality;

use crate::errors::LendingError;
use crate::obligation::{Obligation, ObligationCollateral, ObligationLiquidity};
use crate::oracle::{lemma_pow10_pos, pow10};
use crate::reserve::Reserve;
use crate::WAD;

verus! {

/// Amounts resolved for a borrow.
#[derive(Clone, Copy, Debug, PartialEq, Eq, Structural)]
pub struct CalculateBorrowResult {
    /// Debt added to the reserve and the obligation, WAD-scaled.
    pub borrow_amount_wads: u128,
    /// Tokens the borrower receives: the amount less the borrow fee.
    pub receive_amount: u64,
    /// Total borrow fee in tokens.
    pub borrow_fee: u64,
    /// Share of the fee owed to the host.
    pub host_fee: u64,
    /// Share of the fee owed to the market owner.
    pub owner_fee: u64,
}

/// Value of `amount` tokens at `price`, in quote units: one division by
/// `10^decimals` after the multiplication.
pub open spec fn market_value_spec(amount: int, price: int, decimals: u8) -> int {
    amount * price / pow10(decimals as nat)
}

/// What `calculate_borrow` returns: the borrow is priced in quote units
/// and must fit in the remaining capacity; the fee schedule splits the
/// borrow fee between host and owner, and a borrow the fee would consume
/// entirely is rejected.
pub open spec fn calculate_borrow_result(
    reserve: Reserve,
    liquidity_amount: u64,
    remaining_borrow_value: u128,
) -> Result<CalculateBorrowResult, LendingError> {
    if reserve.liquidity_available_amount < liquidity_amount {
        Err(LendingError::InsufficientLiquidity)
    } else if pow10(reserve.liquidity_mint_decimals as nat) > u128::MAX {
        Err(LendingError::MathOverflow)
    } else if liquidity_amount * reserve.liquidity_market_price > u128::MAX {
        Err(LendingError::MathOverflow)
    } else if market_value_spec(
        liquidity_amount as int,
        reserve.liquidity_market_price as int,
        reserve.liquidity_mint_decimals,
    ) > remaining_borrow_value {
        Err(LendingError::BorrowTooLarge)
    } else if liquidity_amount * reserve.config.fees.borrow_fee_wad > u128::MAX {
        Err(LendingError::MathOverflow)
    } else {
        let borrow_fee = liquidity_amount * reserve.config.fees.borrow_fee_wad / (WAD as int);
        if borrow_fee > u64::MAX {
            Err(LendingError::MathOverflow)
        } else {
            let host_fee = borrow_fee * reserve.config.fees.host_fee_percentage / 100;
            if host_fee > u64::MAX {
                Err(LendingError::MathOverflow)
            } else if host_fee > borrow_fee {
                Err(LendingError::MathOverflow)
            } else if borrow_fee > liquidity_amount {
                Err(LendingError::MathOverflow)
            } else if borrow_fee == liquidity_amount {
                Err(LendingError::BorrowTooSmall)
            } else {
                Ok(
                    CalculateBorrowResult {
                        borrow_amount_wads: (liquidity_amount * WAD) as u128,
                        receive_amount: (liquidity_amount - borrow_fee) as u64,
                        borrow_fee: borrow_fee as u64,
                        host_fee: host_fee as u64,
                        owner_fee: (borrow_fee - host_fee) as u64,
                    },
                )
            }
        }
    }
}

/// Prices a requested borrow against the reserve's oracle price and the
/// obligation's remaining capacity, and resolves the fee split.  Rejects a
/// borrow whose quote value exceeds `remaining_borrow_value`, one the
/// reserve cannot fund, and one whose fee would leave the borrower with
/// nothing.
pub fn calculate_borrow(
    reserve: &Reserve,
    liquidity_amount: u64,
    remaining_borrow_value: u128,
) -> (r: Result<CalculateBorrowResult, LendingError>)
    ensures
        r == calculate_borrow_result(*reserve, liquidity_amount, remaining_borrow_value),
{
    if reserve.liquidity_available_amount < liquidity_amount {
        return Err(LendingError::InsufficientLiquidity);
    }

    let decimals = match crate::oracle::checked_pow10(reserve.liquidity_mint_decimals as u32) {
        Ok(v) => v,
        Err(e) => {
            return Err(e);
        },
    };
    proof {
        lemma_pow10_pos(reserve.liquidity_mint_decimals as nat);
    }

    let value_scaled = match (liquidity_amount as u128).checked_mul(
        reserve.liquidity_market_price,
    ) {
        Some(v) => v,
        None => {
            return Err(LendingError::MathOverflow);
        },
    };
    let borrow_value = value_scaled / decimals;
    if borrow_value > remaining_borrow_value {
        return Err(LendingError::BorrowTooLarge);
    }

    let fee_scaled = match (liquidity_amount as u128).checked_mul(
        reserve.config.fees.borrow_fee_wad as u128,
    ) {
        Some(v) => v,
        None => {
            return Err(LendingError::MathOverflow);
        },
    };
    let borrow_fee_wide = fee_scaled / WAD;
    if borrow_fee_wide > u64::MAX as u128 {
        return Err(LendingError::MathOverflow);
    }
    let borrow_fee = borrow_fee_wide as u64;

    proof {
        vstd::arithmetic::mul::lemma_mul_upper_bound(
            borrow_fee as int,
            u64::MAX as int,
            reserve.config.fees.host_fee_percentage as int,
            255,
        );
    }
    let host_fee_wide = ((borrow_fee as u128) * (reserve.config.fees.host_fee_percentage as u128))
        / 100;
    if host_fee_wide > u64::MAX as u128 {
        return Err(LendingError::MathOverflow);
    }
    let host_fee = host_fee_wide as u64;

    let owner_fee = match borrow_fee.checked_sub(host_fee) {
        Some(v) => v,
        None => {
            return Err(LendingError::MathOverflow);
        },
    };
    let receive_amount = match liquidity_amount.checked_sub(borrow_fee) {
        Some(v) => v,
        None => {
            return Err(LendingError::MathOverflow);
        },
    };
    if receive_amount == 0 {
        return Err(LendingError::BorrowTooSmall);
    }

    proof {
        lemma_mul_inequality(liquidity_amount as int, u64::MAX as int, WAD as int);
    }
    let borrow_amount_wads = (liquidity_amount as u128) * WAD;

    Ok(
        CalculateBorrowResult {
            borrow_amount_wads,
            receive_amount,
            borrow_fee,
            host_fee,
            owner_fee,
        },
    )
}

/// Amounts resolved for a repayment.
#[derive(Clone, Copy, Debug, PartialEq, Eq, Structural)]
pub struct CalculateRepayResult {
    /// Debt settled, WAD-scaled.
    pub settle_amount_wads: u128,
    /// Tokens the borrower must transfer.
    pub repay_amount: u64,
}

/// What `calculate_repay` returns.  Offering `u64::MAX` or at least the
/// ceiling of the debt in tokens settles the entire debt for exactly that
/// ceiling; anything less settles the offered amount, capped at the debt.
pub open spec fn calculate_repay_result(liquidity_amount: u64, borrowed_amount_wads: u128)
    -> Result<CalculateRepayResult, LendingError> {
    if borrowed_amount_wads + (WAD - 1) > u128::MAX {
        Err(LendingError::MathOverflow)
    } else {
        let tokens_needed_for_full_repay = (borrowed_amount_wads + (WAD - 1)) / (WAD as int);
        if liquidity_amount == u64::MAX || liquidity_amount >= tokens_needed_for_full_repay {
            if tokens_needed_for_full_repay > u64::MAX {
                Err(LendingError::MathOverflow)
            } else {
                Ok(
                    CalculateRepayResult {
                        settle_amount_wads: borrowed_amount_wads,
                        repay_amount: tokens_needed_for_full_repay as u64,
                    },
                )
            }
        } else {
            let settle_amount_wads = if liquidity_amount * WAD <= borrowed_amount_wads {
                liquidity_amount * WAD
            } else {
                borrowed_amount_wads as int
            };
            if settle_amount_wads == 0 {
                Err(LendingError::InvalidAmount)
            } else {
                Ok(
                    CalculateRepayResult {
                        settle_amount_wads: settle_amount_wads as u128,
                        repay_amount: liquidity_amount,
                    },
                )
            }
        }
    }
}

/// Resolves how much of a debt a repayment offer settles.  `u64::MAX`
/// stands for "repay everything"; so does any offer covering the ceiling
/// of the debt in tokens, and either one settles the full WAD debt.
pub fn calculate_repay(_reserve: &Reserve, liquidity_amount: u64, borrowed_amount_wads: u128) -> (r:
    Result<CalculateRepayResult, LendingError>)
    ensures
        r == calculate_repay_result(liquidity_amount, borrowed_amount_wads),
{
    let rounded = match borrowed_amount_wads.checked_add(WAD - 1) {
        Some(v) => v,
        None => {
            return Err(LendingError::MathOverflow);
        },
    };
    let tokens_needed_for_full_repay = rounded / WAD;

    if liquidity_amount == u64::MAX || (liquidity_amount as u128) >= tokens_needed_for_full_repay {
        if tokens_needed_for_full_repay > u64::MAX as u128 {
            return Err(LendingError::MathOverflow);
        }
        return Ok(
            CalculateRepayResult {
                settle_amount_wads: borrowed_amount_wads,
                repay_amount: tokens_needed_for_full_repay as u64,
            },
        );
    }

    proof {
        lemma_mul_inequality(liquidity_amount as int, u64::MAX as int, WAD as int);
    }
    let repay_wads = (liquidity_amount as u128) * WAD;
    let settle_amount_wads = if repay_wads <= borrowed_amount_wads {
        repay_wads
    } else {
        borrowed_amount_wads
    };
    if settle_amount_wads == 0 {
        return Err(LendingError::InvalidAmount);
    }
    Ok(CalculateRepayResult { settle_amount_wads, repay_amount: liquidity_amount })
}

/// Amounts resolved for a liquidation.
#[derive(Clone, Copy, Debug, PartialEq, Eq, Structural)]
pub struct LiquidationResult {
    /// Debt settled on the repaid reserve, WAD-scaled.
    pub settle_amount_wads: u128,
    /// Tokens the liquidator transfers to the repaid reserve.
    pub repay_amount: u64,
    /// Collateral receipts seized from the obligation for the liquidator.
    pub withdraw_collateral: u64,
}

/// What `calculate_liquidation` returns: the repayment is capped at the
/// position's outstanding tokens, and the seized collateral is the repaid
/// value marked up by the liquidation bonus, priced in the withdrawn
/// reserve's token and capped at the collateral on deposit.
pub open spec fn calculate_liquidation_result(
    repay_reserve: Reserve,
    withdraw_reserve: Reserve,
    liquidity_amount: u64,
    liquidity: ObligationLiquidity,
    collateral: ObligationCollateral,
    obligation: Obligation,
) -> Result<LiquidationResult, LendingError> {
    if obligation.borrowed_value * LIQUIDATION_CLOSE_FACTOR_PCT > u128::MAX {
        Err(LendingError::MathOverflow)
    } else {
        let outstanding_tokens = liquidity.borrowed_amount_wads / WAD;
        if outstanding_tokens > u64::MAX {
            Err(LendingError::MathOverflow)
        } else {
            let repay_amount = if liquidity_amount <= outstanding_tokens {
                liquidity_amount as int
            } else {
                outstanding_tokens as int
            };
            let settle_amount_wads = if repay_amount * WAD <= liquidity.borrowed_amount_wads {
                repay_amount * WAD
            } else {
                liquidity.borrowed_amount_wads as int
            };
            let bonus_rate = 100 + withdraw_reserve.config.liquidation_bonus;
            if repay_amount * repay_reserve.liquidity_market_price > u128::MAX {
                Err(LendingError::MathOverflow)
            } else {
                let repay_value = repay_amount * repay_reserve.liquidity_market_price;
                if repay_value * bonus_rate > u128::MAX {
                    Err(LendingError::MathOverflow)
                } else {
                    let collateral_value_with_bonus = repay_value * bonus_rate / 100;
                    if withdraw_reserve.liquidity_market_price == 0 {
                        Err(LendingError::InvalidOracleConfig)
                    } else {
                        let seized = collateral_value_with_bonus / (
                        withdraw_reserve.liquidity_market_price as int);
                        if seized > u64::MAX {
                            Err(LendingError::MathOverflow)
                        } else {
                            let withdraw_collateral = if seized <= collateral.deposited_amount {
                                seized
                            } else {
                                collateral.deposited_amount as int
                            };
                            Ok(
                                LiquidationResult {
                                    settle_amount_wads: settle_amount_wads as u128,
                                    repay_amount: repay_amount as u64,
                                    withdraw_collateral: withdraw_collateral as u64,
                                },
                            )
                        }
                    }
                }
            }
        }
    }
}

/// Maximum share of an obligation's borrowed value one liquidation may
/// repay, in percent.
pub const LIQUIDATION_CLOSE_FACTOR_PCT: u128 = 50;

/// Resolves a liquidation: how many tokens the liquidator repays, how much
/// WAD debt that settles, and how much collateral the liquidator seizes at
/// the bonus rate.  The close-factor cap on the repaid value is computed
/// against the obligation's total borrowed value; enforcing it against the
/// resolved repayment is the caller's duty.  Fails on a zero price for the
/// withdrawn reserve.
pub fn calculate_liquidation(
    repay_reserve: &Reserve,
    withdraw_reserve: &Reserve,
    liquidity_amount: u64,
    liquidity: &ObligationLiquidity,
    collateral: &ObligationCollateral,
    obligation: &Obligation,
) -> (r: Result<LiquidationResult, LendingError>)
    ensures
        r == calculate_liquidation_result(
            *repay_reserve,
            *withdraw_reserve,
            liquidity_amount,
            *liquidity,
            *collateral,
            *obligation,
        ),
{
    let _max_liquidation_value = match obligation.borrowed_value.checked_mul(
        LIQUIDATION_CLOSE_FACTOR_PCT,
    ) {
        Some(v) => v / 100,
        None => {
            return Err(LendingError::MathOverflow);
        },
    };

    let outstanding_tokens = liquidity.borrowed_amount_wads / WAD;
    if outstanding_tokens > u64::MAX as u128 {
        return Err(LendingError::MathOverflow);
    }
    let repay_amount = if liquidity_amount as u128 <= outstanding_tokens {
        liquidity_amount
    } else {
        outstanding_tokens as u64
    };

    proof {
        lemma_mul_inequality(repay_amount as int, u64::MAX as int, WAD as int);
    }
    let repay_wads = (repay_amount as u128) * WAD;
    let settle_amount_wads = if repay_wads <= liquidity.borrowed_amount_wads {
        repay_wads
    } else {
        liquidity.borrowed_amount_wads
    };

    let bonus_rate = 100u128 + (withdraw_reserve.config.liquidation_bonus as u128);

    let repay_value = match (repay_amount as u128).checked_mul(
        repay_reserve.liquidity_market_price,
    ) {
        Some(v) => v,
        None => {
            return Err(LendingError::MathOverflow);
        },
    };

    let collateral_value_with_bonus = match repay_value.checked_mul(bonus_rate) {
        Some(v) => v / 100,
        None => {
            return Err(LendingError::MathOverflow);
        },
    };

    if withdraw_reserve.liquidity_market_price == 0 {
        return Err(LendingError::InvalidOracleConfig);
    }
    let seized = collateral_value_with_bonus / withdraw_reserve.liquidity_market_price;
    if seized > u64::MAX as u128 {
        return Err(LendingError::MathOverflow);
    }

    let withdraw_collateral = if seized <= collateral.deposited_amount as u128 {
        seized as u64
    } else {
        collateral.deposited_amount
    };

    Ok(LiquidationResult { settle_amount_wads, repay_amount, withdraw_collateral })
}

} // verus!
