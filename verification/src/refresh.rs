//! The refresh protocol: revalues every position of an obligation from its
//! reserves' freshly updated prices and rates, and rebuilds the four
//! aggregate values.  A refresh is all-or-nothing: any stale or mismatched
//! reserve aborts it with the obligation unchanged.

use vstd::prelude::*;

use crate::errors::LendingError;
use crate::keys::Pubkey;
use crate::obligation::{Obligation, ObligationCollateral, ObligationLiquidity};
use crate::oracle::{checked_pow10, lemma_pow10_pos, pow10};
use crate::reserve::Reserve;
use crate::WAD;

verus! {

/// A reserve together with the key of the account it was read from, for
/// paths that must verify each reserve against the position it prices.
#[derive(Clone, Copy, Debug)]
pub struct KeyedReserve {
    /// Address of the reserve account.
    pub key: Pubkey,
    /// The deserialized reserve.
    pub reserve: Reserve,
}

/// The three values a collateral refresh contributes to the aggregates.
#[derive(Clone, Copy, Debug, PartialEq, Eq, Structural)]
pub struct CollateralRefreshResult {
    /// Value of the collateral in quote units.
    pub market_value: u128,
    /// Its contribution to the borrow limit, by the reserve's
    /// loan-to-value ratio.
    pub allowed_borrow_value: u128,
    /// Its contribution to the liquidation threshold.
    pub unhealthy_borrow_value: u128,
}

/// Revalues one collateral record against its reserve: the deposited
/// receipts are converted to liquidity at the exchange rate, priced with
/// one division by `10^decimals`, and scaled by the loan-to-value ratio
/// and the liquidation threshold.
pub open spec fn value_collateral_result(
    collateral: ObligationCollateral,
    reserve: Reserve,
) -> Result<(ObligationCollateral, CollateralRefreshResult), LendingError> {
    match reserve.collateral_to_liquidity_result(collateral.deposited_amount) {
        Err(e) => Err(e),
        Ok(liquidity_amount) => if pow10(reserve.liquidity_mint_decimals as nat) > u128::MAX {
            Err(LendingError::MathOverflow)
        } else if reserve.liquidity_market_price * liquidity_amount > u128::MAX {
            Err(LendingError::MathOverflow)
        } else {
            let market_value = reserve.liquidity_market_price * liquidity_amount / pow10(
                reserve.liquidity_mint_decimals as nat,
            );
            if market_value * reserve.config.loan_to_value_ratio > u128::MAX {
                Err(LendingError::MathOverflow)
            } else {
                let allowed_borrow_value = market_value * reserve.config.loan_to_value_ratio / 100;
                if market_value * reserve.config.liquidation_threshold > u128::MAX {
                    Err(LendingError::MathOverflow)
                } else {
                    let unhealthy_borrow_value = market_value
                        * reserve.config.liquidation_threshold / 100;
                    Ok(
                        (
                            ObligationCollateral { market_value: market_value as u128, ..collateral },
                            CollateralRefreshResult {
                                market_value: market_value as u128,
                                allowed_borrow_value: allowed_borrow_value as u128,
                                unhealthy_borrow_value: unhealthy_borrow_value as u128,
                            },
                        ),
                    )
                }
            }
        },
    }
}

/// Revalues one collateral record; pure compute shared by every refresh
/// path.
fn value_collateral(collateral: &ObligationCollateral, reserve: &Reserve) -> (r: Result<
    (ObligationCollateral, CollateralRefreshResult),
    LendingError,
>)
    ensures
        r == value_collateral_result(*collateral, *reserve),
{
    let liquidity_amount = match reserve.collateral_to_liquidity(collateral.deposited_amount) {
        Ok(v) => v,
        Err(e) => {
            return Err(e);
        },
    };
    let decimals = match checked_pow10(reserve.liquidity_mint_decimals as u32) {
        Ok(v) => v,
        Err(e) => {
            return Err(e);
        },
    };
    proof {
        lemma_pow10_pos(reserve.liquidity_mint_decimals as nat);
    }
    let scaled = match reserve.liquidity_market_price.checked_mul(liquidity_amount as u128) {
        Some(v) => v,
        None => {
            return Err(LendingError::MathOverflow);
        },
    };
    let market_value = scaled / decimals;

    let allowed_borrow_value = match market_value.checked_mul(
        reserve.config.loan_to_value_ratio as u128,
    ) {
        Some(v) => v / 100,
        None => {
            return Err(LendingError::MathOverflow);
        },
    };
    let unhealthy_borrow_value = match market_value.checked_mul(
        reserve.config.liquidation_threshold as u128,
    ) {
        Some(v) => v / 100,
        None => {
            return Err(LendingError::MathOverflow);
        },
    };
    Ok(
        (
            ObligationCollateral { market_value, ..*collateral },
            CollateralRefreshResult { market_value, allowed_borrow_value, unhealthy_borrow_value },
        ),
    )
}

/// Compounds a borrow record up to the reserve's cumulative rate whenever
/// the two differ, exactly as the refresh path does: the debt is scaled by
/// `new_rate / checkpoint` and the checkpoint advances.
pub open spec fn accrue_window_result(
    liquidity: ObligationLiquidity,
    cumulative_borrow_rate_wads: u128,
) -> Result<ObligationLiquidity, LendingError> {
    if cumulative_borrow_rate_wads == liquidity.cumulative_borrow_rate_wads {
        Ok(liquidity)
    } else if cumulative_borrow_rate_wads * WAD > u128::MAX
        || liquidity.cumulative_borrow_rate_wads == 0 {
        Err(LendingError::MathOverflow)
    } else {
        let compounded_rate = cumulative_borrow_rate_wads * WAD / (
        liquidity.cumulative_borrow_rate_wads as int);
        if liquidity.borrowed_amount_wads * compounded_rate > u128::MAX {
            Err(LendingError::MathOverflow)
        } else {
            Ok(
                ObligationLiquidity {
                    borrowed_amount_wads: (liquidity.borrowed_amount_wads * compounded_rate / (
                    WAD as int)) as u128,
                    cumulative_borrow_rate_wads: cumulative_borrow_rate_wads,
                    ..liquidity
                },
            )
        }
    }
}

/// Prices one borrow record: the WAD debt is valued at the reserve's
/// price, with one division by WAD and one by `10^decimals`.
pub open spec fn price_liquidity_result(
    liquidity: ObligationLiquidity,
    reserve: Reserve,
) -> Result<ObligationLiquidity, LendingError> {
    if pow10(reserve.liquidity_mint_decimals as nat) > u128::MAX {
        Err(LendingError::MathOverflow)
    } else if liquidity.borrowed_amount_wads * reserve.liquidity_market_price > u128::MAX {
        Err(LendingError::MathOverflow)
    } else {
        let market_value = liquidity.borrowed_amount_wads * reserve.liquidity_market_price / (
        WAD as int) / pow10(reserve.liquidity_mint_decimals as nat);
        Ok(ObligationLiquidity { market_value: market_value as u128, ..liquidity })
    }
}

/// Accrues and prices one borrow record against its reserve, as the
/// windowed refresh path does.
pub open spec fn value_liquidity_result(
    liquidity: ObligationLiquidity,
    reserve: Reserve,
) -> Result<ObligationLiquidity, LendingError> {
    match accrue_window_result(liquidity, reserve.liquidity_cumulative_borrow_rate_wads) {
        Err(e) => Err(e),
        Ok(accrued) => price_liquidity_result(accrued, reserve),
    }
}

/// Prices one borrow record; pure compute shared by every refresh path.
fn price_liquidity(liquidity: &ObligationLiquidity, reserve: &Reserve) -> (r: Result<
    ObligationLiquidity,
    LendingError,
>)
    ensures
        r == price_liquidity_result(*liquidity, *reserve),
{
    let decimals = match checked_pow10(reserve.liquidity_mint_decimals as u32) {
        Ok(v) => v,
        Err(e) => {
            return Err(e);
        },
    };
    proof {
        lemma_pow10_pos(reserve.liquidity_mint_decimals as nat);
    }
    let scaled = match liquidity.borrowed_amount_wads.checked_mul(reserve.liquidity_market_price) {
        Some(v) => v,
        None => {
            return Err(LendingError::MathOverflow);
        },
    };
    let market_value = scaled / WAD / decimals;
    Ok(ObligationLiquidity { market_value, ..*liquidity })
}

/// Accrues and prices one borrow record; pure compute for the windowed
/// refresh path.
fn value_liquidity(liquidity: &ObligationLiquidity, reserve: &Reserve) -> (r: Result<
    ObligationLiquidity,
    LendingError,
>)
    ensures
        r == value_liquidity_result(*liquidity, *reserve),
{
    let accrued: ObligationLiquidity = if reserve.liquidity_cumulative_borrow_rate_wads
        != liquidity.cumulative_borrow_rate_wads {
        let scaled = match reserve.liquidity_cumulative_borrow_rate_wads.checked_mul(WAD) {
            Some(v) => v,
            None => {
                return Err(LendingError::MathOverflow);
            },
        };
        let compounded_rate = match scaled.checked_div(liquidity.cumulative_borrow_rate_wads) {
            Some(v) => v,
            None => {
                return Err(LendingError::MathOverflow);
            },
        };
        match liquidity.borrowed_amount_wads.checked_mul(compounded_rate) {
            Some(v) => ObligationLiquidity {
                borrowed_amount_wads: v / WAD,
                cumulative_borrow_rate_wads: reserve.liquidity_cumulative_borrow_rate_wads,
                ..*liquidity
            },
            None => {
                return Err(LendingError::MathOverflow);
            },
        }
    } else {
        *liquidity
    };
    price_liquidity(&accrued, reserve)
}

/// Requires a reserve refreshed at most one slot ago: the tight freshness
/// bound of the whole-obligation refresh path.
pub fn verify_reserve_freshness(reserve: &Reserve, current_slot: u64) -> (r: Result<
    (),
    LendingError,
>)
    ensures
        (reserve.last_update_slot + 1 >= current_slot) <==> r is Ok,
        r is Err ==> r == Err::<(), LendingError>(LendingError::ReserveStale),
{
    let lower_bound = if current_slot >= 1 {
        current_slot - 1
    } else {
        0
    };
    if reserve.last_update_slot >= lower_bound {
        Ok(())
    } else {
        Err(LendingError::ReserveStale)
    }
}

/// One collateral record under the windowed refresh: the reserve must be
/// within the staleness window, then the record is revalued.
pub open spec fn one_collateral_result(
    collateral: ObligationCollateral,
    reserve: Reserve,
    current_slot: u64,
) -> Result<(ObligationCollateral, CollateralRefreshResult), LendingError> {
    if current_slot < reserve.last_update_slot {
        Err(LendingError::MathOverflow)
    } else if current_slot - reserve.last_update_slot > Reserve::MAX_STALE_SLOTS {
        Err(LendingError::ReserveStale)
    } else {
        value_collateral_result(collateral, reserve)
    }
}

/// One borrow record under the windowed refresh.
pub open spec fn one_liquidity_result(
    liquidity: ObligationLiquidity,
    reserve: Reserve,
    current_slot: u64,
) -> Result<ObligationLiquidity, LendingError> {
    if current_slot < reserve.last_update_slot {
        Err(LendingError::MathOverflow)
    } else if current_slot - reserve.last_update_slot > Reserve::MAX_STALE_SLOTS {
        Err(LendingError::ReserveStale)
    } else {
        value_liquidity_result(liquidity, reserve)
    }
}

/// Refreshes the collateral record at `collateral_index` from its reserve
/// and returns its new market value and aggregate contributions.  The
/// reserve must be within the staleness window.  On any error the
/// obligation is unchanged.
pub fn refresh_collateral(
    obligation: &mut Obligation,
    collateral_index: usize,
    deposit_reserve: &Reserve,
    current_slot: u64,
) -> (r: Result<CollateralRefreshResult, LendingError>)
    ensures
        collateral_index >= old(obligation).deposits@.len() ==> r == Err::<
            CollateralRefreshResult,
            LendingError,
        >(LendingError::InvalidObligationIndex) && *final(obligation) == *old(obligation),
        collateral_index < old(obligation).deposits@.len() ==> (match one_collateral_result(
            old(obligation).deposits@[collateral_index as int],
            *deposit_reserve,
            current_slot,
        ) {
            Ok((collateral, result)) => r == Ok::<CollateralRefreshResult, LendingError>(result)
                && *final(obligation) == (Obligation {
                deposits: final(obligation).deposits,
                ..*old(obligation)
            }) && final(obligation).deposits@ == old(obligation).deposits@.update(
                collateral_index as int,
                collateral,
            ),
            Err(e) => r == Err::<CollateralRefreshResult, LendingError>(e) && *final(obligation)
                == *old(obligation),
        }),
{
    if collateral_index >= obligation.deposits_len() {
        return Err(LendingError::InvalidObligationIndex);
    }
    let (collateral, index) = match obligation.find_collateral_by_index(collateral_index) {
        Ok(v) => v,
        Err(e) => {
            return Err(e);
        },
    };

    let stale = match deposit_reserve.is_stale(current_slot) {
        Ok(v) => v,
        Err(e) => {
            return Err(e);
        },
    };
    if stale {
        return Err(LendingError::ReserveStale);
    }

    let (updated, result) = match value_collateral(&collateral, deposit_reserve) {
        Ok(v) => v,
        Err(e) => {
            return Err(e);
        },
    };
    match obligation.update_collateral(index, updated) {
        Ok(()) => Ok(result),
        Err(e) => Err(e),
    }
}

/// Refreshes the borrow record at `liquidity_index` from its reserve:
/// interest is compounded up to the reserve's cumulative rate and the debt
/// revalued at its price.  Returns the new market value.  The reserve must
/// be within the staleness window.  On any error the obligation is
/// unchanged.
pub fn refresh_liquidity(
    obligation: &mut Obligation,
    liquidity_index: usize,
    borrow_reserve: &Reserve,
    current_slot: u64,
) -> (r: Result<u128, LendingError>)
    ensures
        liquidity_index >= old(obligation).borrows@.len() ==> r == Err::<u128, LendingError>(
            LendingError::InvalidObligationIndex,
        ) && *final(obligation) == *old(obligation),
        liquidity_index < old(obligation).borrows@.len() ==> (match one_liquidity_result(
            old(obligation).borrows@[liquidity_index as int],
            *borrow_reserve,
            current_slot,
        ) {
            Ok(liquidity) => r == Ok::<u128, LendingError>(liquidity.market_value) && *final(obligation) == (Obligation { borrows: final(obligation).borrows, ..*old(obligation) }) && final(obligation).borrows@ == old(obligation).borrows@.update(liquidity_index as int, liquidity),
            Err(e) => r == Err::<u128, LendingError>(e) && *final(obligation) == *old(obligation),
        }),
{
    if liquidity_index >= obligation.borrows_len() {
        return Err(LendingError::InvalidObligationIndex);
    }
    let (liquidity, index) = match obligation.find_liquidity_by_index(liquidity_index) {
        Ok(v) => v,
        Err(e) => {
            return Err(e);
        },
    };

    let stale = match borrow_reserve.is_stale(current_slot) {
        Ok(v) => v,
        Err(e) => {
            return Err(e);
        },
    };
    if stale {
        return Err(LendingError::ReserveStale);
    }

    let updated = match value_liquidity(&liquidity, borrow_reserve) {
        Ok(v) => v,
        Err(e) => {
            return Err(e);
        },
    };
    let market_value = updated.market_value;
    match obligation.update_liquidity(index, updated) {
        Ok(()) => Ok(market_value),
        Err(e) => Err(e),
    }
}

/// Refreshes a run of collateral records in order against their reserves
/// under the windowed freshness rule, accumulating checked totals of
/// market value, borrow limit and liquidation threshold.  The first
/// failure is the result.
pub open spec fn collaterals_result(
    collaterals: Seq<ObligationCollateral>,
    reserves: Seq<Reserve>,
    current_slot: u64,
) -> Result<(Seq<ObligationCollateral>, (int, int, int)), LendingError>
    decreases collaterals.len(),
{
    if collaterals.len() == 0 {
        Ok((Seq::empty(), (0, 0, 0)))
    } else {
        match collaterals_result(collaterals.drop_last(), reserves.drop_last(), current_slot) {
            Err(e) => Err(e),
            Ok((updated, totals)) => match one_collateral_result(
                collaterals.last(),
                reserves.last(),
                current_slot,
            ) {
                Err(e) => Err(e),
                Ok((collateral, result)) => if totals.0 + result.market_value > u128::MAX {
                    Err(LendingError::MathOverflow)
                } else if totals.1 + result.allowed_borrow_value > u128::MAX {
                    Err(LendingError::MathOverflow)
                } else if totals.2 + result.unhealthy_borrow_value > u128::MAX {
                    Err(LendingError::MathOverflow)
                } else {
                    Ok(
                        (
                            updated.push(collateral),
                            (
                                totals.0 + result.market_value,
                                totals.1 + result.allowed_borrow_value,
                                totals.2 + result.unhealthy_borrow_value,
                            ),
                        ),
                    )
                },
            },
        }
    }
}

/// Refreshes a run of borrow records in order against their reserves
/// under the windowed freshness rule, accumulating a checked total of
/// market value.  The first failure is the result.
pub open spec fn borrows_result(
    borrows: Seq<ObligationLiquidity>,
    reserves: Seq<Reserve>,
    current_slot: u64,
) -> Result<(Seq<ObligationLiquidity>, int), LendingError>
    decreases borrows.len(),
{
    if borrows.len() == 0 {
        Ok((Seq::empty(), 0))
    } else {
        match borrows_result(borrows.drop_last(), reserves.drop_last(), current_slot) {
            Err(e) => Err(e),
            Ok((updated, total)) => match one_liquidity_result(
                borrows.last(),
                reserves.last(),
                current_slot,
            ) {
                Err(e) => Err(e),
                Ok(liquidity) => if total + liquidity.market_value > u128::MAX {
                    Err(LendingError::MathOverflow)
                } else {
                    Ok((updated.push(liquidity), total + liquidity.market_value))
                },
            },
        }
    }
}

/// Once a prefix of a collateral refresh has failed, every longer prefix
/// fails the same way.
proof fn lemma_collaterals_err_persists(
    collaterals: Seq<ObligationCollateral>,
    reserves: Seq<Reserve>,
    current_slot: u64,
    shorter: int,
    longer: int,
)
    requires
        0 <= shorter <= longer <= collaterals.len(),
        collaterals.len() == reserves.len(),
        collaterals_result(
            collaterals.subrange(0, shorter),
            reserves.subrange(0, shorter),
            current_slot,
        ) is Err,
    ensures
        collaterals_result(
            collaterals.subrange(0, longer),
            reserves.subrange(0, longer),
            current_slot,
        ) == collaterals_result(
            collaterals.subrange(0, shorter),
            reserves.subrange(0, shorter),
            current_slot,
        ),
    decreases longer,
{
    if longer > shorter {
        lemma_collaterals_err_persists(collaterals, reserves, current_slot, shorter, longer - 1);
        assert(collaterals.subrange(0, longer).drop_last() =~= collaterals.subrange(
            0,
            longer - 1,
        ));
        assert(reserves.subrange(0, longer).drop_last() =~= reserves.subrange(0, longer - 1));
    }
}

/// Once a prefix of a borrow refresh has failed, every longer prefix
/// fails the same way.
proof fn lemma_borrows_err_persists(
    borrows: Seq<ObligationLiquidity>,
    reserves: Seq<Reserve>,
    current_slot: u64,
    shorter: int,
    longer: int,
)
    requires
        0 <= shorter <= longer <= borrows.len(),
        borrows.len() == reserves.len(),
        borrows_result(
            borrows.subrange(0, shorter),
            reserves.subrange(0, shorter),
            current_slot,
        ) is Err,
    ensures
        borrows_result(borrows.subrange(0, longer), reserves.subrange(0, longer), current_slot)
            == borrows_result(
            borrows.subrange(0, shorter),
            reserves.subrange(0, shorter),
            current_slot,
        ),
    decreases longer,
{
    if longer > shorter {
        lemma_borrows_err_persists(borrows, reserves, current_slot, shorter, longer - 1);
        assert(borrows.subrange(0, longer).drop_last() =~= borrows.subrange(0, longer - 1));
        assert(reserves.subrange(0, longer).drop_last() =~= reserves.subrange(0, longer - 1));
    }
}

/// A successful collateral refresh returns exactly as many records as it
/// was given, and its market-value total is exactly the sum of the
/// refreshed records' market values.
proof fn lemma_collaterals_totals_sum(
    collaterals: Seq<ObligationCollateral>,
    reserves: Seq<Reserve>,
    current_slot: u64,
)
    ensures
        collaterals_result(collaterals, reserves, current_slot) matches Ok((updated, totals))
            ==> updated.len() == collaterals.len() && totals.0
            == crate::obligation::sum_collateral_values(updated),
    decreases collaterals.len(),
{
    if collaterals.len() > 0 {
        lemma_collaterals_totals_sum(
            collaterals.drop_last(),
            reserves.drop_last(),
            current_slot,
        );
        match collaterals_result(collaterals, reserves, current_slot) {
            Ok((updated, totals)) => {
                match collaterals_result(
                    collaterals.drop_last(),
                    reserves.drop_last(),
                    current_slot,
                ) {
                    Ok((prefix, prefix_totals)) => {
                        assert(updated.drop_last() =~= prefix);
                        assert(updated.last() == updated[updated.len() - 1]);
                    },
                    Err(_) => {},
                }
            },
            Err(_) => {},
        }
    }
}

/// A successful borrow refresh returns exactly as many records as it was
/// given, and its total is exactly the sum of the refreshed records'
/// market values.
proof fn lemma_borrows_totals_sum(
    borrows: Seq<ObligationLiquidity>,
    reserves: Seq<Reserve>,
    current_slot: u64,
)
    ensures
        borrows_result(borrows, reserves, current_slot) matches Ok((updated, total)) ==>
            updated.len() == borrows.len() && total == crate::obligation::sum_liquidity_values(
                updated,
            ),
    decreases borrows.len(),
{
    if borrows.len() > 0 {
        lemma_borrows_totals_sum(borrows.drop_last(), reserves.drop_last(), current_slot);
        match borrows_result(borrows, reserves, current_slot) {
            Ok((updated, total)) => {
                match borrows_result(borrows.drop_last(), reserves.drop_last(), current_slot) {
                    Ok((prefix, prefix_total)) => {
                        assert(updated.drop_last() =~= prefix);
                        assert(updated.last() == updated[updated.len() - 1]);
                    },
                    Err(_) => {},
                }
            },
            Err(_) => {},
        }
    }
}

/// Refreshing already-refreshed collateral records against the same
/// reserves reproduces them and their totals exactly.
proof fn lemma_collaterals_idempotent_rec(
    collaterals: Seq<ObligationCollateral>,
    reserves: Seq<Reserve>,
    current_slot: u64,
)
    ensures
        collaterals_result(collaterals, reserves, current_slot) matches Ok((updated, totals))
            ==> collaterals_result(updated, reserves, current_slot) == Ok::<
            (Seq<ObligationCollateral>, (int, int, int)),
            LendingError,
        >((updated, totals)),
    decreases collaterals.len(),
{
    if collaterals.len() > 0 {
        lemma_collaterals_idempotent_rec(
            collaterals.drop_last(),
            reserves.drop_last(),
            current_slot,
        );
        lemma_collaterals_totals_sum(collaterals.drop_last(), reserves.drop_last(), current_slot);
        match collaterals_result(collaterals, reserves, current_slot) {
            Ok((updated, totals)) => {
                assert(updated.drop_last() =~= updated.drop_last());
                match collaterals_result(
                    collaterals.drop_last(),
                    reserves.drop_last(),
                    current_slot,
                ) {
                    Ok((prefix, prefix_totals)) => {
                        assert(updated.len() > 0);
                        assert(updated.drop_last() =~= prefix);
                    },
                    Err(_) => {},
                }
            },
            Err(_) => {},
        }
    }
}

/// Refreshing already-refreshed borrow records against the same reserves
/// reproduces them and their total exactly.
proof fn lemma_borrows_idempotent_rec(
    borrows: Seq<ObligationLiquidity>,
    reserves: Seq<Reserve>,
    current_slot: u64,
)
    ensures
        borrows_result(borrows, reserves, current_slot) matches Ok((updated, total)) ==>
            borrows_result(updated, reserves, current_slot) == Ok::<
            (Seq<ObligationLiquidity>, int),
            LendingError,
        >((updated, total)),
    decreases borrows.len(),
{
    if borrows.len() > 0 {
        lemma_borrows_idempotent_rec(borrows.drop_last(), reserves.drop_last(), current_slot);
        lemma_borrows_totals_sum(borrows.drop_last(), reserves.drop_last(), current_slot);
        match borrows_result(borrows, reserves, current_slot) {
            Ok((updated, total)) => {
                match borrows_result(borrows.drop_last(), reserves.drop_last(), current_slot) {
                    Ok((prefix, prefix_total)) => {
                        assert(updated.len() > 0);
                        assert(updated.drop_last() =~= prefix);
                    },
                    Err(_) => {},
                }
            },
            Err(_) => {},
        }
    }
}

/// Idempotence law: refreshing an obligation's records a second time in
/// the same slot, against unchanged reserves, reproduces the first
/// refresh's records and aggregate totals exactly.
pub proof fn lemma_refresh_idempotent(
    deposits: Seq<ObligationCollateral>,
    borrows: Seq<ObligationLiquidity>,
    deposit_reserves: Seq<Reserve>,
    borrow_reserves: Seq<Reserve>,
    current_slot: u64,
)
    ensures
        collaterals_result(deposits, deposit_reserves, current_slot) matches Ok((updated, totals))
            ==> collaterals_result(updated, deposit_reserves, current_slot) == Ok::<
            (Seq<ObligationCollateral>, (int, int, int)),
            LendingError,
        >((updated, totals)),
        borrows_result(borrows, borrow_reserves, current_slot) matches Ok((updated, total)) ==>
            borrows_result(updated, borrow_reserves, current_slot) == Ok::<
            (Seq<ObligationLiquidity>, int),
            LendingError,
        >((updated, total)),
{
    lemma_collaterals_idempotent_rec(deposits, deposit_reserves, current_slot);
    lemma_borrows_idempotent_rec(borrows, borrow_reserves, current_slot);
}

/// Refreshes a run of collateral records without touching the obligation,
/// returning the refreshed records and the three totals.
fn refresh_collaterals_vec(
    collaterals: &Vec<ObligationCollateral>,
    reserves: &Vec<Reserve>,
    current_slot: u64,
) -> (r: Result<(Vec<ObligationCollateral>, u128, u128, u128), LendingError>)
    requires
        collaterals@.len() == reserves@.len(),
    ensures
        (match collaterals_result(collaterals@, reserves@, current_slot) {
            Ok((updated, totals)) => r matches Ok((v, market, allowed, unhealthy)) && v@ == updated
                && market == totals.0 && allowed == totals.1 && unhealthy == totals.2,
            Err(e) => r == Err::<(Vec<ObligationCollateral>, u128, u128, u128), LendingError>(e),
        }),
{
    let ghost cs = collaterals@;
    let ghost rs = reserves@;
    let n = collaterals.len();
    let mut updated: Vec<ObligationCollateral> = Vec::new();
    let mut total_market: u128 = 0;
    let mut total_allowed: u128 = 0;
    let mut total_unhealthy: u128 = 0;
    proof {
        assert(cs.subrange(0, 0) =~= Seq::<ObligationCollateral>::empty());
        assert(rs.subrange(0, 0) =~= Seq::<Reserve>::empty());
    }
    let mut i: usize = 0;
    while i < n
        invariant
            0 <= i <= n,
            n == cs.len(),
            cs.len() == rs.len(),
            cs == collaterals@,
            rs == reserves@,
            collaterals_result(cs.subrange(0, i as int), rs.subrange(0, i as int), current_slot)
                == Ok::<(Seq<ObligationCollateral>, (int, int, int)), LendingError>(
                (
                    updated@,
                    (total_market as int, total_allowed as int, total_unhealthy as int),
                ),
            ),
        decreases n - i,
    {
        proof {
            assert(cs.subrange(0, i + 1).drop_last() =~= cs.subrange(0, i as int));
            assert(rs.subrange(0, i + 1).drop_last() =~= rs.subrange(0, i as int));
            assert(cs.subrange(0, i + 1).last() == cs[i as int]);
            assert(rs.subrange(0, i + 1).last() == rs[i as int]);
        }
        let collateral = collaterals[i];
        let reserve = &reserves[i];

        let stale = match reserve.is_stale(current_slot) {
            Ok(v) => v,
            Err(e) => {
                proof {
                    lemma_collaterals_err_persists(cs, rs, current_slot, i + 1, n as int);
                    assert(cs.subrange(0, n as int) =~= cs);
                    assert(rs.subrange(0, n as int) =~= rs);
                }
                return Err(e);
            },
        };
        if stale {
            proof {
                lemma_collaterals_err_persists(cs, rs, current_slot, i + 1, n as int);
                assert(cs.subrange(0, n as int) =~= cs);
                assert(rs.subrange(0, n as int) =~= rs);
            }
            return Err(LendingError::ReserveStale);
        }
        let (refreshed, result) = match value_collateral(&collateral, reserve) {
            Ok(v) => v,
            Err(e) => {
                proof {
                    lemma_collaterals_err_persists(cs, rs, current_slot, i + 1, n as int);
                    assert(cs.subrange(0, n as int) =~= cs);
                    assert(rs.subrange(0, n as int) =~= rs);
                }
                return Err(e);
            },
        };

        let new_market = match total_market.checked_add(result.market_value) {
            Some(v) => v,
            None => {
                proof {
                    lemma_collaterals_err_persists(cs, rs, current_slot, i + 1, n as int);
                    assert(cs.subrange(0, n as int) =~= cs);
                    assert(rs.subrange(0, n as int) =~= rs);
                }
                return Err(LendingError::MathOverflow);
            },
        };
        let new_allowed = match total_allowed.checked_add(result.allowed_borrow_value) {
            Some(v) => v,
            None => {
                proof {
                    lemma_collaterals_err_persists(cs, rs, current_slot, i + 1, n as int);
                    assert(cs.subrange(0, n as int) =~= cs);
                    assert(rs.subrange(0, n as int) =~= rs);
                }
                return Err(LendingError::MathOverflow);
            },
        };
        let new_unhealthy = match total_unhealthy.checked_add(result.unhealthy_borrow_value) {
            Some(v) => v,
            None => {
                proof {
                    lemma_collaterals_err_persists(cs, rs, current_slot, i + 1, n as int);
                    assert(cs.subrange(0, n as int) =~= cs);
                    assert(rs.subrange(0, n as int) =~= rs);
                }
                return Err(LendingError::MathOverflow);
            },
        };
        total_market = new_market;
        total_allowed = new_allowed;
        total_unhealthy = new_unhealthy;
        updated.push(refreshed);
        i = i + 1;
    }
    proof {
        assert(cs.subrange(0, n as int) =~= cs);
        assert(rs.subrange(0, n as int) =~= rs);
    }
    Ok((updated, total_market, total_allowed, total_unhealthy))
}

/// Refreshes a run of borrow records without touching the obligation,
/// returning the refreshed records and the total market value.
fn refresh_borrows_vec(
    borrows: &Vec<ObligationLiquidity>,
    reserves: &Vec<Reserve>,
    current_slot: u64,
) -> (r: Result<(Vec<ObligationLiquidity>, u128), LendingError>)
    requires
        borrows@.len() == reserves@.len(),
    ensures
        (match borrows_result(borrows@, reserves@, current_slot) {
            Ok((updated, total)) => r matches Ok((v, market)) && v@ == updated && market == total,
            Err(e) => r == Err::<(Vec<ObligationLiquidity>, u128), LendingError>(e),
        }),
{
    let ghost ls = borrows@;
    let ghost rs = reserves@;
    let n = borrows.len();
    let mut updated: Vec<ObligationLiquidity> = Vec::new();
    let mut total_market: u128 = 0;
    proof {
        assert(ls.subrange(0, 0) =~= Seq::<ObligationLiquidity>::empty());
        assert(rs.subrange(0, 0) =~= Seq::<Reserve>::empty());
    }
    let mut i: usize = 0;
    while i < n
        invariant
            0 <= i <= n,
            n == ls.len(),
            ls.len() == rs.len(),
            ls == borrows@,
            rs == reserves@,
            borrows_result(ls.subrange(0, i as int), rs.subrange(0, i as int), current_slot)
                == Ok::<(Seq<ObligationLiquidity>, int), LendingError>(
                (updated@, total_market as int),
            ),
        decreases n - i,
    {
        proof {
            assert(ls.subrange(0, i + 1).drop_last() =~= ls.subrange(0, i as int));
            assert(rs.subrange(0, i + 1).drop_last() =~= rs.subrange(0, i as int));
            assert(ls.subrange(0, i + 1).last() == ls[i as int]);
            assert(rs.subrange(0, i + 1).last() == rs[i as int]);
        }
        let liquidity = borrows[i];
        let reserve = &reserves[i];

        let stale = match reserve.is_stale(current_slot) {
            Ok(v) => v,
            Err(e) => {
                proof {
                    lemma_borrows_err_persists(ls, rs, current_slot, i + 1, n as int);
                    assert(ls.subrange(0, n as int) =~= ls);
                    assert(rs.subrange(0, n as int) =~= rs);
                }
                return Err(e);
            },
        };
        if stale {
            proof {
                lemma_borrows_err_persists(ls, rs, current_slot, i + 1, n as int);
                assert(ls.subrange(0, n as int) =~= ls);
                assert(rs.subrange(0, n as int) =~= rs);
            }
            return Err(LendingError::ReserveStale);
        }
        let refreshed = match value_liquidity(&liquidity, reserve) {
            Ok(v) => v,
            Err(e) => {
                proof {
                    lemma_borrows_err_persists(ls, rs, current_slot, i + 1, n as int);
                    assert(ls.subrange(0, n as int) =~= ls);
                    assert(rs.subrange(0, n as int) =~= rs);
                }
                return Err(e);
            },
        };
        let new_market = match total_market.checked_add(refreshed.market_value) {
            Some(v) => v,
            None => {
                proof {
                    lemma_borrows_err_persists(ls, rs, current_slot, i + 1, n as int);
                    assert(ls.subrange(0, n as int) =~= ls);
                    assert(rs.subrange(0, n as int) =~= rs);
                }
                return Err(LendingError::MathOverflow);
            },
        };
        total_market = new_market;
        updated.push(refreshed);
        i = i + 1;
    }
    proof {
        assert(ls.subrange(0, n as int) =~= ls);
        assert(rs.subrange(0, n as int) =~= rs);
    }
    Ok((updated, total_market))
}

/// Refreshes every collateral record of the obligation in storage order
/// and returns the totals `(market value, allowed borrow, unhealthy
/// threshold)`.  The caller must supply exactly one reserve per record, in
/// the same order.  All-or-nothing: on any error the obligation is
/// unchanged.
pub fn refresh_all_collaterals(
    obligation: &mut Obligation,
    deposit_reserves: &Vec<Reserve>,
    current_slot: u64,
) -> (r: Result<(u128, u128, u128), LendingError>)
    ensures
        old(obligation).deposits@.len() != deposit_reserves@.len() ==> r == Err::<
            (u128, u128, u128),
            LendingError,
        >(LendingError::InvalidAccountInput) && *final(obligation) == *old(obligation),
        old(obligation).deposits@.len() == deposit_reserves@.len() ==> (match collaterals_result(
            old(obligation).deposits@,
            deposit_reserves@,
            current_slot,
        ) {
            Ok((updated, totals)) => r == Ok::<(u128, u128, u128), LendingError>(
                ((totals.0 as u128), (totals.1 as u128), (totals.2 as u128)),
            ) && *final(obligation) == (Obligation {
                deposits: final(obligation).deposits,
                ..*old(obligation)
            }) && final(obligation).deposits@ == updated,
            Err(e) => r == Err::<(u128, u128, u128), LendingError>(e) && *final(obligation)
                == *old(obligation),
        }),
{
    if obligation.deposits_len() != deposit_reserves.len() {
        return Err(LendingError::InvalidAccountInput);
    }
    let (updated, total_market, total_allowed, total_unhealthy) = match refresh_collaterals_vec(
        &obligation.deposits,
        deposit_reserves,
        current_slot,
    ) {
        Ok(v) => v,
        Err(e) => {
            return Err(e);
        },
    };
    obligation.deposits = updated;
    Ok((total_market, total_allowed, total_unhealthy))
}

/// Refreshes every borrow record of the obligation in storage order and
/// returns the total borrowed market value.  The caller must supply
/// exactly one reserve per record, in the same order.  All-or-nothing: on
/// any error the obligation is unchanged.
pub fn refresh_all_borrows(
    obligation: &mut Obligation,
    borrow_reserves: &Vec<Reserve>,
    current_slot: u64,
) -> (r: Result<u128, LendingError>)
    ensures
        old(obligation).borrows@.len() != borrow_reserves@.len() ==> r == Err::<u128, LendingError>(
            LendingError::InvalidAccountInput,
        ) && *final(obligation) == *old(obligation),
        old(obligation).borrows@.len() == borrow_reserves@.len() ==> (match borrows_result(
            old(obligation).borrows@,
            borrow_reserves@,
            current_slot,
        ) {
            Ok((updated, total)) => r == Ok::<u128, LendingError>((total as u128)) && *final(obligation) == (Obligation { borrows: final(obligation).borrows, ..*old(obligation) }) && final(obligation).borrows@ == updated,
            Err(e) => r == Err::<u128, LendingError>(e) && *final(obligation) == *old(obligation),
        }),
{
    if obligation.borrows_len() != borrow_reserves.len() {
        return Err(LendingError::InvalidAccountInput);
    }
    let (updated, total_market) = match refresh_borrows_vec(
        &obligation.borrows,
        borrow_reserves,
        current_slot,
    ) {
        Ok(v) => v,
        Err(e) => {
            return Err(e);
        },
    };
    obligation.borrows = updated;
    Ok(total_market)
}

/// Fully refreshes an obligation: every collateral and borrow record is
/// revalued from its reserve and the four aggregates and the update slot
/// are overwritten together.  All-or-nothing: any stale reserve or failed
/// valuation leaves the obligation completely unchanged.  On success the
/// aggregates equal the exact sums of the refreshed records' market
/// values.
pub fn refresh_obligation_complete(
    obligation: &mut Obligation,
    deposit_reserves: &Vec<Reserve>,
    borrow_reserves: &Vec<Reserve>,
    current_slot: u64,
) -> (r: Result<(), LendingError>)
    ensures
        old(obligation).deposits@.len() != deposit_reserves@.len() ==> r == Err::<(), LendingError>(
            LendingError::InvalidAccountInput,
        ) && *final(obligation) == *old(obligation),
        old(obligation).deposits@.len() == deposit_reserves@.len() ==> (match collaterals_result(
            old(obligation).deposits@,
            deposit_reserves@,
            current_slot,
        ) {
            Err(e) => r == Err::<(), LendingError>(e) && *final(obligation) == *old(obligation),
            Ok((new_deposits, deposit_totals)) => if old(obligation).borrows@.len()
                != borrow_reserves@.len() {
                r == Err::<(), LendingError>(LendingError::InvalidAccountInput) && *final(obligation) == *old(obligation)
            } else {
                match borrows_result(old(obligation).borrows@, borrow_reserves@, current_slot) {
                    Err(e) => r == Err::<(), LendingError>(e) && *final(obligation) == *old(obligation),
                    Ok((new_borrows, borrowed_total)) => r == Ok::<(), LendingError>(()) && final(obligation).deposits@ == new_deposits && final(obligation).borrows@ == new_borrows
                        && final(obligation).deposited_value == deposit_totals.0 && final(obligation).allowed_borrow_value == deposit_totals.1 && final(obligation).unhealthy_borrow_value == deposit_totals.2 && final(obligation).borrowed_value
                        == borrowed_total && final(obligation).last_update_slot == current_slot
                        && final(obligation).version == old(obligation).version && final(obligation).lending_market == old(obligation).lending_market && final(obligation).owner
                        == old(obligation).owner,
                }
            },
        }),
        r is Ok ==> final(obligation).deposited_value == crate::obligation::sum_collateral_values(
            final(obligation).deposits@,
        ) && final(obligation).borrowed_value == crate::obligation::sum_liquidity_values(
            final(obligation).borrows@,
        ),
{
    if obligation.deposits_len() != deposit_reserves.len() {
        return Err(LendingError::InvalidAccountInput);
    }
    let (new_deposits, total_market, total_allowed, total_unhealthy) =
        match refresh_collaterals_vec(&obligation.deposits, deposit_reserves, current_slot) {
        Ok(v) => v,
        Err(e) => {
            return Err(e);
        },
    };
    if obligation.borrows_len() != borrow_reserves.len() {
        return Err(LendingError::InvalidAccountInput);
    }
    let (new_borrows, borrowed_total) = match refresh_borrows_vec(
        &obligation.borrows,
        borrow_reserves,
        current_slot,
    ) {
        Ok(v) => v,
        Err(e) => {
            return Err(e);
        },
    };

    proof {
        lemma_collaterals_totals_sum(obligation.deposits@, deposit_reserves@, current_slot);
        lemma_borrows_totals_sum(obligation.borrows@, borrow_reserves@, current_slot);
    }

    obligation.deposits = new_deposits;
    obligation.borrows = new_borrows;
    obligation.deposited_value = total_market;
    obligation.allowed_borrow_value = total_allowed;
    obligation.unhealthy_borrow_value = total_unhealthy;
    obligation.borrowed_value = borrowed_total;
    obligation.last_update_slot = current_slot;
    Ok(())
}

/// One collateral record under the strict refresh: the supplied account
/// must be the record's reserve, refreshed in this very slot.
pub open spec fn strict_collateral_result(
    collateral: ObligationCollateral,
    keyed: KeyedReserve,
    current_slot: u64,
) -> Result<(ObligationCollateral, CollateralRefreshResult), LendingError> {
    if keyed.key != collateral.deposit_reserve {
        Err(LendingError::InvalidReserveForObligation)
    } else if keyed.reserve.last_update_slot != current_slot {
        Err(LendingError::ReserveStale)
    } else {
        value_collateral_result(collateral, keyed.reserve)
    }
}

/// One borrow record under the strict refresh: the supplied account must
/// be the record's reserve, refreshed in this very slot; the record's
/// checkpoint accrual rejects a rate below the checkpoint.
pub open spec fn strict_liquidity_result(
    liquidity: ObligationLiquidity,
    keyed: KeyedReserve,
    current_slot: u64,
) -> Result<ObligationLiquidity, LendingError> {
    if keyed.key != liquidity.borrow_reserve {
        Err(LendingError::InvalidReserveForObligation)
    } else if keyed.reserve.last_update_slot != current_slot {
        Err(LendingError::ReserveStale)
    } else {
        match liquidity.accrue_result(keyed.reserve.liquidity_cumulative_borrow_rate_wads) {
            Err(e) => Err(e),
            Ok(accrued) => price_liquidity_result(accrued, keyed.reserve),
        }
    }
}

/// Strict refresh of a run of collateral records, with checked totals.
pub open spec fn strict_collaterals_result(
    collaterals: Seq<ObligationCollateral>,
    keyed_reserves: Seq<KeyedReserve>,
    current_slot: u64,
) -> Result<(Seq<ObligationCollateral>, (int, int, int)), LendingError>
    decreases collaterals.len(),
{
    if collaterals.len() == 0 {
        Ok((Seq::empty(), (0, 0, 0)))
    } else {
        match strict_collaterals_result(
            collaterals.drop_last(),
            keyed_reserves.drop_last(),
            current_slot,
        ) {
            Err(e) => Err(e),
            Ok((updated, totals)) => match strict_collateral_result(
                collaterals.last(),
                keyed_reserves.last(),
                current_slot,
            ) {
                Err(e) => Err(e),
                Ok((collateral, result)) => if totals.0 + result.market_value > u128::MAX {
                    Err(LendingError::MathOverflow)
                } else if totals.1 + result.allowed_borrow_value > u128::MAX {
                    Err(LendingError::MathOverflow)
                } else if totals.2 + result.unhealthy_borrow_value > u128::MAX {
                    Err(LendingError::MathOverflow)
                } else {
                    Ok(
                        (
                            updated.push(collateral),
                            (
                                totals.0 + result.market_value,
                                totals.1 + result.allowed_borrow_value,
                                totals.2 + result.unhealthy_borrow_value,
                            ),
                        ),
                    )
                },
            },
        }
    }
}

/// Strict refresh of a run of borrow records, with a checked total.
pub open spec fn strict_borrows_result(
    borrows: Seq<ObligationLiquidity>,
    keyed_reserves: Seq<KeyedReserve>,
    current_slot: u64,
) -> Result<(Seq<ObligationLiquidity>, int), LendingError>
    decreases borrows.len(),
{
    if borrows.len() == 0 {
        Ok((Seq::empty(), 0))
    } else {
        match strict_borrows_result(
            borrows.drop_last(),
            keyed_reserves.drop_last(),
            current_slot,
        ) {
            Err(e) => Err(e),
            Ok((updated, total)) => match strict_liquidity_result(
                borrows.last(),
                keyed_reserves.last(),
                current_slot,
            ) {
                Err(e) => Err(e),
                Ok(liquidity) => if total + liquidity.market_value > u128::MAX {
                    Err(LendingError::MathOverflow)
                } else {
                    Ok((updated.push(liquidity), total + liquidity.market_value))
                },
            },
        }
    }
}

/// Once a prefix of a strict collateral refresh has failed, every longer
/// prefix fails the same way.
proof fn lemma_strict_collaterals_err_persists(
    collaterals: Seq<ObligationCollateral>,
    keyed_reserves: Seq<KeyedReserve>,
    current_slot: u64,
    shorter: int,
    longer: int,
)
    requires
        0 <= shorter <= longer <= collaterals.len(),
        collaterals.len() <= keyed_reserves.len(),
        strict_collaterals_result(
            collaterals.subrange(0, shorter),
            keyed_reserves.subrange(0, shorter),
            current_slot,
        ) is Err,
    ensures
        strict_collaterals_result(
            collaterals.subrange(0, longer),
            keyed_reserves.subrange(0, longer),
            current_slot,
        ) == strict_collaterals_result(
            collaterals.subrange(0, shorter),
            keyed_reserves.subrange(0, shorter),
            current_slot,
        ),
    decreases longer,
{
    if longer > shorter {
        lemma_strict_collaterals_err_persists(
            collaterals,
            keyed_reserves,
            current_slot,
            shorter,
            longer - 1,
        );
        assert(collaterals.subrange(0, longer).drop_last() =~= collaterals.subrange(
            0,
            longer - 1,
        ));
        assert(keyed_reserves.subrange(0, longer).drop_last() =~= keyed_reserves.subrange(
            0,
            longer - 1,
        ));
    }
}

/// Once a prefix of a strict borrow refresh has failed, every longer
/// prefix fails the same way.
proof fn lemma_strict_borrows_err_persists(
    borrows: Seq<ObligationLiquidity>,
    keyed_reserves: Seq<KeyedReserve>,
    current_slot: u64,
    shorter: int,
    longer: int,
)
    requires
        0 <= shorter <= longer <= borrows.len(),
        borrows.len() <= keyed_reserves.len(),
        strict_borrows_result(
            borrows.subrange(0, shorter),
            keyed_reserves.subrange(0, shorter),
            current_slot,
        ) is Err,
    ensures
        strict_borrows_result(
            borrows.subrange(0, longer),
            keyed_reserves.subrange(0, longer),
            current_slot,
        ) == strict_borrows_result(
            borrows.subrange(0, shorter),
            keyed_reserves.subrange(0, shorter),
            current_slot,
        ),
    decreases longer,
{
    if longer > shorter {
        lemma_strict_borrows_err_persists(
            borrows,
            keyed_reserves,
            current_slot,
            shorter,
            longer - 1,
        );
        assert(borrows.subrange(0, longer).drop_last() =~= borrows.subrange(0, longer - 1));
        assert(keyed_reserves.subrange(0, longer).drop_last() =~= keyed_reserves.subrange(
            0,
            longer - 1,
        ));
    }
}

/// A successful strict collateral refresh keeps the record count and sums
/// the refreshed market values exactly.
proof fn lemma_strict_collaterals_totals_sum(
    collaterals: Seq<ObligationCollateral>,
    keyed_reserves: Seq<KeyedReserve>,
    current_slot: u64,
)
    ensures
        strict_collaterals_result(collaterals, keyed_reserves, current_slot) matches Ok(
            (updated, totals),
        ) ==> updated.len() == collaterals.len() && totals.0
            == crate::obligation::sum_collateral_values(updated),
    decreases collaterals.len(),
{
    if collaterals.len() > 0 {
        lemma_strict_collaterals_totals_sum(
            collaterals.drop_last(),
            keyed_reserves.drop_last(),
            current_slot,
        );
        match strict_collaterals_result(collaterals, keyed_reserves, current_slot) {
            Ok((updated, totals)) => {
                match strict_collaterals_result(
                    collaterals.drop_last(),
                    keyed_reserves.drop_last(),
                    current_slot,
                ) {
                    Ok((prefix, prefix_totals)) => {
                        assert(updated.drop_last() =~= prefix);
                        assert(updated.last() == updated[updated.len() - 1]);
                    },
                    Err(_) => {},
                }
            },
            Err(_) => {},
        }
    }
}

/// A successful strict borrow refresh keeps the record count and sums the
/// refreshed market values exactly.
proof fn lemma_strict_borrows_totals_sum(
    borrows: Seq<ObligationLiquidity>,
    keyed_reserves: Seq<KeyedReserve>,
    current_slot: u64,
)
    ensures
        strict_borrows_result(borrows, keyed_reserves, current_slot) matches Ok((updated, total))
            ==> updated.len() == borrows.len() && total
            == crate::obligation::sum_liquidity_values(updated),
    decreases borrows.len(),
{
    if borrows.len() > 0 {
        lemma_strict_borrows_totals_sum(
            borrows.drop_last(),
            keyed_reserves.drop_last(),
            current_slot,
        );
        match strict_borrows_result(borrows, keyed_reserves, current_slot) {
            Ok((updated, total)) => {
                match strict_borrows_result(
                    borrows.drop_last(),
                    keyed_reserves.drop_last(),
                    current_slot,
                ) {
                    Ok((prefix, prefix_total)) => {
                        assert(updated.drop_last() =~= prefix);
                        assert(updated.last() == updated[updated.len() - 1]);
                    },
                    Err(_) => {},
                }
            },
            Err(_) => {},
        }
    }
}

/// Strict refresh of one collateral record; pure compute.
fn strict_collateral(
    collateral: &ObligationCollateral,
    keyed: &KeyedReserve,
    current_slot: u64,
) -> (r: Result<(ObligationCollateral, CollateralRefreshResult), LendingError>)
    ensures
        r == strict_collateral_result(*collateral, *keyed, current_slot),
{
    if !(keyed.key == collateral.deposit_reserve) {
        return Err(LendingError::InvalidReserveForObligation);
    }
    if keyed.reserve.last_update_slot != current_slot {
        return Err(LendingError::ReserveStale);
    }
    value_collateral(collateral, &keyed.reserve)
}

/// Strict refresh of one borrow record; pure compute.
fn strict_liquidity(
    liquidity: &ObligationLiquidity,
    keyed: &KeyedReserve,
    current_slot: u64,
) -> (r: Result<ObligationLiquidity, LendingError>)
    ensures
        r == strict_liquidity_result(*liquidity, *keyed, current_slot),
{
    if !(keyed.key == liquidity.borrow_reserve) {
        return Err(LendingError::InvalidReserveForObligation);
    }
    if keyed.reserve.last_update_slot != current_slot {
        return Err(LendingError::ReserveStale);
    }
    let mut accrued = *liquidity;
    match accrued.accrue_interest(keyed.reserve.liquidity_cumulative_borrow_rate_wads) {
        Ok(()) => {},
        Err(e) => {
            return Err(e);
        },
    }
    price_liquidity(&accrued, &keyed.reserve)
}

/// Strictly refreshes an obligation from the caller-supplied reserve
/// accounts: one account per record, collateral records first and borrow
/// records after, each account matching its record's reserve key and
/// refreshed in this very slot.  Records are revalued, borrow records
/// accrue up to their reserve's cumulative rate, and the four aggregates
/// and the update slot are overwritten together.  All-or-nothing: any
/// mismatch, staleness or failed valuation leaves the obligation
/// unchanged.  On success the aggregates equal the exact sums of the
/// refreshed records' market values.
pub fn refresh_obligation_internal(
    obligation: &mut Obligation,
    reserve_accounts: &Vec<KeyedReserve>,
    current_slot: u64,
) -> (r: Result<(), LendingError>)
    ensures
        reserve_accounts@.len() != old(obligation).deposits@.len() + old(obligation).borrows@.len()
            ==> r == Err::<(), LendingError>(LendingError::InvalidReserveCount) && *final(obligation) == *old(obligation),
        reserve_accounts@.len() == old(obligation).deposits@.len() + old(obligation).borrows@.len()
            ==> (match strict_collaterals_result(
            old(obligation).deposits@,
            reserve_accounts@.subrange(0, old(obligation).deposits@.len() as int),
            current_slot,
        ) {
            Err(e) => r == Err::<(), LendingError>(e) && *final(obligation) == *old(obligation),
            Ok((new_deposits, deposit_totals)) => match strict_borrows_result(
                old(obligation).borrows@,
                reserve_accounts@.subrange(
                    old(obligation).deposits@.len() as int,
                    reserve_accounts@.len() as int,
                ),
                current_slot,
            ) {
                Err(e) => r == Err::<(), LendingError>(e) && *final(obligation) == *old(obligation),
                Ok((new_borrows, borrowed_total)) => r == Ok::<(), LendingError>(()) && final(obligation).deposits@ == new_deposits && final(obligation).borrows@ == new_borrows && final(obligation).deposited_value == deposit_totals.0 && final(obligation).allowed_borrow_value
                    == deposit_totals.1 && final(obligation).unhealthy_borrow_value
                    == deposit_totals.2 && final(obligation).borrowed_value == borrowed_total
                    && final(obligation).last_update_slot == current_slot && final(obligation).version == old(obligation).version && final(obligation).lending_market == old(obligation).lending_market && final(obligation).owner == old(obligation).owner,
            },
        }),
        r is Ok ==> final(obligation).deposited_value == crate::obligation::sum_collateral_values(
            final(obligation).deposits@,
        ) && final(obligation).borrowed_value == crate::obligation::sum_liquidity_values(
            final(obligation).borrows@,
        ),
{
    let deposits_count = obligation.deposits_len();
    let borrows_count = obligation.borrows_len();
    if reserve_accounts.len() < deposits_count || reserve_accounts.len() - deposits_count
        != borrows_count {
        return Err(LendingError::InvalidReserveCount);
    }
    let n = reserve_accounts.len();
    let ghost cs = obligation.deposits@;
    let ghost ls = obligation.borrows@;
    let ghost dkrs = reserve_accounts@.subrange(0, deposits_count as int);
    let ghost bkrs = reserve_accounts@.subrange(deposits_count as int, n as int);

    let mut new_deposits: Vec<ObligationCollateral> = Vec::new();
    let mut total_market: u128 = 0;
    let mut total_allowed: u128 = 0;
    let mut total_unhealthy: u128 = 0;
    proof {
        assert(cs.subrange(0, 0) =~= Seq::<ObligationCollateral>::empty());
        assert(dkrs.subrange(0, 0) =~= Seq::<KeyedReserve>::empty());
    }
    let mut i: usize = 0;
    while i < deposits_count
        invariant
            0 <= i <= deposits_count,
            deposits_count == cs.len(),
            cs.len() <= dkrs.len(),
            dkrs == reserve_accounts@.subrange(0, deposits_count as int),
            deposits_count + borrows_count == reserve_accounts@.len(),
            *obligation == *old(obligation),
            cs == obligation.deposits@,
            ls == obligation.borrows@,
            borrows_count == ls.len(),
            strict_collaterals_result(
                cs.subrange(0, i as int),
                dkrs.subrange(0, i as int),
                current_slot,
            ) == Ok::<(Seq<ObligationCollateral>, (int, int, int)), LendingError>(
                (
                    new_deposits@,
                    (total_market as int, total_allowed as int, total_unhealthy as int),
                ),
            ),
        decreases deposits_count - i,
    {
        proof {
            assert(cs.subrange(0, i + 1).drop_last() =~= cs.subrange(0, i as int));
            assert(dkrs.subrange(0, i + 1).drop_last() =~= dkrs.subrange(0, i as int));
            assert(cs.subrange(0, i + 1).last() == cs[i as int]);
            assert(dkrs.subrange(0, i + 1).last() == dkrs[i as int]);
            assert(dkrs[i as int] == reserve_accounts@[i as int]);
        }
        let collateral = obligation.deposits[i];
        let keyed = &reserve_accounts[i];
        let step = strict_collateral(&collateral, keyed, current_slot);
        let (refreshed, result) = match step {
            Ok(v) => v,
            Err(e) => {
                proof {
                    lemma_strict_collaterals_err_persists(
                        cs,
                        dkrs,
                        current_slot,
                        i + 1,
                        cs.len() as int,
                    );
                    assert(cs.subrange(0, cs.len() as int) =~= cs);
                    assert(dkrs.subrange(0, cs.len() as int) =~= dkrs);
                }
                return Err(e);
            },
        };
        let added = add_three_totals(
            total_market,
            total_allowed,
            total_unhealthy,
            result,
        );
        let (new_market, new_allowed, new_unhealthy) = match added {
            Ok(v) => v,
            Err(e) => {
                proof {
                    lemma_strict_collaterals_err_persists(
                        cs,
                        dkrs,
                        current_slot,
                        i + 1,
                        cs.len() as int,
                    );
                    assert(cs.subrange(0, cs.len() as int) =~= cs);
                    assert(dkrs.subrange(0, cs.len() as int) =~= dkrs);
                }
                return Err(e);
            },
        };
        total_market = new_market;
        total_allowed = new_allowed;
        total_unhealthy = new_unhealthy;
        new_deposits.push(refreshed);
        i = i + 1;
    }
    proof {
        assert(cs.subrange(0, cs.len() as int) =~= cs);
        assert(dkrs.subrange(0, cs.len() as int) =~= dkrs);
    }

    let mut new_borrows: Vec<ObligationLiquidity> = Vec::new();
    let mut total_borrowed: u128 = 0;
    proof {
        assert(ls.subrange(0, 0) =~= Seq::<ObligationLiquidity>::empty());
        assert(bkrs.subrange(0, 0) =~= Seq::<KeyedReserve>::empty());
    }
    let mut j: usize = 0;
    while j < borrows_count
        invariant
            0 <= j <= borrows_count,
            borrows_count == ls.len(),
            ls.len() <= bkrs.len(),
            deposits_count + borrows_count == reserve_accounts@.len(),
            deposits_count + borrows_count <= usize::MAX,
            deposits_count == cs.len(),
            bkrs == reserve_accounts@.subrange(
                deposits_count as int,
                reserve_accounts@.len() as int,
            ),
            dkrs == reserve_accounts@.subrange(0, deposits_count as int),
            *obligation == *old(obligation),
            cs == obligation.deposits@,
            ls == obligation.borrows@,
            strict_collaterals_result(cs, dkrs, current_slot) == Ok::<
                (Seq<ObligationCollateral>, (int, int, int)),
                LendingError,
            >(
                (
                    new_deposits@,
                    (total_market as int, total_allowed as int, total_unhealthy as int),
                ),
            ),
            strict_borrows_result(
                ls.subrange(0, j as int),
                bkrs.subrange(0, j as int),
                current_slot,
            ) == Ok::<(Seq<ObligationLiquidity>, int), LendingError>(
                (new_borrows@, total_borrowed as int),
            ),
        decreases borrows_count - j,
    {
        proof {
            assert(ls.subrange(0, j + 1).drop_last() =~= ls.subrange(0, j as int));
            assert(bkrs.subrange(0, j + 1).drop_last() =~= bkrs.subrange(0, j as int));
            assert(ls.subrange(0, j + 1).last() == ls[j as int]);
            assert(bkrs.subrange(0, j + 1).last() == bkrs[j as int]);
            assert(bkrs[j as int] == reserve_accounts@[deposits_count + j]);
        }
        let liquidity = obligation.borrows[j];
        let keyed = &reserve_accounts[deposits_count + j];
        let step = strict_liquidity(&liquidity, keyed, current_slot);
        let refreshed = match step {
            Ok(v) => v,
            Err(e) => {
                proof {
                    lemma_strict_borrows_err_persists(
                        ls,
                        bkrs,
                        current_slot,
                        j + 1,
                        ls.len() as int,
                    );
                    assert(ls.subrange(0, ls.len() as int) =~= ls);
                    assert(bkrs.subrange(0, ls.len() as int) =~= bkrs);
                }
                return Err(e);
            },
        };
        let new_total = match total_borrowed.checked_add(refreshed.market_value) {
            Some(v) => v,
            None => {
                proof {
                    lemma_strict_borrows_err_persists(
                        ls,
                        bkrs,
                        current_slot,
                        j + 1,
                        ls.len() as int,
                    );
                    assert(ls.subrange(0, ls.len() as int) =~= ls);
                    assert(bkrs.subrange(0, ls.len() as int) =~= bkrs);
                }
                return Err(LendingError::MathOverflow);
            },
        };
        total_borrowed = new_total;
        new_borrows.push(refreshed);
        j = j + 1;
    }
    proof {
        assert(ls.subrange(0, ls.len() as int) =~= ls);
        assert(bkrs.subrange(0, ls.len() as int) =~= bkrs);
        lemma_strict_collaterals_totals_sum(cs, dkrs, current_slot);
        lemma_strict_borrows_totals_sum(ls, bkrs, current_slot);
    }

    obligation.deposits = new_deposits;
    obligation.borrows = new_borrows;
    obligation.deposited_value = total_market;
    obligation.allowed_borrow_value = total_allowed;
    obligation.unhealthy_borrow_value = total_unhealthy;
    obligation.borrowed_value = total_borrowed;
    obligation.last_update_slot = current_slot;
    Ok(())
}

/// The reserves carried by a run of keyed reserve accounts.
pub open spec fn reserves_of(keyed_reserves: Seq<KeyedReserve>) -> Seq<Reserve> {
    Seq::new(keyed_reserves.len(), |i: int| keyed_reserves[i].reserve)
}

/// First violation among the collateral records' paired accounts: each
/// account must carry the record's reserve key and have been refreshed at
/// most one slot ago.
pub open spec fn collateral_precheck(
    collaterals: Seq<ObligationCollateral>,
    keyed_reserves: Seq<KeyedReserve>,
    current_slot: u64,
) -> Option<LendingError>
    decreases collaterals.len(),
{
    if collaterals.len() == 0 {
        None
    } else if keyed_reserves[0].key != collaterals[0].deposit_reserve {
        Some(LendingError::InvalidReserveForObligation)
    } else if keyed_reserves[0].reserve.last_update_slot + 1 < current_slot {
        Some(LendingError::ReserveStale)
    } else {
        collateral_precheck(
            collaterals.subrange(1, collaterals.len() as int),
            keyed_reserves.subrange(1, keyed_reserves.len() as int),
            current_slot,
        )
    }
}

/// First violation among the borrow records' paired accounts.
pub open spec fn liquidity_precheck(
    borrows: Seq<ObligationLiquidity>,
    keyed_reserves: Seq<KeyedReserve>,
    current_slot: u64,
) -> Option<LendingError>
    decreases borrows.len(),
{
    if borrows.len() == 0 {
        None
    } else if keyed_reserves[0].key != borrows[0].borrow_reserve {
        Some(LendingError::InvalidReserveForObligation)
    } else if keyed_reserves[0].reserve.last_update_slot + 1 < current_slot {
        Some(LendingError::ReserveStale)
    } else {
        liquidity_precheck(
            borrows.subrange(1, borrows.len() as int),
            keyed_reserves.subrange(1, keyed_reserves.len() as int),
            current_slot,
        )
    }
}

/// Refreshes an obligation on the per-instruction path: the caller
/// supplies one reserve account per record, collateral records first,
/// each carrying its record's reserve key and refreshed at most one slot
/// ago.  Once all pairings pass, every record is revalued under the
/// windowed rule and the four aggregates and the update slot are
/// overwritten together.  All-or-nothing: any mismatch, staleness or
/// failed valuation leaves the obligation unchanged.
pub fn refresh_obligation(
    obligation: &mut Obligation,
    reserve_accounts: &Vec<KeyedReserve>,
    current_slot: u64,
) -> (r: Result<(), LendingError>)
    ensures
        reserve_accounts@.len() != old(obligation).deposits@.len() + old(obligation).borrows@.len()
            ==> r == Err::<(), LendingError>(LendingError::InvalidReserveCount) && *final(obligation) == *old(obligation),
        reserve_accounts@.len() == old(obligation).deposits@.len() + old(obligation).borrows@.len()
            && reserve_accounts@.len() == 0 ==> r == Err::<(), LendingError>(
            LendingError::NoReservesToRefresh,
        ) && *final(obligation) == *old(obligation),
        reserve_accounts@.len() == old(obligation).deposits@.len() + old(obligation).borrows@.len()
            && reserve_accounts@.len() > 0 ==> (match collateral_precheck(
            old(obligation).deposits@,
            reserve_accounts@.subrange(0, old(obligation).deposits@.len() as int),
            current_slot,
        ) {
            Some(e) => r == Err::<(), LendingError>(e) && *final(obligation) == *old(obligation),
            None => match liquidity_precheck(
                old(obligation).borrows@,
                reserve_accounts@.subrange(
                    old(obligation).deposits@.len() as int,
                    reserve_accounts@.len() as int,
                ),
                current_slot,
            ) {
                Some(e) => r == Err::<(), LendingError>(e) && *final(obligation) == *old(obligation),
                None => match collaterals_result(
                    old(obligation).deposits@,
                    reserves_of(
                        reserve_accounts@.subrange(0, old(obligation).deposits@.len() as int),
                    ),
                    current_slot,
                ) {
                    Err(e) => r == Err::<(), LendingError>(e) && *final(obligation) == *old(obligation),
                    Ok((new_deposits, deposit_totals)) => match borrows_result(
                        old(obligation).borrows@,
                        reserves_of(
                            reserve_accounts@.subrange(
                                old(obligation).deposits@.len() as int,
                                reserve_accounts@.len() as int,
                            ),
                        ),
                        current_slot,
                    ) {
                        Err(e) => r == Err::<(), LendingError>(e) && *final(obligation) == *old(obligation),
                        Ok((new_borrows, borrowed_total)) => r == Ok::<(), LendingError>(())
                            && final(obligation).deposits@ == new_deposits && final(obligation).borrows@ == new_borrows && final(obligation).deposited_value
                            == deposit_totals.0 && final(obligation).allowed_borrow_value
                            == deposit_totals.1 && final(obligation).unhealthy_borrow_value
                            == deposit_totals.2 && final(obligation).borrowed_value
                            == borrowed_total && final(obligation).last_update_slot == current_slot
                            && final(obligation).version == old(obligation).version && final(obligation).lending_market == old(obligation).lending_market && final(obligation).owner == old(obligation).owner,
                    },
                },
            },
        }),
        r is Ok ==> final(obligation).deposited_value == crate::obligation::sum_collateral_values(
            final(obligation).deposits@,
        ) && final(obligation).borrowed_value == crate::obligation::sum_liquidity_values(
            final(obligation).borrows@,
        ),
{
    let deposits_count = obligation.deposits_len();
    let borrows_count = obligation.borrows_len();
    if reserve_accounts.len() < deposits_count || reserve_accounts.len() - deposits_count
        != borrows_count {
        return Err(LendingError::InvalidReserveCount);
    }
    if reserve_accounts.len() == 0 {
        return Err(LendingError::NoReservesToRefresh);
    }
    let n = reserve_accounts.len();
    let ghost cs = obligation.deposits@;
    let ghost ls = obligation.borrows@;
    let ghost dkrs = reserve_accounts@.subrange(0, deposits_count as int);
    let ghost bkrs = reserve_accounts@.subrange(deposits_count as int, n as int);

    proof {
        assert(cs.subrange(0, cs.len() as int) =~= cs);
        assert(dkrs.subrange(0, dkrs.len() as int) =~= dkrs);
    }
    let mut i: usize = 0;
    while i < deposits_count
        invariant
            0 <= i <= deposits_count,
            deposits_count == cs.len(),
            cs.len() == dkrs.len(),
            deposits_count + borrows_count == reserve_accounts@.len(),
            dkrs == reserve_accounts@.subrange(0, deposits_count as int),
            *obligation == *old(obligation),
            cs == obligation.deposits@,
            ls == obligation.borrows@,
            borrows_count == ls.len(),
            collateral_precheck(
                cs.subrange(i as int, cs.len() as int),
                dkrs.subrange(i as int, dkrs.len() as int),
                current_slot,
            ) == collateral_precheck(cs, dkrs, current_slot),
        decreases deposits_count - i,
    {
        proof {
            reveal_with_fuel(collateral_precheck, 2);
            assert(cs.subrange(i as int, cs.len() as int)[0] == cs[i as int]);
            assert(dkrs.subrange(i as int, dkrs.len() as int)[0] == dkrs[i as int]);
            assert(dkrs[i as int] == reserve_accounts@[i as int]);
        }
        let keyed = &reserve_accounts[i];
        if !(keyed.key == obligation.deposits[i].deposit_reserve) {
            proof {
                reveal_with_fuel(collateral_precheck, 2);
                assert(collateral_precheck(cs, dkrs, current_slot) == Some(
                    LendingError::InvalidReserveForObligation,
                ));
            }
            return Err(LendingError::InvalidReserveForObligation);
        }
        let fresh = match verify_reserve_freshness(&keyed.reserve, current_slot) {
            Ok(()) => true,
            Err(_) => false,
        };
        if !fresh {
            proof {
                reveal_with_fuel(collateral_precheck, 2);
                assert(collateral_precheck(cs, dkrs, current_slot) == Some(
                    LendingError::ReserveStale,
                ));
            }
            return Err(LendingError::ReserveStale);
        }
        proof {
            reveal_with_fuel(collateral_precheck, 2);
            let suffix = cs.subrange(i as int, cs.len() as int);
            let keyed_suffix = dkrs.subrange(i as int, dkrs.len() as int);
            assert(suffix.len() > 0);
            assert(keyed_suffix[0].key == suffix[0].deposit_reserve);
            assert(!(keyed_suffix[0].reserve.last_update_slot + 1 < current_slot));
            assert(collateral_precheck(suffix, keyed_suffix, current_slot)
                == collateral_precheck(
                suffix.subrange(1, suffix.len() as int),
                keyed_suffix.subrange(1, keyed_suffix.len() as int),
                current_slot,
            ));
            assert(cs.subrange(i as int, cs.len() as int).subrange(
                1,
                cs.subrange(i as int, cs.len() as int).len() as int,
            ) =~= cs.subrange(i + 1, cs.len() as int));
            assert(dkrs.subrange(i as int, dkrs.len() as int).subrange(
                1,
                dkrs.subrange(i as int, dkrs.len() as int).len() as int,
            ) =~= dkrs.subrange(i + 1, dkrs.len() as int));
            assert(collateral_precheck(
                cs.subrange(i + 1, cs.len() as int),
                dkrs.subrange(i + 1, dkrs.len() as int),
                current_slot,
            ) == collateral_precheck(
                cs.subrange(i as int, cs.len() as int),
                dkrs.subrange(i as int, dkrs.len() as int),
                current_slot,
            ));
        }
        i = i + 1;
    }

    proof {
        assert(cs.subrange(deposits_count as int, cs.len() as int) =~= Seq::<
            ObligationCollateral,
        >::empty());
        assert(dkrs.subrange(deposits_count as int, dkrs.len() as int) =~= Seq::<
            KeyedReserve,
        >::empty());
        assert(collateral_precheck(cs, dkrs, current_slot) is None);
        assert(ls.subrange(0, ls.len() as int) =~= ls);
        assert(bkrs.subrange(0, bkrs.len() as int) =~= bkrs);
    }
    let mut j: usize = 0;
    while j < borrows_count
        invariant
            0 <= j <= borrows_count,
            borrows_count == ls.len(),
            ls.len() == bkrs.len(),
            deposits_count + borrows_count == reserve_accounts@.len(),
            deposits_count + borrows_count <= usize::MAX,
            deposits_count == cs.len(),
            bkrs == reserve_accounts@.subrange(
                deposits_count as int,
                reserve_accounts@.len() as int,
            ),
            dkrs == reserve_accounts@.subrange(0, deposits_count as int),
            *obligation == *old(obligation),
            cs == obligation.deposits@,
            ls == obligation.borrows@,
            collateral_precheck(cs, dkrs, current_slot) is None,
            liquidity_precheck(
                ls.subrange(j as int, ls.len() as int),
                bkrs.subrange(j as int, bkrs.len() as int),
                current_slot,
            ) == liquidity_precheck(ls, bkrs, current_slot),
        decreases borrows_count - j,
    {
        proof {
            reveal_with_fuel(liquidity_precheck, 2);
            assert(ls.subrange(j as int, ls.len() as int)[0] == ls[j as int]);
            assert(bkrs.subrange(j as int, bkrs.len() as int)[0] == bkrs[j as int]);
            assert(bkrs[j as int] == reserve_accounts@[deposits_count + j]);
        }
        let keyed = &reserve_accounts[deposits_count + j];
        if !(keyed.key == obligation.borrows[j].borrow_reserve) {
            proof {
                reveal_with_fuel(liquidity_precheck, 2);
                assert(liquidity_precheck(ls, bkrs, current_slot) == Some(
                    LendingError::InvalidReserveForObligation,
                ));
            }
            return Err(LendingError::InvalidReserveForObligation);
        }
        let fresh = match verify_reserve_freshness(&keyed.reserve, current_slot) {
            Ok(()) => true,
            Err(_) => false,
        };
        if !fresh {
            proof {
                reveal_with_fuel(liquidity_precheck, 2);
                assert(liquidity_precheck(ls, bkrs, current_slot) == Some(
                    LendingError::ReserveStale,
                ));
            }
            return Err(LendingError::ReserveStale);
        }
        proof {
            reveal_with_fuel(liquidity_precheck, 2);
            assert(ls.subrange(j as int, ls.len() as int).subrange(
                1,
                ls.subrange(j as int, ls.len() as int).len() as int,
            ) =~= ls.subrange(j + 1, ls.len() as int));
            assert(bkrs.subrange(j as int, bkrs.len() as int).subrange(
                1,
                bkrs.subrange(j as int, bkrs.len() as int).len() as int,
            ) =~= bkrs.subrange(j + 1, bkrs.len() as int));
            assert(liquidity_precheck(
                ls.subrange(j + 1, ls.len() as int),
                bkrs.subrange(j + 1, bkrs.len() as int),
                current_slot,
            ) == liquidity_precheck(
                ls.subrange(j as int, ls.len() as int),
                bkrs.subrange(j as int, bkrs.len() as int),
                current_slot,
            ));
        }
        j = j + 1;
    }

    proof {
        assert(ls.subrange(borrows_count as int, ls.len() as int) =~= Seq::<
            ObligationLiquidity,
        >::empty());
        assert(bkrs.subrange(borrows_count as int, bkrs.len() as int) =~= Seq::<
            KeyedReserve,
        >::empty());
        assert(liquidity_precheck(ls, bkrs, current_slot) is None);
    }
    let mut deposit_reserves: Vec<Reserve> = Vec::new();
    let mut k: usize = 0;
    while k < deposits_count
        invariant
            0 <= k <= deposits_count,
            deposits_count + borrows_count == reserve_accounts@.len(),
            dkrs == reserve_accounts@.subrange(0, deposits_count as int),
            bkrs == reserve_accounts@.subrange(
                deposits_count as int,
                reserve_accounts@.len() as int,
            ),
            deposits_count == cs.len(),
            borrows_count == ls.len(),
            *obligation == *old(obligation),
            cs == obligation.deposits@,
            ls == obligation.borrows@,
            collateral_precheck(cs, dkrs, current_slot) is None,
            liquidity_precheck(ls, bkrs, current_slot) is None,
            deposit_reserves@.len() == k,
            forall|m: int| 0 <= m < k ==> deposit_reserves@[m] == dkrs[m].reserve,
        decreases deposits_count - k,
    {
        proof {
            assert(dkrs[k as int] == reserve_accounts@[k as int]);
        }
        deposit_reserves.push(reserve_accounts[k].reserve);
        k = k + 1;
    }
    proof {
        assert(deposit_reserves@ =~= reserves_of(dkrs));
    }

    let mut borrow_reserves: Vec<Reserve> = Vec::new();
    let mut m: usize = 0;
    while m < borrows_count
        invariant
            0 <= m <= borrows_count,
            deposits_count + borrows_count == reserve_accounts@.len(),
            deposits_count + borrows_count <= usize::MAX,
            bkrs == reserve_accounts@.subrange(
                deposits_count as int,
                reserve_accounts@.len() as int,
            ),
            dkrs == reserve_accounts@.subrange(0, deposits_count as int),
            deposits_count == cs.len(),
            borrows_count == ls.len(),
            *obligation == *old(obligation),
            cs == obligation.deposits@,
            ls == obligation.borrows@,
            collateral_precheck(cs, dkrs, current_slot) is None,
            liquidity_precheck(ls, bkrs, current_slot) is None,
            deposit_reserves@ == reserves_of(dkrs),
            borrow_reserves@.len() == m,
            forall|q: int| 0 <= q < m ==> borrow_reserves@[q] == bkrs[q].reserve,
        decreases borrows_count - m,
    {
        proof {
            assert(bkrs[m as int] == reserve_accounts@[deposits_count + m]);
        }
        borrow_reserves.push(reserve_accounts[deposits_count + m].reserve);
        m = m + 1;
    }
    proof {
        assert(borrow_reserves@ =~= reserves_of(bkrs));
    }

    let (new_deposits, total_market, total_allowed, total_unhealthy) =
        match refresh_collaterals_vec(&obligation.deposits, &deposit_reserves, current_slot) {
        Ok(v) => v,
        Err(e) => {
            return Err(e);
        },
    };
    let (new_borrows, borrowed_total) = match refresh_borrows_vec(
        &obligation.borrows,
        &borrow_reserves,
        current_slot,
    ) {
        Ok(v) => v,
        Err(e) => {
            return Err(e);
        },
    };

    proof {
        lemma_collaterals_totals_sum(obligation.deposits@, deposit_reserves@, current_slot);
        lemma_borrows_totals_sum(obligation.borrows@, borrow_reserves@, current_slot);
    }

    obligation.deposits = new_deposits;
    obligation.borrows = new_borrows;
    obligation.deposited_value = total_market;
    obligation.allowed_borrow_value = total_allowed;
    obligation.unhealthy_borrow_value = total_unhealthy;
    obligation.borrowed_value = borrowed_total;
    obligation.last_update_slot = current_slot;
    Ok(())
}

/// Adds one collateral's three refresh values onto the running totals,
/// all checked.
fn add_three_totals(
    total_market: u128,
    total_allowed: u128,
    total_unhealthy: u128,
    result: CollateralRefreshResult,
) -> (r: Result<(u128, u128, u128), LendingError>)
    ensures
        total_market + result.market_value > u128::MAX ==> r == Err::<
            (u128, u128, u128),
            LendingError,
        >(LendingError::MathOverflow),
        total_market + result.market_value <= u128::MAX && total_allowed
            + result.allowed_borrow_value > u128::MAX ==> r == Err::<
            (u128, u128, u128),
            LendingError,
        >(LendingError::MathOverflow),
        total_market + result.market_value <= u128::MAX && total_allowed
            + result.allowed_borrow_value <= u128::MAX && total_unhealthy
            + result.unhealthy_borrow_value > u128::MAX ==> r == Err::<
            (u128, u128, u128),
            LendingError,
        >(LendingError::MathOverflow),
        total_market + result.market_value <= u128::MAX && total_allowed
            + result.allowed_borrow_value <= u128::MAX && total_unhealthy
            + result.unhealthy_borrow_value <= u128::MAX ==> r == Ok::<
            (u128, u128, u128),
            LendingError,
        >(
            (
                (total_market + result.market_value) as u128,
                (total_allowed + result.allowed_borrow_value) as u128,
                (total_unhealthy + result.unhealthy_borrow_value) as u128,
            ),
        ),
{
    let new_market = match total_market.checked_add(result.market_value) {
        Some(v) => v,
        None => {
            return Err(LendingError::MathOverflow);
        },
    };
    let new_allowed = match total_allowed.checked_add(result.allowed_borrow_value) {
        Some(v) => v,
        None => {
            return Err(LendingError::MathOverflow);
        },
    };
    let new_unhealthy = match total_unhealthy.checked_add(result.unhealthy_borrow_value) {
        Some(v) => v,
        None => {
            return Err(LendingError::MathOverflow);
        },
    };
    Ok((new_market, new_allowed, new_unhealthy))
}

} // verus!
