//! A reserve: one single-asset liquidity pool with its own interest-rate
//! curve, oracle price and collateral-receipt mint.

use vstd::prelude::*;

use vstd::arithmetic::div_mod::{
    lemma_div_is_ordered, lemma_div_multiples_vanish, lemma_fundamental_div_mod,
};
use vstd::arithmetic::mul::lemma_mul_inequality;

use crate::errors::LendingError;
use crate::keys::Pubkey;
use crate::reserve_config::ReserveConfig;
use crate::WAD;

verus! {

/// A liquidity pool inside a lending market.
///
/// The mutable ledger is `liquidity_available_amount` (token units),
/// `liquidity_borrowed_amount_wads` (WAD-scaled, so fractional debt from
/// interest accrual is representable), the WAD-scaled
/// `liquidity_cumulative_borrow_rate_wads` (starts at 1.0 and only grows),
/// the oracle price and the collateral-receipt supply.  Everything else is
/// identity or configuration fixed at initialization.
#[derive(Clone, Copy, Debug)]
pub struct Reserve {
    /// Record-format version.
    pub version: u8,
    /// Slot at which interest and price were last brought current.
    pub last_update_slot: u64,
    /// Lending market the reserve belongs to.
    pub lending_market: Pubkey,
    /// Mint of the underlying liquidity token.
    pub liquidity_mint: Pubkey,
    /// Decimals of the liquidity mint.
    pub liquidity_mint_decimals: u8,
    /// Vault holding deposited liquidity.
    pub liquidity_supply: Pubkey,
    /// Account receiving protocol fees.
    pub liquidity_fee_receiver: Pubkey,
    /// Oracle account pricing the liquidity token.
    pub liquidity_oracle: Pubkey,
    /// Liquidity currently available for borrowing or withdrawal.
    pub liquidity_available_amount: u64,
    /// Liquidity currently borrowed, WAD-scaled.
    pub liquidity_borrowed_amount_wads: u128,
    /// Cumulative borrow interest rate, WAD-scaled, monotonically growing.
    pub liquidity_cumulative_borrow_rate_wads: u128,
    /// Current oracle market price, WAD-scaled quote units.
    pub liquidity_market_price: u128,
    /// Mint of the collateral-receipt token.
    pub collateral_mint: Pubkey,
    /// Vault holding escrowed collateral receipts.
    pub collateral_supply: Pubkey,
    /// Total collateral receipts outstanding.
    pub collateral_mint_total_supply: u64,
    /// Risk, rate and fee parameters.
    pub config: ReserveConfig,
}

impl PartialEq for Reserve {
    fn eq(&self, other: &Reserve) -> (r: bool) {
        self.version == other.version && self.last_update_slot == other.last_update_slot
            && self.lending_market == other.lending_market && self.liquidity_mint
            == other.liquidity_mint && self.liquidity_mint_decimals
            == other.liquidity_mint_decimals && self.liquidity_supply == other.liquidity_supply
            && self.liquidity_fee_receiver == other.liquidity_fee_receiver
            && self.liquidity_oracle == other.liquidity_oracle && self.liquidity_available_amount
            == other.liquidity_available_amount && self.liquidity_borrowed_amount_wads
            == other.liquidity_borrowed_amount_wads && self.liquidity_cumulative_borrow_rate_wads
            == other.liquidity_cumulative_borrow_rate_wads && self.liquidity_market_price
            == other.liquidity_market_price && self.collateral_mint == other.collateral_mint
            && self.collateral_supply == other.collateral_supply
            && self.collateral_mint_total_supply == other.collateral_mint_total_supply
            && self.config == other.config
    }
}

impl Eq for Reserve {}

impl vstd::std_specs::cmp::PartialEqSpecImpl for Reserve {
    open spec fn obeys_eq_spec() -> bool {
        true
    }

    open spec fn eq_spec(&self, other: &Reserve) -> bool {
        *self == *other
    }
}

impl Reserve {
    /// Record-format version written at initialization.
    pub const PROGRAM_VERSION: u8 = 1;

    /// Cumulative borrow rate at initialization: 1.0 in WAD.
    pub const INITIAL_BORROW_RATE: u128 = WAD;

    /// Approximate number of slots per year, for per-slot interest.
    pub const SLOTS_PER_YEAR: u128 = 63_072_000;

    /// A reserve older than this many slots is stale.
    pub const MAX_STALE_SLOTS: u64 = 120;

    /// Interest accrues over at most this many slots in one call.
    pub const MAX_ACCRUE_SLOTS: u64 = 100_000;

    /// Structural validity: the embedded configuration passed validation.
    pub open spec fn wf(self) -> bool {
        self.config.valid()
    }

    /// Total liquidity in token units: available plus the floor of the
    /// borrowed WAD amount.
    pub open spec fn total_liquidity_spec(self) -> int {
        self.liquidity_available_amount + self.liquidity_borrowed_amount_wads / WAD
    }

    /// WAD-scaled exchange rate between collateral receipts and liquidity:
    /// `total_liquidity * WAD / collateral_supply`, or 1.0 WAD while no
    /// receipts are outstanding.
    pub open spec fn exchange_rate_spec(self) -> int {
        if self.collateral_mint_total_supply == 0 {
            WAD as int
        } else {
            self.total_liquidity_spec() * WAD / (self.collateral_mint_total_supply as int)
        }
    }

    /// The one way computing the exchange rate can fail: the WAD-scaled
    /// numerator does not fit in a `u128`.
    pub open spec fn exchange_rate_overflows(self) -> bool {
        &&& self.collateral_mint_total_supply != 0
        &&& self.total_liquidity_spec() * WAD > u128::MAX
    }

    /// What `collateral_exchange_rate` returns.
    pub open spec fn exchange_rate_result(self) -> Result<u128, LendingError> {
        if self.exchange_rate_overflows() {
            Err(LendingError::MathOverflow)
        } else {
            Ok(self.exchange_rate_spec() as u128)
        }
    }

    /// True if the reserve has gone more than `MAX_STALE_SLOTS` slots
    /// without a refresh.  Fails when the clock moved backwards past the
    /// last update.
    pub fn is_stale(&self, current_slot: u64) -> (r: Result<bool, LendingError>)
        ensures
            current_slot < self.last_update_slot ==> r == Err::<bool, LendingError>(
                LendingError::MathOverflow,
            ),
            current_slot >= self.last_update_slot ==> r == Ok::<bool, LendingError>(
                current_slot - self.last_update_slot > Self::MAX_STALE_SLOTS,
            ),
    {
        match current_slot.checked_sub(self.last_update_slot) {
            Some(slots_elapsed) => Ok(slots_elapsed > Self::MAX_STALE_SLOTS),
            None => Err(LendingError::MathOverflow),
        }
    }

    /// Pushes `last_update_slot` back far enough that `is_stale` reports
    /// true, saturating at slot zero.
    pub fn mark_stale(&mut self)
        ensures
            final(self).last_update_slot == (if old(self).last_update_slot >= Self::MAX_STALE_SLOTS
                + 1 {
                (old(self).last_update_slot - (Self::MAX_STALE_SLOTS + 1)) as u64
            } else {
                0u64
            }),
            *final(self) == (Reserve {
                last_update_slot: final(self).last_update_slot,
                ..*old(self)
            }),
    {
        if self.last_update_slot >= Self::MAX_STALE_SLOTS + 1 {
            self.last_update_slot = self.last_update_slot - (Self::MAX_STALE_SLOTS + 1);
        } else {
            self.last_update_slot = 0;
        }
    }

    /// Bounds the floor of the borrowed WAD amount, so that sums with a
    /// `u64` stay inside `u128`.
    proof fn lemma_borrowed_floor_bound(self)
        ensures
            0 <= self.liquidity_borrowed_amount_wads / WAD <= u128::MAX as int / WAD as int,
    {
        lemma_div_is_ordered(
            self.liquidity_borrowed_amount_wads as int,
            u128::MAX as int,
            WAD as int,
        );
    }

    /// WAD-scaled exchange rate between collateral receipts and the
    /// underlying liquidity (`total_liquidity / collateral_supply`), 1.0
    /// while no receipts exist.
    pub fn collateral_exchange_rate(&self) -> (r: Result<u128, LendingError>)
        ensures
            r == self.exchange_rate_result(),
    {
        if self.collateral_mint_total_supply == 0 {
            return Ok(Self::INITIAL_BORROW_RATE);
        }

        let borrowed_liquidity = self.liquidity_borrowed_amount_wads / Self::INITIAL_BORROW_RATE;

        proof {
            self.lemma_borrowed_floor_bound();
        }
        let total_liquidity = (self.liquidity_available_amount as u128) + borrowed_liquidity;

        match total_liquidity.checked_mul(Self::INITIAL_BORROW_RATE) {
            Some(scaled) => Ok(scaled / (self.collateral_mint_total_supply as u128)),
            None => Err(LendingError::MathOverflow),
        }
    }

    /// What `collateral_to_liquidity` returns: `c * rate / WAD`, floored,
    /// with every intermediate checked.
    pub open spec fn collateral_to_liquidity_result(self, collateral_amount: u64) -> Result<
        u64,
        LendingError,
    > {
        match self.exchange_rate_result() {
            Err(e) => Err(e),
            Ok(rate) => if collateral_amount * rate > u128::MAX {
                Err(LendingError::MathOverflow)
            } else if collateral_amount * rate / (WAD as int) > u64::MAX {
                Err(LendingError::MathOverflow)
            } else {
                Ok((collateral_amount * rate / (WAD as int)) as u64)
            },
        }
    }

    /// Converts collateral-receipt units to liquidity units at the current
    /// exchange rate, rounding down.
    pub fn collateral_to_liquidity(&self, collateral_amount: u64) -> (r: Result<u64, LendingError>)
        ensures
            r == self.collateral_to_liquidity_result(collateral_amount),
    {
        let exchange_rate = match self.collateral_exchange_rate() {
            Ok(rate) => rate,
            Err(e) => {
                return Err(e);
            },
        };
        match (collateral_amount as u128).checked_mul(exchange_rate) {
            Some(scaled) => {
                let liquidity_amount = scaled / Self::INITIAL_BORROW_RATE;
                if liquidity_amount > u64::MAX as u128 {
                    Err(LendingError::MathOverflow)
                } else {
                    Ok(liquidity_amount as u64)
                }
            },
            None => Err(LendingError::MathOverflow),
        }
    }

    /// What `liquidity_to_collateral` returns: `l * WAD / rate`, floored,
    /// failing on a zero exchange rate.
    pub open spec fn liquidity_to_collateral_result(self, liquidity_amount: u64) -> Result<
        u64,
        LendingError,
    > {
        match self.exchange_rate_result() {
            Err(e) => Err(e),
            Ok(rate) => if rate == 0 {
                Err(LendingError::MathOverflow)
            } else if liquidity_amount * WAD / (rate as int) > u64::MAX {
                Err(LendingError::MathOverflow)
            } else {
                Ok((liquidity_amount * WAD / (rate as int)) as u64)
            },
        }
    }

    /// Converts liquidity units to collateral-receipt units at the current
    /// exchange rate, rounding down.
    pub fn liquidity_to_collateral(&self, liquidity_amount: u64) -> (r: Result<u64, LendingError>)
        ensures
            r == self.liquidity_to_collateral_result(liquidity_amount),
    {
        let exchange_rate = match self.collateral_exchange_rate() {
            Ok(rate) => rate,
            Err(e) => {
                return Err(e);
            },
        };
        proof {
            lemma_mul_inequality(liquidity_amount as int, u64::MAX as int, WAD as int);
        }
        let scaled = (liquidity_amount as u128) * Self::INITIAL_BORROW_RATE;
        match scaled.checked_div(exchange_rate) {
            Some(collateral_amount) => {
                if collateral_amount > u64::MAX as u128 {
                    Err(LendingError::MathOverflow)
                } else {
                    Ok(collateral_amount as u64)
                }
            },
            None => Err(LendingError::MathOverflow),
        }
    }

    /// What `deposit_liquidity` does: mint receipts at the current rate and
    /// grow both the pool and the receipt supply.
    pub open spec fn deposit_liquidity_result(self, liquidity_amount: u64) -> Result<
        (Reserve, u64),
        LendingError,
    > {
        if liquidity_amount == 0 {
            Err(LendingError::InvalidAmount)
        } else {
            match self.liquidity_to_collateral_result(liquidity_amount) {
                Err(e) => Err(e),
                Ok(collateral_amount) => if self.liquidity_available_amount + liquidity_amount
                    > u64::MAX {
                    Err(LendingError::MathOverflow)
                } else if self.collateral_mint_total_supply + collateral_amount > u64::MAX {
                    Err(LendingError::MathOverflow)
                } else {
                    Ok(
                        (
                            Reserve {
                                liquidity_available_amount: (self.liquidity_available_amount
                                    + liquidity_amount) as u64,
                                collateral_mint_total_supply: (self.collateral_mint_total_supply
                                    + collateral_amount) as u64,
                                ..self
                            },
                            collateral_amount,
                        ),
                    )
                },
            }
        }
    }

    /// Deposits liquidity into the pool and returns the number of
    /// collateral receipts minted for it at the current exchange rate.
    /// Rejects zero deposits; on any error the reserve is unchanged.
    pub fn deposit_liquidity(&mut self, liquidity_amount: u64) -> (r: Result<u64, LendingError>)
        ensures
            (match old(self).deposit_liquidity_result(liquidity_amount) {
                Ok((reserve, collateral_amount)) => r == Ok::<u64, LendingError>(collateral_amount)
                    && *final(self) == reserve,
                Err(e) => r == Err::<u64, LendingError>(e) && *final(self) == *old(self),
            }),
    {
        if liquidity_amount == 0 {
            return Err(LendingError::InvalidAmount);
        }

        let collateral_amount = match self.liquidity_to_collateral(liquidity_amount) {
            Ok(amount) => amount,
            Err(e) => {
                return Err(e);
            },
        };

        let new_available = match self.liquidity_available_amount.checked_add(liquidity_amount) {
            Some(v) => v,
            None => {
                return Err(LendingError::MathOverflow);
            },
        };
        let new_supply = match self.collateral_mint_total_supply.checked_add(collateral_amount) {
            Some(v) => v,
            None => {
                return Err(LendingError::MathOverflow);
            },
        };
        self.liquidity_available_amount = new_available;
        self.collateral_mint_total_supply = new_supply;
        Ok(collateral_amount)
    }

    /// What `calculate_utilization_rate` returns: the borrowed share of
    /// total liquidity, scaled so that 100% is `100 * WAD`.
    pub open spec fn utilization_result(self) -> Result<u128, LendingError> {
        let borrowed = self.liquidity_borrowed_amount_wads / WAD;
        let total = self.liquidity_available_amount + borrowed;
        if total == 0 {
            Ok(0u128)
        } else if borrowed * 100 * WAD > u128::MAX {
            Err(LendingError::MathOverflow)
        } else {
            Ok((borrowed * 100 * WAD / total) as u128)
        }
    }

    /// Fraction of total liquidity currently borrowed, scaled so that 100%
    /// is `100 * WAD`; zero for an empty pool.
    pub fn calculate_utilization_rate(&self) -> (r: Result<u128, LendingError>)
        ensures
            r == self.utilization_result(),
            r matches Ok(u) ==> u <= 100 * WAD,
    {
        let borrowed = self.liquidity_borrowed_amount_wads / Self::INITIAL_BORROW_RATE;
        proof {
            self.lemma_borrowed_floor_bound();
        }
        let total_liquidity = (self.liquidity_available_amount as u128) + borrowed;

        if total_liquidity == 0 {
            return Ok(0);
        }

        let borrowed_pct = borrowed * 100;
        match borrowed_pct.checked_mul(Self::INITIAL_BORROW_RATE) {
            Some(scaled) => {
                let utilization = scaled / total_liquidity;
                proof {
                    lemma_mul_inequality(
                        borrowed as int,
                        total_liquidity as int,
                        100 * (WAD as int),
                    );
                    lemma_div_is_ordered(
                        scaled as int,
                        total_liquidity * (100 * (WAD as int)),
                        total_liquidity as int,
                    );
                    lemma_div_multiples_vanish(100 * (WAD as int), total_liquidity as int);
                }
                Ok(utilization)
            },
            None => Err(LendingError::MathOverflow),
        }
    }

    /// WAD-scaled borrow rate for a given utilization, along the
    /// two-segment piecewise-linear curve that pivots at
    /// `optimal_utilization_rate`: below the pivot the rate climbs from
    /// `min_borrow_rate` to `optimal_borrow_rate`, above it from
    /// `optimal_borrow_rate` to `max_borrow_rate`.
    pub open spec fn borrow_rate_spec(self, utilization_rate: u128) -> int {
        let optimal_util = self.config.optimal_utilization_rate * WAD;
        if utilization_rate <= optimal_util {
            let util_ratio = if optimal_util > 0 {
                utilization_rate * WAD / optimal_util
            } else {
                0
            };
            let rate_pct = self.config.min_borrow_rate + (self.config.optimal_borrow_rate
                - self.config.min_borrow_rate) * util_ratio / (WAD as int);
            rate_pct * (WAD / 100)
        } else {
            let excess_util = utilization_rate - optimal_util;
            let max_excess = 100 * WAD - optimal_util;
            let util_ratio = if max_excess > 0 {
                excess_util * WAD / max_excess
            } else {
                0
            };
            let rate_pct = self.config.optimal_borrow_rate + (self.config.max_borrow_rate
                - self.config.optimal_borrow_rate) * util_ratio / (WAD as int);
            rate_pct * (WAD / 100)
        }
    }

    /// Interpolates one segment of the rate curve: base percentage plus
    /// `range` scaled by a ratio of at most 1.0 WAD, then converted to a
    /// WAD-scaled rate.
    fn interpolate_rate(base_pct: u8, range_pct: u8, util_ratio: u128) -> (r: u128)
        requires
            util_ratio <= WAD,
        ensures
            r == (base_pct + range_pct * util_ratio / (WAD as int)) * (WAD / 100),
            r <= 510 * (WAD / 100),
    {
        proof {
            lemma_mul_inequality(range_pct as int, 255, util_ratio as int);
            lemma_mul_inequality(util_ratio as int, WAD as int, 255);
            lemma_div_is_ordered(
                (range_pct as int) * (util_ratio as int),
                255 * (WAD as int),
                WAD as int,
            );
            lemma_div_multiples_vanish(255, WAD as int);
        }
        let scaled_range = (range_pct as u128) * util_ratio;
        let rate_pct = (base_pct as u128) + scaled_range / Self::INITIAL_BORROW_RATE;
        rate_pct * (Self::INITIAL_BORROW_RATE / 100)
    }

    /// Divides a WAD-scaled numerator by a bound it cannot exceed, giving a
    /// ratio of at most 1.0 WAD.
    proof fn lemma_ratio_at_most_wad(part: int, whole: int)
        requires
            0 <= part <= whole,
            0 < whole,
        ensures
            0 <= part * WAD / whole <= WAD,
            part * WAD <= whole * WAD,
    {
        lemma_mul_inequality(part, whole, WAD as int);
        lemma_div_is_ordered(part * WAD, whole * WAD, whole);
        lemma_div_multiples_vanish(WAD as int, whole);
        vstd::arithmetic::div_mod::lemma_div_pos_is_pos(part * WAD, whole);
        vstd::arithmetic::mul::lemma_mul_nonnegative(part, WAD as int);
    }

    /// Borrow rate for the given utilization along the two-segment curve.
    /// Never fails for a validated configuration and a utilization of at
    /// most 100%.
    pub fn calculate_borrow_rate(&self, utilization_rate: u128) -> (r: Result<u128, LendingError>)
        requires
            self.config.valid(),
            utilization_rate <= 100 * WAD,
        ensures
            r == Ok::<u128, LendingError>(self.borrow_rate_spec(utilization_rate) as u128),
            0 <= self.borrow_rate_spec(utilization_rate) <= 510 * (WAD / 100),
    {
        let optimal_util = (self.config.optimal_utilization_rate as u128)
            * Self::INITIAL_BORROW_RATE;

        if utilization_rate <= optimal_util {
            let util_ratio: u128 = if optimal_util > 0 {
                proof {
                    Self::lemma_ratio_at_most_wad(utilization_rate as int, optimal_util as int);
                }
                (utilization_rate * Self::INITIAL_BORROW_RATE) / optimal_util
            } else {
                0
            };
            let rate_range = self.config.optimal_borrow_rate - self.config.min_borrow_rate;
            Ok(Self::interpolate_rate(self.config.min_borrow_rate, rate_range, util_ratio))
        } else {
            let excess_util = utilization_rate - optimal_util;
            let max_excess = 100 * Self::INITIAL_BORROW_RATE - optimal_util;
            let util_ratio: u128 = if max_excess > 0 {
                proof {
                    Self::lemma_ratio_at_most_wad(excess_util as int, max_excess as int);
                }
                (excess_util * Self::INITIAL_BORROW_RATE) / max_excess
            } else {
                0
            };
            let rate_range = self.config.max_borrow_rate - self.config.optimal_borrow_rate;
            Ok(Self::interpolate_rate(self.config.optimal_borrow_rate, rate_range, util_ratio))
        }
    }

    /// Simple per-slot interest factor: `1.0 + rate * slots / SLOTS_PER_YEAR`
    /// in WAD.  A deliberate linear approximation of compounding.
    pub open spec fn compound_factor_spec(rate: int, slots: int) -> int {
        WAD + rate * slots / (Self::SLOTS_PER_YEAR as int)
    }

    /// Computes the WAD-scaled interest factor for `slots` slots at the
    /// given WAD-scaled annual rate.
    fn compound_interest(&self, rate: u128, slots: u128) -> (r: Result<u128, LendingError>)
        requires
            rate <= 510 * (WAD / 100),
            slots <= Self::MAX_ACCRUE_SLOTS,
        ensures
            r == Ok::<u128, LendingError>(Self::compound_factor_spec(rate as int, slots as int)
                as u128),
            r matches Ok(f) ==> f >= WAD,
            WAD <= Self::compound_factor_spec(rate as int, slots as int) <= u128::MAX,
    {
        proof {
            vstd::arithmetic::mul::lemma_mul_upper_bound(
                rate as int,
                510 * (WAD as int / 100),
                slots as int,
                Self::MAX_ACCRUE_SLOTS as int,
            );
            vstd::arithmetic::mul::lemma_mul_nonnegative(rate as int, slots as int);
            vstd::arithmetic::div_mod::lemma_div_nonincreasing(
                (rate * slots) as int,
                Self::SLOTS_PER_YEAR as int,
            );
            vstd::arithmetic::div_mod::lemma_div_pos_is_pos(
                (rate * slots) as int,
                Self::SLOTS_PER_YEAR as int,
            );
        }
        let rate_per_slot = (rate * slots) / Self::SLOTS_PER_YEAR;
        Ok(Self::INITIAL_BORROW_RATE + rate_per_slot)
    }

    /// A value grown by a WAD-scaled factor of at least 1.0 does not
    /// shrink.
    proof fn lemma_grow_by_factor(x: int, factor: int)
        requires
            0 <= x,
            WAD <= factor,
        ensures
            x * factor / (WAD as int) >= x,
            0 <= x * factor,
    {
        lemma_mul_inequality(WAD as int, factor, x);
        lemma_div_multiples_vanish(x, WAD as int);
        lemma_div_is_ordered(x * (WAD as int), x * factor, WAD as int);
        vstd::arithmetic::mul::lemma_mul_nonnegative(x, factor);
    }

    /// With an unchanged receipt supply, more total liquidity can only
    /// raise the exchange rate.
    proof fn lemma_exchange_rate_monotone(before: Reserve, after: Reserve)
        requires
            after.collateral_mint_total_supply == before.collateral_mint_total_supply,
            after.total_liquidity_spec() >= before.total_liquidity_spec(),
        ensures
            after.exchange_rate_spec() >= before.exchange_rate_spec(),
    {
        if before.collateral_mint_total_supply != 0 {
            lemma_mul_inequality(
                before.total_liquidity_spec(),
                after.total_liquidity_spec(),
                WAD as int,
            );
            lemma_div_is_ordered(
                before.total_liquidity_spec() * WAD,
                after.total_liquidity_spec() * WAD,
                before.collateral_mint_total_supply as int,
            );
        }
    }

    /// What `accrue_interest` does.  A no-op when no slot has passed,
    /// nothing is borrowed, or the borrow rate is zero; otherwise the
    /// cumulative rate and the borrowed amount both grow by the compound
    /// factor (capped at 2.0 and at `MAX_ACCRUE_SLOTS` slots), and the
    /// accrued interest, floored to token units, is credited to available
    /// liquidity.
    pub open spec fn accrue_result(self, current_slot: u64) -> Result<Reserve, LendingError> {
        if current_slot < self.last_update_slot {
            Err(LendingError::MathOverflow)
        } else {
            let slots_elapsed = current_slot - self.last_update_slot;
            if slots_elapsed == 0 || self.liquidity_borrowed_amount_wads == 0 {
                Ok(self)
            } else {
                match self.utilization_result() {
                    Err(e) => Err(e),
                    Ok(utilization) => {
                        let rate = self.borrow_rate_spec(utilization);
                        if rate == 0 {
                            Ok(self)
                        } else {
                            let capped_slots = if slots_elapsed <= Self::MAX_ACCRUE_SLOTS {
                                slots_elapsed as int
                            } else {
                                Self::MAX_ACCRUE_SLOTS as int
                            };
                            let compound_rate = Self::compound_factor_spec(rate, capped_slots);
                            let cumulative = self.liquidity_cumulative_borrow_rate_wads;
                            let borrowed = self.liquidity_borrowed_amount_wads;
                            if compound_rate > 2 * WAD {
                                Err(LendingError::MathOverflow)
                            } else if cumulative * compound_rate > u128::MAX {
                                Err(LendingError::MathOverflow)
                            } else if borrowed * compound_rate > u128::MAX {
                                Err(LendingError::MathOverflow)
                            } else {
                                let new_cumulative = cumulative * compound_rate / (WAD as int);
                                let new_borrowed = borrowed * compound_rate / (WAD as int);
                                let interest_tokens = (new_borrowed - borrowed) / (WAD as int);
                                if interest_tokens > u64::MAX {
                                    Err(LendingError::MathOverflow)
                                } else if self.liquidity_available_amount + interest_tokens
                                    > u64::MAX {
                                    Err(LendingError::MathOverflow)
                                } else {
                                    Ok(
                                        Reserve {
                                            liquidity_available_amount: (
                                            self.liquidity_available_amount + interest_tokens)
                                                as u64,
                                            liquidity_borrowed_amount_wads: new_borrowed as u128,
                                            liquidity_cumulative_borrow_rate_wads: new_cumulative
                                                as u128,
                                            ..self
                                        },
                                    )
                                }
                            }
                        }
                    },
                }
            }
        }
    }

    /// Accrues interest since the last update.  No-op when no slot has
    /// passed or nothing is borrowed; otherwise utilization sets the borrow
    /// rate on the two-segment curve, the compound factor (capped at 2.0×
    /// per call and `MAX_ACCRUE_SLOTS` slots) scales both the cumulative
    /// rate and the borrowed amount, and the interest delta is credited to
    /// available liquidity.  On any error the reserve is unchanged; on
    /// success the collateral exchange rate cannot have decreased.
    pub fn accrue_interest(&mut self, current_slot: u64) -> (r: Result<(), LendingError>)
        requires
            old(self).wf(),
        ensures
            (match old(self).accrue_result(current_slot) {
                Ok(reserve) => r == Ok::<(), LendingError>(()) && *final(self) == reserve,
                Err(e) => r == Err::<(), LendingError>(e) && *final(self) == *old(self),
            }),
            current_slot == old(self).last_update_slot ==> r == Ok::<(), LendingError>(())
                && *final(self) == *old(self),
            old(self).liquidity_borrowed_amount_wads == 0 && current_slot >= old(
                self,
            ).last_update_slot ==> r == Ok::<(), LendingError>(()) && *final(self) == *old(self),
            r is Ok ==> final(self).exchange_rate_spec() >= old(self).exchange_rate_spec(),
            r is Ok ==> final(self).liquidity_cumulative_borrow_rate_wads >= old(
                self,
            ).liquidity_cumulative_borrow_rate_wads,
            r is Err ==> *final(self) == *old(self),
    {
        let slots_elapsed = match current_slot.checked_sub(self.last_update_slot) {
            Some(s) => s,
            None => {
                return Err(LendingError::MathOverflow);
            },
        };
        if slots_elapsed == 0 {
            return Ok(());
        }
        if self.liquidity_borrowed_amount_wads == 0 {
            return Ok(());
        }

        let capped_slots = if slots_elapsed <= Self::MAX_ACCRUE_SLOTS {
            slots_elapsed
        } else {
            Self::MAX_ACCRUE_SLOTS
        };

        let utilization_rate = match self.calculate_utilization_rate() {
            Ok(u) => u,
            Err(e) => {
                return Err(e);
            },
        };
        let current_borrow_rate = match self.calculate_borrow_rate(utilization_rate) {
            Ok(rate) => rate,
            Err(e) => {
                return Err(e);
            },
        };
        if current_borrow_rate == 0 {
            return Ok(());
        }

        let compound_rate = match self.compound_interest(current_borrow_rate, capped_slots as u128)
            {
            Ok(f) => f,
            Err(e) => {
                return Err(e);
            },
        };
        if compound_rate > 2 * Self::INITIAL_BORROW_RATE {
            return Err(LendingError::MathOverflow);
        }

        let new_cumulative = match self.liquidity_cumulative_borrow_rate_wads.checked_mul(
            compound_rate,
        ) {
            Some(v) => v / Self::INITIAL_BORROW_RATE,
            None => {
                return Err(LendingError::MathOverflow);
            },
        };
        let new_borrowed = match self.liquidity_borrowed_amount_wads.checked_mul(compound_rate) {
            Some(v) => v / Self::INITIAL_BORROW_RATE,
            None => {
                return Err(LendingError::MathOverflow);
            },
        };

        proof {
            Self::lemma_grow_by_factor(
                self.liquidity_borrowed_amount_wads as int,
                compound_rate as int,
            );
            Self::lemma_grow_by_factor(
                self.liquidity_cumulative_borrow_rate_wads as int,
                compound_rate as int,
            );
        }
        let interest_earned = new_borrowed - self.liquidity_borrowed_amount_wads;
        let interest_tokens_wide = interest_earned / Self::INITIAL_BORROW_RATE;
        if interest_tokens_wide > u64::MAX as u128 {
            return Err(LendingError::MathOverflow);
        }
        let interest_tokens = interest_tokens_wide as u64;
        let new_available = match self.liquidity_available_amount.checked_add(interest_tokens) {
            Some(v) => v,
            None => {
                return Err(LendingError::MathOverflow);
            },
        };

        let ghost before = *self;
        self.liquidity_cumulative_borrow_rate_wads = new_cumulative;
        self.liquidity_borrowed_amount_wads = new_borrowed;
        self.liquidity_available_amount = new_available;

        proof {
            lemma_div_is_ordered(
                before.liquidity_borrowed_amount_wads as int,
                new_borrowed as int,
                WAD as int,
            );
            Self::lemma_exchange_rate_monotone(before, *self);
        }
        Ok(())
    }

    /// What `calculate_borrow_fee` returns: the borrow fee is the
    /// WAD-scaled `borrow_fee_wad` fraction of the amount, and the host fee
    /// is the host's percentage share of that fee, both floored.
    pub open spec fn borrow_fee_result(self, amount: u64) -> Result<(u64, u64), LendingError> {
        let fee_wad = self.config.fees.borrow_fee_wad;
        if amount * WAD * fee_wad > u128::MAX {
            Err(LendingError::MathOverflow)
        } else {
            let borrow_fee = amount * WAD * fee_wad / (WAD as int) / (WAD as int);
            if borrow_fee > u64::MAX {
                Err(LendingError::MathOverflow)
            } else {
                let host_fee = if self.config.fees.host_fee_percentage > 0 {
                    borrow_fee * self.config.fees.host_fee_percentage / 100
                } else {
                    0
                };
                if host_fee > u64::MAX {
                    Err(LendingError::MathOverflow)
                } else {
                    Ok((borrow_fee as u64, host_fee as u64))
                }
            }
        }
    }

    /// Borrow fee and host fee for a borrow of `amount` tokens.
    pub fn calculate_borrow_fee(&self, amount: u64) -> (r: Result<(u64, u64), LendingError>)
        ensures
            r == self.borrow_fee_result(amount),
    {
        proof {
            lemma_mul_inequality(amount as int, u64::MAX as int, WAD as int);
        }
        let amount_wad = (amount as u128) * Self::INITIAL_BORROW_RATE;

        let scaled = match amount_wad.checked_mul(self.config.fees.borrow_fee_wad as u128) {
            Some(v) => v,
            None => {
                return Err(LendingError::MathOverflow);
            },
        };
        let borrow_fee_wide = scaled / Self::INITIAL_BORROW_RATE / Self::INITIAL_BORROW_RATE;
        if borrow_fee_wide > u64::MAX as u128 {
            return Err(LendingError::MathOverflow);
        }
        let borrow_fee = borrow_fee_wide as u64;

        let host_fee_wide: u128 = if self.config.fees.host_fee_percentage > 0 {
            proof {
                vstd::arithmetic::mul::lemma_mul_upper_bound(
                    borrow_fee as int,
                    u64::MAX as int,
                    self.config.fees.host_fee_percentage as int,
                    255,
                );
            }
            ((borrow_fee as u128) * (self.config.fees.host_fee_percentage as u128)) / 100
        } else {
            0
        };
        if host_fee_wide > u64::MAX as u128 {
            return Err(LendingError::MathOverflow);
        }
        Ok((borrow_fee, host_fee_wide as u64))
    }

    /// What `borrow` does: charge the fee, hand out the remainder, move the
    /// full amount from available liquidity into WAD-scaled debt.
    pub open spec fn borrow_result(self, borrow_amount: u64) -> Result<
        (Reserve, u64, u64, u64),
        LendingError,
    > {
        if borrow_amount == 0 {
            Err(LendingError::InvalidAmount)
        } else if self.liquidity_available_amount < borrow_amount {
            Err(LendingError::InsufficientLiquidity)
        } else {
            match self.borrow_fee_result(borrow_amount) {
                Err(e) => Err(e),
                Ok((borrow_fee, host_fee)) => if borrow_fee > borrow_amount {
                    Err(LendingError::MathOverflow)
                } else if borrow_amount == borrow_fee {
                    Err(LendingError::BorrowTooSmall)
                } else if self.liquidity_borrowed_amount_wads + borrow_amount * WAD > u128::MAX {
                    Err(LendingError::MathOverflow)
                } else {
                    Ok(
                        (
                            Reserve {
                                liquidity_available_amount: (self.liquidity_available_amount
                                    - borrow_amount) as u64,
                                liquidity_borrowed_amount_wads: (
                                self.liquidity_borrowed_amount_wads + borrow_amount * WAD) as u128,
                                ..self
                            },
                            (borrow_amount - borrow_fee) as u64,
                            borrow_fee,
                            host_fee,
                        ),
                    )
                },
            }
        }
    }

    /// Borrows liquidity from the pool.  Returns `(receive_amount,
    /// borrow_fee, host_fee)`: the borrower receives the amount less the
    /// fee, while the full amount leaves available liquidity and enters
    /// WAD-scaled debt.  Rejects a zero amount, insufficient liquidity and
    /// a borrow so small the fee consumes it; on any error the reserve is
    /// unchanged.
    pub fn borrow(&mut self, borrow_amount: u64) -> (r: Result<(u64, u64, u64), LendingError>)
        ensures
            (match old(self).borrow_result(borrow_amount) {
                Ok((reserve, receive_amount, borrow_fee, host_fee)) => r == Ok::<
                    (u64, u64, u64),
                    LendingError,
                >((receive_amount, borrow_fee, host_fee)) && *final(self) == reserve,
                Err(e) => r == Err::<(u64, u64, u64), LendingError>(e) && *final(self) == *old(
                    self,
                ),
            }),
    {
        if borrow_amount == 0 {
            return Err(LendingError::InvalidAmount);
        }
        if self.liquidity_available_amount < borrow_amount {
            return Err(LendingError::InsufficientLiquidity);
        }

        let (borrow_fee, host_fee) = match self.calculate_borrow_fee(borrow_amount) {
            Ok(fees) => fees,
            Err(e) => {
                return Err(e);
            },
        };

        if borrow_fee > borrow_amount {
            return Err(LendingError::MathOverflow);
        }
        let receive_amount = borrow_amount - borrow_fee;
        if receive_amount == 0 {
            return Err(LendingError::BorrowTooSmall);
        }

        proof {
            lemma_mul_inequality(borrow_amount as int, u64::MAX as int, WAD as int);
        }
        let borrow_wads = (borrow_amount as u128) * Self::INITIAL_BORROW_RATE;
        let new_borrowed = match self.liquidity_borrowed_amount_wads.checked_add(borrow_wads) {
            Some(v) => v,
            None => {
                return Err(LendingError::MathOverflow);
            },
        };

        self.liquidity_available_amount = self.liquidity_available_amount - borrow_amount;
        self.liquidity_borrowed_amount_wads = new_borrowed;

        Ok((receive_amount, borrow_fee, host_fee))
    }

    /// What `repay` does: settle the smaller of the offered amount and the
    /// outstanding debt, in WAD units.
    pub open spec fn repay_result(self, repay_amount: u64) -> Result<(Reserve, u64), LendingError> {
        if repay_amount == 0 {
            Err(LendingError::InvalidAmount)
        } else {
            let settle_amount = if repay_amount * WAD <= self.liquidity_borrowed_amount_wads {
                repay_amount * WAD
            } else {
                self.liquidity_borrowed_amount_wads as int
            };
            if settle_amount == 0 {
                Err(LendingError::RepayTooSmall)
            } else {
                let settled_tokens = settle_amount / (WAD as int);
                if self.liquidity_available_amount + settled_tokens > u64::MAX {
                    Err(LendingError::MathOverflow)
                } else {
                    Ok(
                        (
                            Reserve {
                                liquidity_available_amount: (self.liquidity_available_amount
                                    + settled_tokens) as u64,
                                liquidity_borrowed_amount_wads: (
                                self.liquidity_borrowed_amount_wads - settle_amount) as u128,
                                ..self
                            },
                            settled_tokens as u64,
                        ),
                    )
                }
            }
        }
    }

    /// Repays liquidity into the pool.  Settles the smaller of the offered
    /// amount and the outstanding WAD debt and returns the settled amount
    /// floored to token units; exactly that token amount re-enters
    /// available liquidity, so an offer beyond the debt credits only what
    /// the debt was worth.  On any error the reserve is unchanged.
    pub fn repay(&mut self, repay_amount: u64) -> (r: Result<u64, LendingError>)
        ensures
            (match old(self).repay_result(repay_amount) {
                Ok((reserve, settled_tokens)) => r == Ok::<u64, LendingError>(settled_tokens)
                    && *final(self) == reserve,
                Err(e) => r == Err::<u64, LendingError>(e) && *final(self) == *old(self),
            }),
    {
        if repay_amount == 0 {
            return Err(LendingError::InvalidAmount);
        }

        proof {
            lemma_mul_inequality(repay_amount as int, u64::MAX as int, WAD as int);
        }
        let repay_wads = (repay_amount as u128) * Self::INITIAL_BORROW_RATE;

        let settle_amount = if repay_wads <= self.liquidity_borrowed_amount_wads {
            repay_wads
        } else {
            self.liquidity_borrowed_amount_wads
        };
        if settle_amount == 0 {
            return Err(LendingError::RepayTooSmall);
        }

        let settled_tokens_wide = settle_amount / Self::INITIAL_BORROW_RATE;
        proof {
            lemma_div_is_ordered(settle_amount as int, repay_wads as int, WAD as int);
            lemma_div_multiples_vanish(repay_amount as int, WAD as int);
        }
        let settled_tokens = settled_tokens_wide as u64;

        let new_available = match self.liquidity_available_amount.checked_add(settled_tokens) {
            Some(v) => v,
            None => {
                return Err(LendingError::MathOverflow);
            },
        };

        self.liquidity_borrowed_amount_wads = self.liquidity_borrowed_amount_wads - settle_amount;
        self.liquidity_available_amount = new_available;
        Ok(settled_tokens)
    }

    /// What `redeem_collateral` returns: the liquidity owed for the
    /// receipts at the current exchange rate, bounded by total liquidity.
    pub open spec fn redeem_result(self, collateral_amount: u64) -> Result<u64, LendingError> {
        if collateral_amount == 0 {
            Err(LendingError::InvalidAmount)
        } else if self.collateral_mint_total_supply < collateral_amount {
            Err(LendingError::InvalidAmount)
        } else {
            match self.exchange_rate_result() {
                Err(e) => Err(e),
                Ok(rate) => if collateral_amount * rate > u128::MAX {
                    Err(LendingError::MathOverflow)
                } else {
                    let liquidity_amount = collateral_amount * rate / (WAD as int);
                    let borrowed_liquidity = self.liquidity_borrowed_amount_wads / WAD;
                    if liquidity_amount > u64::MAX {
                        Err(LendingError::MathOverflow)
                    } else if borrowed_liquidity > u64::MAX {
                        Err(LendingError::MathOverflow)
                    } else if self.liquidity_available_amount + borrowed_liquidity > u64::MAX {
                        Err(LendingError::MathOverflow)
                    } else if liquidity_amount > self.liquidity_available_amount
                        + borrowed_liquidity {
                        Err(LendingError::MathOverflow)
                    } else {
                        Ok(liquidity_amount as u64)
                    }
                },
            }
        }
    }

    /// Converts collateral receipts back to the liquidity they are worth at
    /// the current exchange rate, verifying the result against total
    /// liquidity.  The caller must still check available liquidity before
    /// transferring.
    pub fn redeem_collateral(&self, collateral_amount: u64) -> (r: Result<u64, LendingError>)
        ensures
            r == self.redeem_result(collateral_amount),
    {
        if collateral_amount == 0 {
            return Err(LendingError::InvalidAmount);
        }
        if self.collateral_mint_total_supply < collateral_amount {
            return Err(LendingError::InvalidAmount);
        }

        let exchange_rate = match self.collateral_exchange_rate() {
            Ok(rate) => rate,
            Err(e) => {
                return Err(e);
            },
        };

        let scaled = match (collateral_amount as u128).checked_mul(exchange_rate) {
            Some(v) => v,
            None => {
                return Err(LendingError::MathOverflow);
            },
        };
        let liquidity_amount = scaled / Self::INITIAL_BORROW_RATE;
        if liquidity_amount > u64::MAX as u128 {
            return Err(LendingError::MathOverflow);
        }

        let borrowed_liquidity = self.liquidity_borrowed_amount_wads / Self::INITIAL_BORROW_RATE;
        if borrowed_liquidity > u64::MAX as u128 {
            return Err(LendingError::MathOverflow);
        }

        let total_liquidity = match self.liquidity_available_amount.checked_add(
            borrowed_liquidity as u64,
        ) {
            Some(v) => v,
            None => {
                return Err(LendingError::MathOverflow);
            },
        };

        if liquidity_amount > total_liquidity as u128 {
            return Err(LendingError::MathOverflow);
        }
        Ok(liquidity_amount as u64)
    }

    /// Round-trip law: converting liquidity to collateral receipts and the
    /// receipts back to liquidity returns the original amount up to one
    /// token unit of floor-rounding loss, whenever the exchange rate is
    /// positive and at most 1.0 WAD.  (Above 1.0 WAD each receipt is worth
    /// more than one token, so the first floor can lose more than one
    /// unit.)
    pub proof fn lemma_conversion_round_trip(reserve: Reserve, liquidity_amount: u64)
        requires
            0 < reserve.exchange_rate_spec() <= WAD,
            !reserve.exchange_rate_overflows(),
        ensures
            (match reserve.liquidity_to_collateral_result(liquidity_amount) {
                Ok(collateral_amount) => match reserve.collateral_to_liquidity_result(
                    collateral_amount,
                ) {
                    Ok(back) => liquidity_amount - 1 <= back <= liquidity_amount,
                    Err(_) => false,
                },
                Err(_) => true,
            }),
    {
        let rate = reserve.exchange_rate_spec();
        let x = liquidity_amount as int;
        let w = WAD as int;
        lemma_mul_inequality(x, u64::MAX as int, w);
        vstd::arithmetic::mul::lemma_mul_nonnegative(x, w);
        vstd::arithmetic::div_mod::lemma_div_pos_is_pos(x * w, rate);
        if x * w / rate <= u64::MAX {
            let y = x * w / rate;
            // y * rate recovers x * w up to the first remainder.
            lemma_fundamental_div_mod(x * w, rate);
            vstd::arithmetic::div_mod::lemma_mod_division_less_than_divisor(x * w, rate);
            assert(y * rate == x * w - (x * w) % rate) by {
                lemma_fundamental_div_mod(x * w, rate);
            }
            assert(y * rate <= x * w);
            assert(y * rate > x * w - rate);
            // The second conversion stays within u128 and u64 bounds.
            vstd::arithmetic::mul::lemma_mul_nonnegative(y, rate);
            assert(y * rate <= u64::MAX * w);
            let back = y * rate / w;
            lemma_div_is_ordered(y * rate, x * w, w);
            lemma_div_multiples_vanish(x, w);
            assert(back <= x);
            // Lower bound: both floors together lose less than two units.
            lemma_fundamental_div_mod(y * rate, w);
            vstd::arithmetic::div_mod::lemma_mod_division_less_than_divisor(y * rate, w);
            assert(w * back == y * rate - (y * rate) % w);
            assert(w * back > x * w - rate - w);
            assert(w * back >= x * w - 2 * w + 1);
            assert(back >= x - 1) by {
                if back <= x - 2 {
                    lemma_mul_inequality(back, x - 2, w);
                }
            }
            vstd::arithmetic::div_mod::lemma_div_pos_is_pos(y * rate, w);
        }
    }
}

} // verus!
