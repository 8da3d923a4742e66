//! A user's cross-reserve position: collateral and borrow records plus the
//! aggregate valuations derived from them.

use vstd::prelude::*;

use vstd::pervasive::VecAdditionalExecFns;

use crate::errors::LendingError;
use crate::keys::Pubkey;
use crate::WAD;

verus! {

/// An obligation may hold at most this many collateral and borrow records
/// combined.
pub const MAX_OBLIGATION_RESERVES: usize = 10;

/// A single liquidation may repay at most this percentage of an
/// obligation's total borrowed value.
pub const LIQUIDATION_CLOSE_FACTOR: u8 = 50;

/// Collateral pledged against one reserve.
#[derive(Clone, Copy, Debug)]
pub struct ObligationCollateral {
    /// Reserve the collateral receipts were deposited into.
    pub deposit_reserve: Pubkey,
    /// Collateral receipts deposited, in token units.
    pub deposited_amount: u64,
    /// Value of the collateral in quote units, set by the last refresh.
    pub market_value: u128,
}

impl ObligationCollateral {
    /// An empty collateral record for the given reserve.
    pub fn new(deposit_reserve: Pubkey) -> (r: ObligationCollateral)
        ensures
            r == (ObligationCollateral { deposit_reserve, deposited_amount: 0, market_value: 0 }),
    {
        ObligationCollateral { deposit_reserve, deposited_amount: 0, market_value: 0 }
    }

    /// Adds to the deposited amount, rejecting overflow.
    pub fn deposit(&mut self, collateral_amount: u64) -> (r: Result<(), LendingError>)
        ensures
            old(self).deposited_amount + collateral_amount <= u64::MAX ==> r == Ok::<
                (),
                LendingError,
            >(()) && *final(self) == (ObligationCollateral {
                deposited_amount: (old(self).deposited_amount + collateral_amount) as u64,
                ..*old(self)
            }),
            old(self).deposited_amount + collateral_amount > u64::MAX ==> r == Err::<
                (),
                LendingError,
            >(LendingError::MathOverflow) && *final(self) == *old(self),
    {
        match self.deposited_amount.checked_add(collateral_amount) {
            Some(v) => {
                self.deposited_amount = v;
                Ok(())
            },
            None => Err(LendingError::MathOverflow),
        }
    }

    /// Subtracts from the deposited amount, rejecting underflow.
    pub fn withdraw(&mut self, collateral_amount: u64) -> (r: Result<(), LendingError>)
        ensures
            collateral_amount <= old(self).deposited_amount ==> r == Ok::<(), LendingError>(())
                && *final(self) == (ObligationCollateral {
                deposited_amount: (old(self).deposited_amount - collateral_amount) as u64,
                ..*old(self)
            }),
            collateral_amount > old(self).deposited_amount ==> r == Err::<(), LendingError>(
                LendingError::MathOverflow,
            ) && *final(self) == *old(self),
    {
        match self.deposited_amount.checked_sub(collateral_amount) {
            Some(v) => {
                self.deposited_amount = v;
                Ok(())
            },
            None => Err(LendingError::MathOverflow),
        }
    }
}

impl PartialEq for ObligationCollateral {
    fn eq(&self, other: &ObligationCollateral) -> (r: bool) {
        self.deposit_reserve == other.deposit_reserve && self.deposited_amount
            == other.deposited_amount && self.market_value == other.market_value
    }
}

impl Eq for ObligationCollateral {}

impl vstd::std_specs::cmp::PartialEqSpecImpl for ObligationCollateral {
    open spec fn obeys_eq_spec() -> bool {
        true
    }

    open spec fn eq_spec(&self, other: &ObligationCollateral) -> bool {
        *self == *other
    }
}

/// Borrowed liquidity owed to one reserve.
#[derive(Clone, Copy, Debug)]
pub struct ObligationLiquidity {
    /// Reserve the liquidity was borrowed from.
    pub borrow_reserve: Pubkey,
    /// Snapshot of the reserve's cumulative borrow rate at the last
    /// accrual; always at most the reserve's current rate.
    pub cumulative_borrow_rate_wads: u128,
    /// Debt including accrued interest, WAD-scaled.
    pub borrowed_amount_wads: u128,
    /// Value of the debt in quote units, set by the last refresh.
    pub market_value: u128,
}

impl ObligationLiquidity {
    /// Cumulative borrow rate a fresh record starts from: 1.0 in WAD.
    pub const INITIAL_BORROW_RATE: u128 = WAD;

    /// An empty borrow record for the given reserve.
    pub fn new(borrow_reserve: Pubkey) -> (r: ObligationLiquidity)
        ensures
            r == (ObligationLiquidity {
                borrow_reserve,
                cumulative_borrow_rate_wads: WAD,
                borrowed_amount_wads: 0,
                market_value: 0,
            }),
    {
        ObligationLiquidity {
            borrow_reserve,
            cumulative_borrow_rate_wads: Self::INITIAL_BORROW_RATE,
            borrowed_amount_wads: 0,
            market_value: 0,
        }
    }

    /// Adds to the WAD-scaled debt, rejecting overflow.
    pub fn borrow(&mut self, borrow_amount: u128) -> (r: Result<(), LendingError>)
        ensures
            old(self).borrowed_amount_wads + borrow_amount <= u128::MAX ==> r == Ok::<
                (),
                LendingError,
            >(()) && *final(self) == (ObligationLiquidity {
                borrowed_amount_wads: (old(self).borrowed_amount_wads + borrow_amount) as u128,
                ..*old(self)
            }),
            old(self).borrowed_amount_wads + borrow_amount > u128::MAX ==> r == Err::<
                (),
                LendingError,
            >(LendingError::MathOverflow) && *final(self) == *old(self),
    {
        match self.borrowed_amount_wads.checked_add(borrow_amount) {
            Some(v) => {
                self.borrowed_amount_wads = v;
                Ok(())
            },
            None => Err(LendingError::MathOverflow),
        }
    }

    /// Subtracts from the WAD-scaled debt, rejecting underflow.
    pub fn repay(&mut self, repay_amount: u128) -> (r: Result<(), LendingError>)
        ensures
            repay_amount <= old(self).borrowed_amount_wads ==> r == Ok::<(), LendingError>(())
                && *final(self) == (ObligationLiquidity {
                borrowed_amount_wads: (old(self).borrowed_amount_wads - repay_amount) as u128,
                ..*old(self)
            }),
            repay_amount > old(self).borrowed_amount_wads ==> r == Err::<(), LendingError>(
                LendingError::MathOverflow,
            ) && *final(self) == *old(self),
    {
        match self.borrowed_amount_wads.checked_sub(repay_amount) {
            Some(v) => {
                self.borrowed_amount_wads = v;
                Ok(())
            },
            None => Err(LendingError::MathOverflow),
        }
    }

    /// What `accrue_interest` does: scale the debt by the ratio of the new
    /// cumulative rate to the stored checkpoint and advance the checkpoint.
    pub open spec fn accrue_result(self, new_cumulative_borrow_rate_wads: u128) -> Result<
        ObligationLiquidity,
        LendingError,
    > {
        if new_cumulative_borrow_rate_wads < self.cumulative_borrow_rate_wads {
            Err(LendingError::NegativeInterestRate)
        } else if new_cumulative_borrow_rate_wads == self.cumulative_borrow_rate_wads {
            Ok(self)
        } else {
            if new_cumulative_borrow_rate_wads * WAD > u128::MAX
                || self.cumulative_borrow_rate_wads == 0 {
                Err(LendingError::MathOverflow)
            } else {
                let compounded_rate = new_cumulative_borrow_rate_wads * WAD / (
                self.cumulative_borrow_rate_wads as int);
                if self.borrowed_amount_wads * compounded_rate > u128::MAX {
                    Err(LendingError::MathOverflow)
                } else {
                    Ok(
                        ObligationLiquidity {
                            borrowed_amount_wads: (self.borrowed_amount_wads * compounded_rate / (
                            WAD as int)) as u128,
                            cumulative_borrow_rate_wads: new_cumulative_borrow_rate_wads,
                            ..self
                        },
                    )
                }
            }
        }
    }

    /// Compounds the debt up to a new cumulative borrow rate.  Rejects a
    /// rate below the stored checkpoint; a rate equal to it is a no-op.  On
    /// any error the record is unchanged.
    pub fn accrue_interest(&mut self, new_cumulative_borrow_rate_wads: u128) -> (r: Result<
        (),
        LendingError,
    >)
        ensures
            (match old(self).accrue_result(new_cumulative_borrow_rate_wads) {
                Ok(liquidity) => r == Ok::<(), LendingError>(()) && *final(self) == liquidity,
                Err(e) => r == Err::<(), LendingError>(e) && *final(self) == *old(self),
            }),
    {
        if new_cumulative_borrow_rate_wads < self.cumulative_borrow_rate_wads {
            return Err(LendingError::NegativeInterestRate);
        }
        if new_cumulative_borrow_rate_wads == self.cumulative_borrow_rate_wads {
            return Ok(());
        }

        let scaled = match new_cumulative_borrow_rate_wads.checked_mul(
            ObligationLiquidity::INITIAL_BORROW_RATE,
        ) {
            Some(v) => v,
            None => {
                return Err(LendingError::MathOverflow);
            },
        };
        let compounded_rate = match scaled.checked_div(self.cumulative_borrow_rate_wads) {
            Some(v) => v,
            None => {
                return Err(LendingError::MathOverflow);
            },
        };
        match self.borrowed_amount_wads.checked_mul(compounded_rate) {
            Some(v) => {
                self.borrowed_amount_wads = v / ObligationLiquidity::INITIAL_BORROW_RATE;
                self.cumulative_borrow_rate_wads = new_cumulative_borrow_rate_wads;
                Ok(())
            },
            None => Err(LendingError::MathOverflow),
        }
    }
}

impl PartialEq for ObligationLiquidity {
    fn eq(&self, other: &ObligationLiquidity) -> (r: bool) {
        self.borrow_reserve == other.borrow_reserve && self.cumulative_borrow_rate_wads
            == other.cumulative_borrow_rate_wads && self.borrowed_amount_wads
            == other.borrowed_amount_wads && self.market_value == other.market_value
    }
}

impl Eq for ObligationLiquidity {}

impl vstd::std_specs::cmp::PartialEqSpecImpl for ObligationLiquidity {
    open spec fn obeys_eq_spec() -> bool {
        true
    }

    open spec fn eq_spec(&self, other: &ObligationLiquidity) -> bool {
        *self == *other
    }
}

/// Sum of the market values of a run of collateral records.
pub open spec fn sum_collateral_values(s: Seq<ObligationCollateral>) -> int
    decreases s.len(),
{
    if s.len() == 0 {
        0
    } else {
        sum_collateral_values(s.drop_last()) + s.last().market_value
    }
}

/// Sum of the market values of a run of borrow records.
pub open spec fn sum_liquidity_values(s: Seq<ObligationLiquidity>) -> int
    decreases s.len(),
{
    if s.len() == 0 {
        0
    } else {
        sum_liquidity_values(s.drop_last()) + s.last().market_value
    }
}

/// Index of the first collateral record for the given reserve; the
/// sequence length when none matches.
pub open spec fn first_collateral_index(s: Seq<ObligationCollateral>, key: Pubkey) -> int
    decreases s.len(),
{
    if s.len() == 0 {
        0
    } else if s[0].deposit_reserve == key {
        0
    } else {
        1 + first_collateral_index(s.subrange(1, s.len() as int), key)
    }
}

/// Index of the first borrow record for the given reserve; the sequence
/// length when none matches.
pub open spec fn first_liquidity_index(s: Seq<ObligationLiquidity>, key: Pubkey) -> int
    decreases s.len(),
{
    if s.len() == 0 {
        0
    } else if s[0].borrow_reserve == key {
        0
    } else {
        1 + first_liquidity_index(s.subrange(1, s.len() as int), key)
    }
}

/// The index of a match preceded by no other match is the first index.
pub proof fn lemma_first_collateral_index_of(s: Seq<ObligationCollateral>, key: Pubkey, i: int)
    requires
        0 <= i < s.len(),
        s[i].deposit_reserve == key,
        forall|j: int| 0 <= j < i ==> s[j].deposit_reserve != key,
    ensures
        first_collateral_index(s, key) == i,
    decreases s.len(),
{
    if i > 0 {
        let tail = s.subrange(1, s.len() as int);
        assert(forall|j: int| 0 <= j < i - 1 ==> tail[j] == s[j + 1]);
        lemma_first_collateral_index_of(tail, key, i - 1);
    }
}

/// The index of a match preceded by no other match is the first index.
pub proof fn lemma_first_liquidity_index_of(s: Seq<ObligationLiquidity>, key: Pubkey, i: int)
    requires
        0 <= i < s.len(),
        s[i].borrow_reserve == key,
        forall|j: int| 0 <= j < i ==> s[j].borrow_reserve != key,
    ensures
        first_liquidity_index(s, key) == i,
    decreases s.len(),
{
    if i > 0 {
        let tail = s.subrange(1, s.len() as int);
        assert(forall|j: int| 0 <= j < i - 1 ==> tail[j] == s[j + 1]);
        lemma_first_liquidity_index_of(tail, key, i - 1);
    }
}

/// A user's position in one lending market: collateral records first, then
/// borrow records, at most ten combined, plus the four aggregate values a
/// refresh derives from them.
#[derive(Clone, Debug)]
pub struct Obligation {
    /// Record-format version.
    pub version: u8,
    /// Slot at which the aggregates were last recomputed.
    pub last_update_slot: u64,
    /// Lending market this position belongs to.
    pub lending_market: Pubkey,
    /// Owner of the position.
    pub owner: Pubkey,
    /// Total value of all collateral records, quote units.
    pub deposited_value: u128,
    /// Total value of all borrow records, quote units.
    pub borrowed_value: u128,
    /// Borrow limit derived from collateral and loan-to-value ratios.
    pub allowed_borrow_value: u128,
    /// Debt level at which the position becomes liquidatable.
    pub unhealthy_borrow_value: u128,
    /// Collateral records, one per deposit reserve.
    pub deposits: Vec<ObligationCollateral>,
    /// Borrow records, one per borrow reserve.
    pub borrows: Vec<ObligationLiquidity>,
}

impl Obligation {
    /// Record-format version written at initialization.
    pub const PROGRAM_VERSION: u8 = 1;

    /// Position-count invariant: at most ten records in total.
    pub open spec fn wf(self) -> bool {
        self.deposits@.len() + self.borrows@.len() <= MAX_OBLIGATION_RESERVES
    }

    /// Number of collateral records.
    pub fn deposits_len(&self) -> (r: usize)
        ensures
            r == self.deposits@.len(),
    {
        self.deposits.len()
    }

    /// Number of borrow records.
    pub fn borrows_len(&self) -> (r: usize)
        ensures
            r == self.borrows@.len(),
    {
        self.borrows.len()
    }

    /// What `max_withdraw_value` returns: the deposited value not needed to
    /// keep `borrowed_value` within `allowed_borrow_value`, floored at
    /// zero.
    pub open spec fn max_withdraw_value_result(self) -> Result<u128, LendingError> {
        if self.allowed_borrow_value == 0 {
            Ok(0u128)
        } else if self.borrowed_value * self.deposited_value > u128::MAX {
            Err(LendingError::MathOverflow)
        } else {
            let required_deposit_value = self.borrowed_value * self.deposited_value / (
            self.allowed_borrow_value as int);
            if required_deposit_value >= self.deposited_value {
                Ok(0u128)
            } else {
                Ok((self.deposited_value - required_deposit_value) as u128)
            }
        }
    }

    /// Largest quote value that can be withdrawn while the remaining
    /// collateral still covers the current debt under the borrow limit.
    pub fn max_withdraw_value(&self) -> (r: Result<u128, LendingError>)
        ensures
            r == self.max_withdraw_value_result(),
    {
        if self.allowed_borrow_value == 0 {
            return Ok(0);
        }

        let required_deposit_value = match self.borrowed_value.checked_mul(self.deposited_value) {
            Some(v) => v / self.allowed_borrow_value,
            None => {
                return Err(LendingError::MathOverflow);
            },
        };
        if required_deposit_value >= self.deposited_value {
            return Ok(0);
        }
        Ok(self.deposited_value - required_deposit_value)
    }

    /// Additional quote value that may still be borrowed:
    /// `allowed_borrow_value - borrowed_value`.  Fails when the debt
    /// already exceeds the limit; callers must check health first.
    pub fn remaining_borrow_value(&self) -> (r: Result<u128, LendingError>)
        ensures
            self.borrowed_value <= self.allowed_borrow_value ==> r == Ok::<u128, LendingError>(
                (self.allowed_borrow_value - self.borrowed_value) as u128,
            ),
            self.borrowed_value > self.allowed_borrow_value ==> r == Err::<u128, LendingError>(
                LendingError::MathOverflow,
            ),
    {
        match self.allowed_borrow_value.checked_sub(self.borrowed_value) {
            Some(v) => Ok(v),
            None => Err(LendingError::MathOverflow),
        }
    }

    /// What `loan_to_value` returns: `borrowed / deposited` as a WAD
    /// fraction, zero for an empty position.
    pub open spec fn loan_to_value_result(self) -> Result<u128, LendingError> {
        if self.deposited_value == 0 {
            Ok(0u128)
        } else if self.borrowed_value * WAD > u128::MAX {
            Err(LendingError::MathOverflow)
        } else {
            Ok((self.borrowed_value * WAD / (self.deposited_value as int)) as u128)
        }
    }

    /// Current loan-to-value ratio as a WAD-scaled fraction.
    pub fn loan_to_value(&self) -> (r: Result<u128, LendingError>)
        ensures
            r == self.loan_to_value_result(),
    {
        if self.deposited_value == 0 {
            return Ok(0);
        }
        match self.borrowed_value.checked_mul(crate::WAD) {
            Some(v) => Ok(v / self.deposited_value),
            None => Err(LendingError::MathOverflow),
        }
    }

    /// Passes exactly when the position has no borrows or its debt is
    /// within the unhealthy threshold; otherwise the position is eligible
    /// for liquidation and mutating operations must not proceed.
    pub fn verify_healthy(&self) -> (r: Result<(), LendingError>)
        ensures
            (self.borrows@.len() == 0 || self.borrowed_value <= self.unhealthy_borrow_value) <==> r
                 is Ok,
            r is Err ==> r == Err::<(), LendingError>(LendingError::ObligationUnhealthy),
    {
        if self.borrows.len() > 0 {
            if self.borrowed_value > self.unhealthy_borrow_value {
                return Err(LendingError::ObligationUnhealthy);
            }
        }
        Ok(())
    }

    /// Appends a collateral record, rejecting an eleventh position.
    pub fn add_collateral(&mut self, collateral: ObligationCollateral) -> (r: Result<
        (),
        LendingError,
    >)
        requires
            old(self).wf(),
        ensures
            old(self).deposits@.len() + old(self).borrows@.len() < MAX_OBLIGATION_RESERVES ==> r
                == Ok::<(), LendingError>(()) && *final(self) == (Obligation {
                deposits: final(self).deposits,
                ..*old(self)
            }) && final(self).deposits@ == old(self).deposits@.push(collateral),
            old(self).deposits@.len() + old(self).borrows@.len() >= MAX_OBLIGATION_RESERVES ==> r
                == Err::<(), LendingError>(LendingError::ObligationReserveLimit) && *final(self)
                == *old(self),
    {
        if self.deposits.len() + self.borrows.len() >= MAX_OBLIGATION_RESERVES {
            return Err(LendingError::ObligationReserveLimit);
        }
        self.deposits.push(collateral);
        Ok(())
    }

    /// Appends a borrow record, rejecting an eleventh position.
    pub fn add_liquidity(&mut self, liquidity: ObligationLiquidity) -> (r: Result<
        (),
        LendingError,
    >)
        requires
            old(self).wf(),
        ensures
            old(self).deposits@.len() + old(self).borrows@.len() < MAX_OBLIGATION_RESERVES ==> r
                == Ok::<(), LendingError>(()) && *final(self) == (Obligation {
                borrows: final(self).borrows,
                ..*old(self)
            }) && final(self).borrows@ == old(self).borrows@.push(liquidity),
            old(self).deposits@.len() + old(self).borrows@.len() >= MAX_OBLIGATION_RESERVES ==> r
                == Err::<(), LendingError>(LendingError::ObligationReserveLimit) && *final(self)
                == *old(self),
    {
        if self.deposits.len() + self.borrows.len() >= MAX_OBLIGATION_RESERVES {
            return Err(LendingError::ObligationReserveLimit);
        }
        self.borrows.push(liquidity);
        Ok(())
    }

    /// True when some collateral record is for the given reserve.
    pub open spec fn has_collateral(self, deposit_reserve: Pubkey) -> bool {
        exists|i: int|
            0 <= i < self.deposits@.len() && self.deposits@[i].deposit_reserve == deposit_reserve
    }

    /// True when some borrow record is for the given reserve.
    pub open spec fn has_liquidity(self, borrow_reserve: Pubkey) -> bool {
        exists|i: int|
            0 <= i < self.borrows@.len() && self.borrows@[i].borrow_reserve == borrow_reserve
    }

    /// Finds the first collateral record for the given reserve, scanning in
    /// storage order.
    pub fn find_collateral(&self, deposit_reserve: Pubkey) -> (r: Result<
        (ObligationCollateral, usize),
        LendingError,
    >)
        ensures
            r is Ok <==> self.has_collateral(deposit_reserve),
            r matches Ok((collateral, index)) ==> 0 <= index < self.deposits@.len()
                && self.deposits@[index as int] == collateral && collateral.deposit_reserve
                == deposit_reserve && (forall|j: int|
                0 <= j < index ==> self.deposits@[j].deposit_reserve != deposit_reserve),
            r is Err ==> r == Err::<(ObligationCollateral, usize), LendingError>(
                LendingError::InvalidObligationCollateral,
            ),
    {
        let mut i: usize = 0;
        while i < self.deposits.len()
            invariant
                i <= self.deposits@.len(),
                forall|j: int| 0 <= j < i ==> self.deposits@[j].deposit_reserve != deposit_reserve,
            decreases self.deposits@.len() - i,
        {
            if self.deposits[i].deposit_reserve == deposit_reserve {
                return Ok((self.deposits[i], i));
            }
            i = i + 1;
        }
        Err(LendingError::InvalidObligationCollateral)
    }

    /// Finds the first borrow record for the given reserve, scanning in
    /// storage order.
    pub fn find_liquidity(&self, borrow_reserve: Pubkey) -> (r: Result<
        (ObligationLiquidity, usize),
        LendingError,
    >)
        ensures
            r is Ok <==> self.has_liquidity(borrow_reserve),
            r matches Ok((liquidity, index)) ==> 0 <= index < self.borrows@.len()
                && self.borrows@[index as int] == liquidity && liquidity.borrow_reserve
                == borrow_reserve && (forall|j: int|
                0 <= j < index ==> self.borrows@[j].borrow_reserve != borrow_reserve),
            r is Err ==> r == Err::<(ObligationLiquidity, usize), LendingError>(
                LendingError::InvalidObligationLiquidity,
            ),
    {
        let mut i: usize = 0;
        while i < self.borrows.len()
            invariant
                i <= self.borrows@.len(),
                forall|j: int| 0 <= j < i ==> self.borrows@[j].borrow_reserve != borrow_reserve,
            decreases self.borrows@.len() - i,
        {
            if self.borrows[i].borrow_reserve == borrow_reserve {
                return Ok((self.borrows[i], i));
            }
            i = i + 1;
        }
        Err(LendingError::InvalidObligationLiquidity)
    }

    /// Returns the index of the collateral record for the given reserve,
    /// creating an empty record when none exists yet.  Rejects an eleventh
    /// position.
    pub fn find_or_add_collateral(&mut self, deposit_reserve: Pubkey) -> (r: Result<
        usize,
        LendingError,
    >)
        requires
            old(self).wf(),
        ensures
            old(self).has_collateral(deposit_reserve) ==> *final(self) == *old(self) && (
            r matches Ok(index) && 0 <= index < final(self).deposits@.len()
                && final(self).deposits@[index as int].deposit_reserve == deposit_reserve && (
            forall|j: int|
                0 <= j < index ==> final(self).deposits@[j].deposit_reserve != deposit_reserve)),
            !old(self).has_collateral(deposit_reserve) && old(self).deposits@.len() + old(
                self,
            ).borrows@.len() >= MAX_OBLIGATION_RESERVES ==> r == Err::<usize, LendingError>(
                LendingError::ObligationReserveLimit,
            ) && *final(self) == *old(self),
            !old(self).has_collateral(deposit_reserve) && old(self).deposits@.len() + old(
                self,
            ).borrows@.len() < MAX_OBLIGATION_RESERVES ==> r == Ok::<usize, LendingError>(
                old(self).deposits@.len() as usize,
            ) && *final(self) == (Obligation { deposits: final(self).deposits, ..*old(self) })
                && final(self).deposits@ == old(self).deposits@.push(
                ObligationCollateral { deposit_reserve, deposited_amount: 0, market_value: 0 },
            ),
    {
        match self.find_collateral(deposit_reserve) {
            Ok((_, index)) => Ok(index),
            Err(_) => {
                if self.deposits.len() + self.borrows.len() >= MAX_OBLIGATION_RESERVES {
                    return Err(LendingError::ObligationReserveLimit);
                }
                let collateral = ObligationCollateral::new(deposit_reserve);
                let index = self.deposits.len();
                match self.add_collateral(collateral) {
                    Ok(()) => Ok(index),
                    Err(e) => Err(e),
                }
            },
        }
    }

    /// Returns the index of the borrow record for the given reserve,
    /// creating an empty record when none exists yet.  Rejects an eleventh
    /// position.
    pub fn find_or_add_liquidity(&mut self, borrow_reserve: Pubkey) -> (r: Result<
        usize,
        LendingError,
    >)
        requires
            old(self).wf(),
        ensures
            old(self).has_liquidity(borrow_reserve) ==> *final(self) == *old(self) && (
            r matches Ok(index) && 0 <= index < final(self).borrows@.len()
                && final(self).borrows@[index as int].borrow_reserve == borrow_reserve && (
            forall|j: int|
                0 <= j < index ==> final(self).borrows@[j].borrow_reserve != borrow_reserve)),
            !old(self).has_liquidity(borrow_reserve) && old(self).deposits@.len() + old(
                self,
            ).borrows@.len() >= MAX_OBLIGATION_RESERVES ==> r == Err::<usize, LendingError>(
                LendingError::ObligationReserveLimit,
            ) && *final(self) == *old(self),
            !old(self).has_liquidity(borrow_reserve) && old(self).deposits@.len() + old(
                self,
            ).borrows@.len() < MAX_OBLIGATION_RESERVES ==> r == Ok::<usize, LendingError>(
                old(self).borrows@.len() as usize,
            ) && *final(self) == (Obligation { borrows: final(self).borrows, ..*old(self) })
                && final(self).borrows@ == old(self).borrows@.push(
                ObligationLiquidity {
                    borrow_reserve,
                    cumulative_borrow_rate_wads: WAD,
                    borrowed_amount_wads: 0,
                    market_value: 0,
                },
            ),
    {
        match self.find_liquidity(borrow_reserve) {
            Ok((_, index)) => Ok(index),
            Err(_) => {
                if self.deposits.len() + self.borrows.len() >= MAX_OBLIGATION_RESERVES {
                    return Err(LendingError::ObligationReserveLimit);
                }
                let liquidity = ObligationLiquidity::new(borrow_reserve);
                let index = self.borrows.len();
                match self.add_liquidity(liquidity) {
                    Ok(()) => Ok(index),
                    Err(e) => Err(e),
                }
            },
        }
    }

    /// Fetches the collateral record at `index`, with its index.
    pub fn find_collateral_by_index(&self, index: usize) -> (r: Result<
        (ObligationCollateral, usize),
        LendingError,
    >)
        ensures
            index < self.deposits@.len() ==> r == Ok::<(ObligationCollateral, usize), LendingError>(
                (self.deposits@[index as int], index),
            ),
            index >= self.deposits@.len() ==> r == Err::<
                (ObligationCollateral, usize),
                LendingError,
            >(LendingError::InvalidObligationIndex),
    {
        if index >= self.deposits.len() {
            return Err(LendingError::InvalidObligationIndex);
        }
        Ok((self.deposits[index], index))
    }

    /// Fetches the borrow record at `index`, with its index.
    pub fn find_liquidity_by_index(&self, index: usize) -> (r: Result<
        (ObligationLiquidity, usize),
        LendingError,
    >)
        ensures
            index < self.borrows@.len() ==> r == Ok::<(ObligationLiquidity, usize), LendingError>(
                (self.borrows@[index as int], index),
            ),
            index >= self.borrows@.len() ==> r == Err::<(ObligationLiquidity, usize), LendingError>(
                LendingError::InvalidObligationIndex,
            ),
    {
        if index >= self.borrows.len() {
            return Err(LendingError::InvalidObligationIndex);
        }
        Ok((self.borrows[index], index))
    }

    /// Overwrites the collateral record at `index`.
    pub fn update_collateral(&mut self, index: usize, collateral: ObligationCollateral) -> (r:
        Result<(), LendingError>)
        ensures
            index < old(self).deposits@.len() ==> r == Ok::<(), LendingError>(()) && *final(self)
                == (Obligation { deposits: final(self).deposits, ..*old(self) }) && final(self).deposits@ == old(self).deposits@.update(index as int, collateral),
            index >= old(self).deposits@.len() ==> r == Err::<(), LendingError>(
                LendingError::InvalidObligationIndex,
            ) && *final(self) == *old(self),
    {
        if index >= self.deposits.len() {
            return Err(LendingError::InvalidObligationIndex);
        }
        self.deposits.set(index, collateral);
        Ok(())
    }

    /// Overwrites the borrow record at `index`.
    pub fn update_liquidity(&mut self, index: usize, liquidity: ObligationLiquidity) -> (r: Result<
        (),
        LendingError,
    >)
        ensures
            index < old(self).borrows@.len() ==> r == Ok::<(), LendingError>(()) && *final(self)
                == (Obligation { borrows: final(self).borrows, ..*old(self) }) && final(self).borrows@ == old(self).borrows@.update(index as int, liquidity),
            index >= old(self).borrows@.len() ==> r == Err::<(), LendingError>(
                LendingError::InvalidObligationIndex,
            ) && *final(self) == *old(self),
    {
        if index >= self.borrows.len() {
            return Err(LendingError::InvalidObligationIndex);
        }
        self.borrows.set(index, liquidity);
        Ok(())
    }

    /// Removes the collateral record at `index`, preserving the order of
    /// the records around it.
    pub fn remove_collateral(&mut self, index: usize) -> (r: Result<(), LendingError>)
        ensures
            index < old(self).deposits@.len() ==> r == Ok::<(), LendingError>(()) && *final(self)
                == (Obligation { deposits: final(self).deposits, ..*old(self) }) && final(self).deposits@ == old(self).deposits@.remove(index as int),
            index >= old(self).deposits@.len() ==> r == Err::<(), LendingError>(
                LendingError::InvalidObligationIndex,
            ) && *final(self) == *old(self),
    {
        if index >= self.deposits.len() {
            return Err(LendingError::InvalidObligationIndex);
        }
        self.deposits.remove(index);
        Ok(())
    }

    /// Removes the borrow record at `index`, preserving the order of the
    /// records around it.
    pub fn remove_liquidity(&mut self, index: usize) -> (r: Result<(), LendingError>)
        ensures
            index < old(self).borrows@.len() ==> r == Ok::<(), LendingError>(()) && *final(self)
                == (Obligation { borrows: final(self).borrows, ..*old(self) }) && final(self).borrows@ == old(self).borrows@.remove(index as int),
            index >= old(self).borrows@.len() ==> r == Err::<(), LendingError>(
                LendingError::InvalidObligationIndex,
            ) && *final(self) == *old(self),
    {
        if index >= self.borrows.len() {
            return Err(LendingError::InvalidObligationIndex);
        }
        self.borrows.remove(index);
        Ok(())
    }

    /// What `withdraw` does: remove the withdrawal's proportional share of
    /// the record's market value from both the record and the aggregate,
    /// dropping the record entirely on a full withdrawal.
    pub open spec fn withdraw_result(self, collateral_index: usize, withdraw_amount: u64) -> Result<
        Obligation,
        LendingError,
    > {
        if collateral_index >= self.deposits@.len() {
            Err(LendingError::InvalidObligationIndex)
        } else {
            let collateral = self.deposits@[collateral_index as int];
            if collateral.deposited_amount == 0 {
                Err(LendingError::ObligationCollateralEmpty)
            } else {
                let withdraw_pct = withdraw_amount * WAD / (collateral.deposited_amount as int);
                if collateral.market_value * withdraw_pct > u128::MAX {
                    Err(LendingError::MathOverflow)
                } else {
                    let withdraw_value = collateral.market_value * withdraw_pct / (WAD as int);
                    if withdraw_value > self.deposited_value {
                        Err(LendingError::MathOverflow)
                    } else if withdraw_amount == collateral.deposited_amount {
                        Ok(
                            Obligation {
                                deposited_value: (self.deposited_value - withdraw_value) as u128,
                                deposits: self.deposits,
                                ..self
                            },
                        )
                    } else if withdraw_amount > collateral.deposited_amount || withdraw_value
                        > collateral.market_value {
                        Err(LendingError::MathOverflow)
                    } else {
                        Ok(
                            Obligation {
                                deposited_value: (self.deposited_value - withdraw_value) as u128,
                                deposits: self.deposits,
                                ..self
                            },
                        )
                    }
                }
            }
        }
    }

    /// The collateral records `withdraw` leaves behind: the record removed
    /// on a full withdrawal, otherwise reduced in place.
    pub open spec fn withdraw_deposits(self, collateral_index: usize, withdraw_amount: u64) -> Seq<
        ObligationCollateral,
    > {
        let collateral = self.deposits@[collateral_index as int];
        let withdraw_pct = withdraw_amount * WAD / (collateral.deposited_amount as int);
        let withdraw_value = collateral.market_value * withdraw_pct / (WAD as int);
        if withdraw_amount == collateral.deposited_amount {
            self.deposits@.remove(collateral_index as int)
        } else {
            self.deposits@.update(
                collateral_index as int,
                ObligationCollateral {
                    deposited_amount: (collateral.deposited_amount - withdraw_amount) as u64,
                    market_value: (collateral.market_value - withdraw_value) as u128,
                    ..collateral
                },
            )
        }
    }

    /// Withdraws collateral from the record at `collateral_index`.  The
    /// withdrawal's proportional share of the record's market value leaves
    /// both the record and `deposited_value`; a full withdrawal removes the
    /// record.  On any error the obligation is unchanged.
    pub fn withdraw(&mut self, collateral_index: usize, withdraw_amount: u64) -> (r: Result<
        (),
        LendingError,
    >)
        ensures
            (match old(self).withdraw_result(collateral_index, withdraw_amount) {
                Ok(obligation) => r == Ok::<(), LendingError>(()) && *final(self) == (Obligation {
                    deposits: final(self).deposits,
                    ..obligation
                }) && final(self).deposits@ == old(self).withdraw_deposits(
                    collateral_index,
                    withdraw_amount,
                ),
                Err(e) => r == Err::<(), LendingError>(e) && *final(self) == *old(self),
            }),
    {
        if collateral_index >= self.deposits.len() {
            return Err(LendingError::InvalidObligationIndex);
        }
        let collateral = self.deposits[collateral_index];
        if collateral.deposited_amount == 0 {
            return Err(LendingError::ObligationCollateralEmpty);
        }

        proof {
            vstd::arithmetic::mul::lemma_mul_inequality(
                withdraw_amount as int,
                u64::MAX as int,
                WAD as int,
            );
        }
        let withdraw_pct = ((withdraw_amount as u128) * ObligationLiquidity::INITIAL_BORROW_RATE)
            / (collateral.deposited_amount as u128);

        let withdraw_value = match collateral.market_value.checked_mul(withdraw_pct) {
            Some(v) => v / ObligationLiquidity::INITIAL_BORROW_RATE,
            None => {
                return Err(LendingError::MathOverflow);
            },
        };

        let new_deposited_value = match self.deposited_value.checked_sub(withdraw_value) {
            Some(v) => v,
            None => {
                return Err(LendingError::MathOverflow);
            },
        };

        if withdraw_amount == collateral.deposited_amount {
            self.deposited_value = new_deposited_value;
            self.deposits.remove(collateral_index);
            Ok(())
        } else {
            if withdraw_amount > collateral.deposited_amount {
                return Err(LendingError::MathOverflow);
            }
            if withdraw_value > collateral.market_value {
                return Err(LendingError::MathOverflow);
            }
            let updated = ObligationCollateral {
                deposited_amount: collateral.deposited_amount - withdraw_amount,
                market_value: collateral.market_value - withdraw_value,
                ..collateral
            };
            self.deposited_value = new_deposited_value;
            self.deposits.set(collateral_index, updated);
            Ok(())
        }
    }

    /// What `repay` does: remove the settlement's proportional share of the
    /// record's market value from both the record and the aggregate,
    /// dropping the record once its debt reaches exactly zero.
    pub open spec fn repay_position_result(self, liquidity_index: usize, settle_amount: u128)
        -> Result<Obligation, LendingError> {
        if liquidity_index >= self.borrows@.len() {
            Err(LendingError::InvalidObligationIndex)
        } else {
            let liquidity = self.borrows@[liquidity_index as int];
            if liquidity.borrowed_amount_wads == 0 {
                Err(LendingError::ObligationLiquidityEmpty)
            } else {
                if settle_amount < liquidity.borrowed_amount_wads && settle_amount
                    * liquidity.market_value > u128::MAX {
                    Err(LendingError::MathOverflow)
                } else {
                    let value_decrease = if settle_amount >= liquidity.borrowed_amount_wads {
                        liquidity.market_value as int
                    } else {
                        settle_amount * liquidity.market_value / (
                        liquidity.borrowed_amount_wads as int)
                    };
                    if value_decrease > self.borrowed_value {
                        Err(LendingError::MathOverflow)
                    } else if settle_amount > liquidity.borrowed_amount_wads {
                        Err(LendingError::MathOverflow)
                    } else if liquidity.borrowed_amount_wads == settle_amount {
                        Ok(
                            Obligation {
                                borrowed_value: (self.borrowed_value - value_decrease) as u128,
                                borrows: self.borrows,
                                ..self
                            },
                        )
                    } else if value_decrease > liquidity.market_value {
                        Err(LendingError::MathOverflow)
                    } else {
                        Ok(
                            Obligation {
                                borrowed_value: (self.borrowed_value - value_decrease) as u128,
                                borrows: self.borrows,
                                ..self
                            },
                        )
                    }
                }
            }
        }
    }

    /// The borrow records `repay` leaves behind: the record removed when
    /// its debt reaches zero, otherwise reduced in place.
    pub open spec fn repay_borrows(self, liquidity_index: usize, settle_amount: u128) -> Seq<
        ObligationLiquidity,
    > {
        let liquidity = self.borrows@[liquidity_index as int];
        let value_decrease = if settle_amount >= liquidity.borrowed_amount_wads {
            liquidity.market_value as int
        } else {
            settle_amount * liquidity.market_value / (liquidity.borrowed_amount_wads as int)
        };
        if liquidity.borrowed_amount_wads == settle_amount {
            self.borrows@.remove(liquidity_index as int)
        } else {
            self.borrows@.update(
                liquidity_index as int,
                ObligationLiquidity {
                    borrowed_amount_wads: (liquidity.borrowed_amount_wads - settle_amount) as u128,
                    market_value: (liquidity.market_value - value_decrease) as u128,
                    ..liquidity
                },
            )
        }
    }

    /// Repays `settle_amount` WAD units of debt on the record at
    /// `liquidity_index`.  The settlement's proportional share of the
    /// record's market value leaves both the record and `borrowed_value`; a
    /// record whose debt reaches exactly zero is removed.  On any error the
    /// obligation is unchanged.
    pub fn repay(&mut self, liquidity_index: usize, settle_amount: u128) -> (r: Result<
        (),
        LendingError,
    >)
        ensures
            (match old(self).repay_position_result(liquidity_index, settle_amount) {
                Ok(obligation) => r == Ok::<(), LendingError>(()) && *final(self) == (Obligation {
                    borrows: final(self).borrows,
                    ..obligation
                }) && final(self).borrows@ == old(self).repay_borrows(
                    liquidity_index,
                    settle_amount,
                ),
                Err(e) => r == Err::<(), LendingError>(e) && *final(self) == *old(self),
            }),
    {
        if liquidity_index >= self.borrows.len() {
            return Err(LendingError::InvalidObligationIndex);
        }
        let liquidity = self.borrows[liquidity_index];
        if liquidity.borrowed_amount_wads == 0 {
            return Err(LendingError::ObligationLiquidityEmpty);
        }

        let value_decrease: u128 = if settle_amount >= liquidity.borrowed_amount_wads {
            liquidity.market_value
        } else {
            match settle_amount.checked_mul(liquidity.market_value) {
                Some(v) => v / liquidity.borrowed_amount_wads,
                None => {
                    return Err(LendingError::MathOverflow);
                },
            }
        };

        let new_borrowed_value = match self.borrowed_value.checked_sub(value_decrease) {
            Some(v) => v,
            None => {
                return Err(LendingError::MathOverflow);
            },
        };
        if settle_amount > liquidity.borrowed_amount_wads {
            return Err(LendingError::MathOverflow);
        }
        let new_borrowed_amount = liquidity.borrowed_amount_wads - settle_amount;

        if new_borrowed_amount == 0 {
            self.borrowed_value = new_borrowed_value;
            self.borrows.remove(liquidity_index);
            Ok(())
        } else {
            if value_decrease > liquidity.market_value {
                return Err(LendingError::MathOverflow);
            }
            let updated = ObligationLiquidity {
                borrowed_amount_wads: new_borrowed_amount,
                market_value: liquidity.market_value - value_decrease,
                ..liquidity
            };
            self.borrowed_value = new_borrowed_value;
            self.borrows.set(liquidity_index, updated);
            Ok(())
        }
    }
}

} // verus!
