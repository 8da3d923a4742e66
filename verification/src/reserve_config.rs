//! Risk, rate-curve and fee parameters of a reserve.

use vstd::prelude::*;

use crate::errors::LendingError;

verus! {

/// Fees charged on borrow and flash-loan operations.
///
/// `borrow_fee_wad` and `flash_loan_fee_wad` are WAD-scaled fractions of the
/// moved amount; `host_fee_percentage` is the host's percentage share of the
/// borrow fee.
#[derive(Clone, Copy, Debug, PartialEq, Eq, Structural)]
pub struct ReserveFees {
    pub borrow_fee_wad: u64,
    pub flash_loan_fee_wad: u64,
    pub host_fee_percentage: u8,
}

/// Immutable-after-init parameters of one reserve.
///
/// The four rate fields describe a two-segment piecewise-linear borrow-rate
/// curve pivoting at `optimal_utilization_rate`; the three risk fields bound
/// borrowing and trigger liquidation; `pyth_price_feed_id` names the oracle
/// feed that prices the reserve's liquidity token.
#[derive(Clone, Copy, Debug)]
pub struct ReserveConfig {
    pub optimal_utilization_rate: u8,
    pub loan_to_value_ratio: u8,
    pub liquidation_bonus: u8,
    pub liquidation_threshold: u8,
    pub min_borrow_rate: u8,
    pub optimal_borrow_rate: u8,
    pub max_borrow_rate: u8,
    pub fees: ReserveFees,
    pub pyth_price_feed_id: [u8; 32],
}

impl PartialEq for ReserveConfig {
    fn eq(&self, other: &ReserveConfig) -> (r: bool) {
        let scalars_equal = self.optimal_utilization_rate == other.optimal_utilization_rate
            && self.loan_to_value_ratio == other.loan_to_value_ratio && self.liquidation_bonus
            == other.liquidation_bonus && self.liquidation_threshold
            == other.liquidation_threshold && self.min_borrow_rate == other.min_borrow_rate
            && self.optimal_borrow_rate == other.optimal_borrow_rate && self.max_borrow_rate
            == other.max_borrow_rate && self.fees == other.fees;
        if !scalars_equal {
            return false;
        }
        let mut i: usize = 0;
        while i < 32
            invariant
                i <= 32,
                forall|j: int| 0 <= j < i ==> self.pyth_price_feed_id[j]
                    == other.pyth_price_feed_id[j],
            decreases 32 - i,
        {
            if self.pyth_price_feed_id[i] != other.pyth_price_feed_id[i] {
                return false;
            }
            i = i + 1;
        }
        proof {
            assert(self.pyth_price_feed_id =~= other.pyth_price_feed_id);
        }
        true
    }
}

impl Eq for ReserveConfig {}

impl vstd::std_specs::cmp::PartialEqSpecImpl for ReserveConfig {
    open spec fn obeys_eq_spec() -> bool {
        true
    }

    open spec fn eq_spec(&self, other: &ReserveConfig) -> bool {
        *self == *other
    }
}

impl ReserveConfig {
    /// Every bound and ordering constraint that `validate` enforces.
    pub open spec fn valid(self) -> bool {
        &&& self.optimal_utilization_rate <= 100
        &&& self.loan_to_value_ratio <= 100
        &&& self.liquidation_bonus <= 100
        &&& self.liquidation_threshold <= 100
        &&& self.loan_to_value_ratio <= self.liquidation_threshold
        &&& self.min_borrow_rate <= self.optimal_borrow_rate
        &&& self.optimal_borrow_rate <= self.max_borrow_rate
        &&& self.fees.host_fee_percentage <= 100
        &&& !(forall|i: int| 0 <= i < 32 ==> self.pyth_price_feed_id[i] == 0)
    }

    /// Accepts exactly the configurations whose percentages are within
    /// 0..=100, whose rate curve and risk thresholds are ordered, and whose
    /// oracle feed id is not all zeros.
    pub fn validate(&self) -> (r: Result<(), LendingError>)
        ensures
            r is Ok <==> self.valid(),
            r is Err ==> ({
                ||| r == Err::<(), LendingError>(LendingError::InvalidReserveConfig)
                ||| r == Err::<(), LendingError>(LendingError::InvalidOracleConfig)
            }),
    {
        if self.optimal_utilization_rate > 100 {
            return Err(LendingError::InvalidReserveConfig);
        }
        if self.loan_to_value_ratio > 100 {
            return Err(LendingError::InvalidReserveConfig);
        }
        if self.liquidation_bonus > 100 {
            return Err(LendingError::InvalidReserveConfig);
        }
        if self.liquidation_threshold > 100 {
            return Err(LendingError::InvalidReserveConfig);
        }
        if self.loan_to_value_ratio > self.liquidation_threshold {
            return Err(LendingError::InvalidReserveConfig);
        }
        if self.min_borrow_rate > self.optimal_borrow_rate {
            return Err(LendingError::InvalidReserveConfig);
        }
        if self.optimal_borrow_rate > self.max_borrow_rate {
            return Err(LendingError::InvalidReserveConfig);
        }
        if self.fees.host_fee_percentage > 100 {
            return Err(LendingError::InvalidReserveConfig);
        }
        let mut all_zero = true;
        let mut i: usize = 0;
        while i < 32
            invariant
                i <= 32,
                all_zero == (forall|j: int| 0 <= j < i ==> self.pyth_price_feed_id[j] == 0),
            decreases 32 - i,
        {
            if self.pyth_price_feed_id[i] != 0 {
                all_zero = false;
            }
            i = i + 1;
        }
        if all_zero {
            return Err(LendingError::InvalidOracleConfig);
        }
        Ok(())
    }
}

} // verus!
