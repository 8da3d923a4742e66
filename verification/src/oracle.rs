//! Validation and normalization of oracle price readings.
//!
//! The host fetches `(price, confidence, exponent)` for a reserve's feed
//! and must already have bounded the reading's age; this module holds the
//! checks and the fixed-point normalization applied to every reading
//! before it may price a reserve.

use vstd::prelude::*;

use crate::errors::LendingError;
use crate::lending_market::LendingMarket;

verus! {

/// Scale of a normalized oracle price: 10^6.
pub const BASE_DECIMALS: u128 = 1_000_000;

/// Oldest acceptable oracle reading, in the oracle's time units.
pub const MAX_PRICE_STALENESS: u64 = 60;

/// Ten to the `exponent`.
pub open spec fn pow10(exponent: nat) -> int
    decreases exponent,
{
    if exponent == 0 {
        1
    } else {
        10 * pow10((exponent - 1) as nat)
    }
}

/// Powers of ten are at least one.
pub proof fn lemma_pow10_pos(exponent: nat)
    ensures
        pow10(exponent) >= 1,
    decreases exponent,
{
    if exponent > 0 {
        lemma_pow10_pos((exponent - 1) as nat)
    }
}

/// Powers of ten grow with the exponent.
pub proof fn lemma_pow10_increases(smaller: nat, larger: nat)
    requires
        smaller <= larger,
    ensures
        pow10(smaller) <= pow10(larger),
    decreases larger,
{
    if smaller < larger {
        lemma_pow10_increases(smaller, (larger - 1) as nat);
        lemma_pow10_pos((larger - 1) as nat);
    }
}

/// The absolute value of an oracle exponent, as a mathematical integer.
pub open spec fn exponent_magnitude(exponent: i32) -> int {
    if exponent < 0 {
        -(exponent as int)
    } else {
        exponent as int
    }
}

/// What `validate_pyth_price` returns for a reading `(price, conf,
/// exponent)`: rejects non-positive prices and confidence intervals of 5%
/// of the price or wider, then rescales the price from `10^exponent` units
/// to the protocol's 10^6 base.
pub open spec fn pyth_price_result(price: i64, conf: u64, exponent: i32) -> Result<
    u128,
    LendingError,
> {
    if price <= 0 {
        Err(LendingError::OraclePriceInvalid)
    } else if conf * 100 / (price as int) >= 5 {
        Err(LendingError::OraclePriceConfidenceTooWide)
    } else if exponent == i32::MIN || pow10(exponent_magnitude(exponent) as nat) > u128::MAX {
        Err(LendingError::MathOverflow)
    } else {
        Ok((price * BASE_DECIMALS / pow10(exponent_magnitude(exponent) as nat)) as u128)
    }
}

/// Computes `10^exponent`, rejecting results beyond `u128`.
pub fn checked_pow10(exponent: u32) -> (r: Result<u128, LendingError>)
    ensures
        pow10(exponent as nat) <= u128::MAX ==> r == Ok::<u128, LendingError>(
            pow10(exponent as nat) as u128,
        ),
        pow10(exponent as nat) > u128::MAX ==> r == Err::<u128, LendingError>(
            LendingError::MathOverflow,
        ),
    {
    let mut result: u128 = 1;
    let mut i: u32 = 0;
    while i < exponent
        invariant
            0 <= i <= exponent,
            result == pow10(i as nat),
        decreases exponent - i,
    {
        match result.checked_mul(10) {
            Some(v) => {
                result = v;
            },
            None => {
                proof {
                    lemma_pow10_increases((i + 1) as nat, exponent as nat);
                }
                return Err(LendingError::MathOverflow);
            },
        }
        i = i + 1;
    }
    Ok(result)
}

/// Rejects an oracle reading older than `MAX_PRICE_STALENESS` time
/// units.  The host computes the reading's age from the clock and the
/// price account's publish time and must pass it through this check
/// before the reading may price anything.
pub fn validate_price_age(age: u64) -> (r: Result<(), LendingError>)
    ensures
        (age <= MAX_PRICE_STALENESS) <==> r is Ok,
        r is Err ==> r == Err::<(), LendingError>(LendingError::OraclePriceStale),
{
    if age > MAX_PRICE_STALENESS {
        return Err(LendingError::OraclePriceStale);
    }
    Ok(())
}

/// Validates an oracle reading and rescales it to the protocol's 10^6
/// price base.  The reading's age must already have passed
/// `validate_price_age`; a non-positive price and a confidence interval
/// at or above 5% of the price are rejected.
pub fn validate_pyth_price(price: i64, conf: u64, exponent: i32) -> (r: Result<u128, LendingError>)
    ensures
        r == pyth_price_result(price, conf, exponent),
{
    if price <= 0 {
        return Err(LendingError::OraclePriceInvalid);
    }

    let confidence_pct = ((conf as u128) * 100) / (price as u128);
    if confidence_pct >= 5 {
        return Err(LendingError::OraclePriceConfidenceTooWide);
    }

    if exponent == i32::MIN {
        return Err(LendingError::MathOverflow);
    }
    let exponent_abs: u32 = if exponent < 0 {
        (-exponent) as u32
    } else {
        exponent as u32
    };
    let pyth_decimals = match checked_pow10(exponent_abs) {
        Ok(v) => v,
        Err(e) => {
            return Err(e);
        },
    };
    proof {
        lemma_pow10_pos(exponent_abs as nat);
    }

    let normalized_price = ((price as u128) * BASE_DECIMALS) / pyth_decimals;
    Ok(normalized_price)
}

/// Rejects a market whose quote currency was never set: pricing against an
/// all-zero quote identifier would be meaningless.
pub fn validate_quote_currency_compatibility(
    lending_market: &LendingMarket,
    _feed_id: &[u8; 32],
) -> (r: Result<(), LendingError>)
    ensures
        (exists|i: int| 0 <= i < 32 && lending_market.quote_currency[i] != 0) <==> r == Ok::<
            (),
            LendingError,
        >(()),
        r is Err ==> r == Err::<(), LendingError>(LendingError::InvalidOracleConfig),
{
    let mut i: usize = 0;
    while i < 32
        invariant
            0 <= i <= 32,
            forall|j: int| 0 <= j < i ==> lending_market.quote_currency[j] == 0,
        decreases 32 - i,
    {
        if lending_market.quote_currency[i] != 0 {
            return Ok(());
        }
        i = i + 1;
    }
    Err(LendingError::InvalidOracleConfig)
}

} // verus!
