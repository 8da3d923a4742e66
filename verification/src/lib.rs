//! Accounting core of a pooled lending protocol.
//!
//! Liquidity providers deposit tokens into a reserve and receive
//! collateral-receipt tokens at the reserve's exchange rate.  Borrowers pledge
//! such receipts against an obligation and draw liquidity up to a
//! loan-to-value limit; interest accrues per slot along a two-segment rate
//! curve, and positions whose debt crosses the liquidation threshold can be
//! repaid by third parties in exchange for discounted collateral.
//!
//! All monetary arithmetic is WAD-scaled (10^18) fixed point, checked for
//! overflow, and rounded down, so that values are always biased in the
//! protocol's favor.

use vstd::prelude::*;

pub mod calculators;
pub mod errors;
pub mod keys;
pub mod lending_market;
pub mod obligation;
pub mod operations;
pub mod oracle;
pub mod refresh;
pub mod reserve;
pub mod reserve_config;

verus! {

/// Fixed-point scale used for all rate and value arithmetic: 10^18.
pub const WAD: u128 = 1_000_000_000_000_000_000;

} // verus!
