//! Error taxonomy shared by every operation of the protocol.

use vstd::prelude::*;

verus! {

/// Why an operation was rejected.  No error leaves partial state behind:
/// every mutating function either commits all of its listed effects or
/// returns one of these and leaves its inputs unchanged.
#[derive(Clone, Copy, Debug, PartialEq, Eq, Structural)]
pub enum LendingError {
    /// Quote currency bytes are neither an ASCII identifier nor an opaque id.
    InvalidQuoteCurrency,
    /// Only the market owner can perform this action.
    InvalidOwner,
    /// Market already initialized.
    MarketAlreadyInitialized,
    /// Amount is zero or otherwise malformed.
    InvalidAmount,
    /// New owner must differ from the current owner.
    SameOwner,
    /// New owner may not be the all-zero key.
    InvalidNewOwner,
    /// Reserve configuration violates a bound or an ordering constraint.
    InvalidReserveConfig,
    /// Initial liquidity amount is invalid.
    InvalidLiquidityAmount,
    /// Account belongs to a different lending market.
    InvalidLendingMarket,
    /// Wrong liquidity mint.
    InvalidLiquidityMint,
    /// Wrong liquidity supply vault.
    InvalidLiquiditySupply,
    /// Wrong collateral mint.
    InvalidCollateralMint,
    /// Checked arithmetic overflowed, underflowed or divided by zero.
    MathOverflow,
    /// Reserve has not been refreshed recently enough.
    ReserveStale,
    /// Reserve does not hold enough liquidity.
    InsufficientLiquidity,
    /// An obligation may hold at most ten positions in total.
    ObligationReserveLimit,
    /// Obligation has no deposits.
    ObligationDepositsEmpty,
    /// Obligation has no borrows.
    ObligationBorrowsEmpty,
    /// Obligation deposits have zero value.
    ObligationDepositsZero,
    /// Obligation borrows have zero value.
    ObligationBorrowsZero,
    /// Obligation is healthy and cannot be liquidated.
    ObligationHealthy,
    /// Obligation has not been refreshed recently enough.
    ObligationStale,
    /// Wrong obligation owner.
    InvalidObligationOwner,
    /// No collateral position for the given reserve.
    InvalidObligationCollateral,
    /// No borrow position for the given reserve.
    InvalidObligationLiquidity,
    /// Position index out of range.
    InvalidObligationIndex,
    /// Obligation position data is malformed.
    InvalidObligationData,
    /// Caller supplied the wrong number of reserves.
    InvalidReserveCount,
    /// Obligation has no positions to refresh.
    NoReservesToRefresh,
    /// Supplied reserve does not match the position's reserve.
    InvalidReserveForObligation,
    /// Wrong market account.
    InvalidMarket,
    /// Wrong collateral supply vault.
    InvalidCollateralSupply,
    /// Withdraw amount exceeds the safe withdrawal limit.
    WithdrawTooLarge,
    /// Withdraw amount resolves to zero.
    WithdrawTooSmall,
    /// Collateral position holds nothing.
    ObligationCollateralEmpty,
    /// Reserve does not accept collateral (zero loan-to-value).
    ReserveCollateralDisabled,
    /// Cumulative borrow rate moved backwards.
    NegativeInterestRate,
    /// Obligation debt exceeds its unhealthy threshold.
    ObligationUnhealthy,
    /// Liquidation amounts resolve to zero.
    LiquidationTooSmall,
    /// Liquidation repays more than the close factor allows.
    LiquidationTooLarge,
    /// An obligation owner may not liquidate their own position.
    CannotLiquidateOwnObligation,
    /// Market not initialized.
    MarketNotInitialized,
    /// Oracle feed id or price account is misconfigured.
    InvalidOracleConfig,
    /// Oracle price is too old.
    OraclePriceStale,
    /// Oracle price is zero or negative.
    OraclePriceInvalid,
    /// Oracle confidence interval is too wide relative to the price.
    OraclePriceConfidenceTooWide,
    /// An account input failed validation.
    InvalidAccountInput,
    /// Wrong token mint.
    InvalidMint,
    /// Not enough collateral for the requested borrow.
    InsufficientCollateral,
    /// Borrow exceeds the reserve's liquidity.
    BorrowExceedsLiquidity,
    /// Borrow exceeds the user's limit.
    BorrowExceedsUserLimit,
    /// Repay exceeds the user's borrow balance.
    RepayExceedsUserBalance,
    /// Borrow value exceeds the remaining borrow capacity.
    BorrowTooLarge,
    /// Borrow amount resolves to zero after fees.
    BorrowTooSmall,
    /// Wrong fee receiver account.
    InvalidFeeReceiver,
    /// Wrong destination account.
    InvalidDestinationAccount,
    /// Repay amount resolves to zero.
    RepayTooSmall,
    /// No borrow position found for the given reserve.
    ObligationLiquidityNotFound,
    /// Borrow position holds no debt.
    ObligationLiquidityEmpty,
    /// Wrong market authority account.
    InvalidMarketAuthority,
    /// Wrong token program.
    InvalidTokenProgram,
    /// Owner balance is insufficient.
    InsufficientOwnerBalance,
    /// Configuration is invalid.
    InvalidConfig,
    /// Wrong market owner.
    InvalidMarketOwner,
}

} // verus!
