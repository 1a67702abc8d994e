//! The deposit engine's error taxonomy.
//!
//! Every way a deposit attempt can be refused is surfaced as a distinct
//! variant, so a caller can adjust its request and retry; nothing is silently
//! corrected.  All variants are recoverable: validation fails before any value
//! moves.

use vstd::prelude::*;

verus! {

/// Why a deposit request was refused.
#[derive(Clone, Copy, Debug, PartialEq, Eq, Structural)]
pub enum Error {
    /// A concrete acting account differs from the client account already
    /// bound to the request.
    SourceAndClientAccountDoNotMatchAsEqual,
    /// The marker leg names an asset other than the pool's marker asset.
    InvalidAssetForLiquidityMarking,
    /// The acting account holds none of a reserve asset.
    AccountBalanceIsInvalid,
    /// Exactly one pool reserve is zero: the pool is in an inconsistent
    /// state (a data-integrity fault, not a caller error).
    PoolIsInvalid,
    /// An empty pool was given a reserve leg that does not pin an exact
    /// amount, so no initial price ratio is defined.
    InitialLiquidityDepositRatioMustBeDefined,
    /// The desired marker amount for an empty pool differs from the amount
    /// the invariant prescribes.
    InvalidDepositLiquidityDestinationAmount,
    /// A zero amount where a positive one is required.
    ZeroValueInAmountParameter,
    /// A desired first-reserve amount differs from the amount the pool ratio
    /// prescribes.
    InvalidDepositLiquidityBasicAssetAmount,
    /// A desired second-reserve amount differs from the amount the pool ratio
    /// prescribes.
    InvalidDepositLiquidityTargetAssetAmount,
    /// An engine-derived amount falls outside the boundaries the caller
    /// supplied.
    CalculatedValueIsNotMeetsRequiredBoundaries,
    /// A range bound whose ideal amount lies below its floor.
    RangeValuesIsInvalid,
    /// Both reserve legs are ranges while the marker leg is a desired exact
    /// amount: an unsupported combination.
    ThisCaseIsNotSupported,
    /// The bound combination leaves the amounts underdetermined.
    ImpossibleToDecideDepositLiquidityAmounts,
    /// A caller-supplied minimum liquidity lies below the protocol's
    /// recommended minimum.
    PairSwapActionMinimumLiquidityIsSmallerThanRecommended,
    /// The marker amount to mint cannot cover the minimum-liquidity floor.
    DestinationAmountOfLiquidityIsNotLargeEnough,
    /// The acting account's first-reserve balance is below the resolved
    /// deposit amount.
    SourceBaseAmountIsNotLargeEnough,
    /// The acting account's second-reserve balance is below the resolved
    /// deposit amount.
    TargetBaseAmountIsNotLargeEnough,
    /// A result does not fit the balance type.
    ArithmeticOverflow,
}

} // verus!
