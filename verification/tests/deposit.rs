//! Tests for the deposit orchestrator: the two validation modes, every error
//! variant, and the execution plan.

use pool_xyk::action::{DepositLiquidityAction, PoolReserves, Resource, TransferPlan};
use pool_xyk::bounds::Bounds;
use pool_xyk::errors::Error;

const RECOMMENDED_MIN: u64 = 1000;

fn action(b0: Bounds, b1: Bounds, bd: Bounds) -> DepositLiquidityAction {
    DepositLiquidityAction {
        client_account: None,
        receiver_account: None,
        pool_account: 99,
        source: (
            Resource { asset: 1, amount: b0 },
            Resource { asset: 2, amount: b1 },
        ),
        destination: Resource { asset: 3, amount: bd },
        min_liquidity: None,
    }
}

fn reserves(rb: u64, rt: u64, total_issuance: u64) -> PoolReserves {
    PoolReserves {
        reserve_base: rb,
        reserve_target: rt,
        total_issuance,
        mark_asset: 3,
    }
}

#[test]
fn empty_pool_initialization_mints_sqrt_of_product() {
    // First deposit of (100, 400): the marker amount is floor(sqrt(40000)),
    // that is 200, less the minimum-liquidity burn of 50.
    let mut a = action(Bounds::Desired(100), Bounds::Desired(400), Bounds::Min(0));
    let r = a.prepare_and_validate(Some(7), &reserves(0, 0, 0), Some((1000, 1000)), 50);
    assert_eq!(r, Ok(()));
    assert_eq!(a.client_account, Some(7));
    assert_eq!(a.receiver_account, Some(7));
    assert_eq!(a.source.0.amount, Bounds::Desired(100));
    assert_eq!(a.source.1.amount, Bounds::Desired(400));
    assert_eq!(a.destination.amount, Bounds::Calculated(150));
    assert_eq!(a.min_liquidity, Some(50));
}

#[test]
fn empty_pool_small_first_deposit_fails_minimum_liquidity() {
    // floor(sqrt(100 * 400)) = 200 cannot cover the recommended minimum of
    // 1000: the attempt is refused.
    let mut a = action(Bounds::Desired(100), Bounds::Desired(400), Bounds::Min(0));
    let before = a;
    let r = a.prepare_and_validate(
        Some(7),
        &reserves(0, 0, 0),
        Some((1000, 1000)),
        RECOMMENDED_MIN,
    );
    assert_eq!(r, Err(Error::DestinationAmountOfLiquidityIsNotLargeEnough));
    assert_eq!(a, before);
}

#[test]
fn empty_pool_borderline_first_deposit_underflows() {
    // Depositing (500, 500) mints floor(sqrt(250000)) = 500; the burn of the
    // recommended minimum 1000 would drive the minted amount negative, so
    // the attempt fails.
    let mut a = action(Bounds::Desired(500), Bounds::Desired(500), Bounds::Min(0));
    let r = a.prepare_and_validate(
        Some(7),
        &reserves(0, 0, 0),
        Some((10_000, 10_000)),
        RECOMMENDED_MIN,
    );
    assert_eq!(r, Err(Error::ArithmeticOverflow));
}

#[test]
fn empty_pool_desired_marker_must_match_invariant() {
    let mut a = action(Bounds::Desired(100), Bounds::Desired(400), Bounds::Desired(199));
    let r = a.prepare_and_validate(Some(7), &reserves(0, 0, 0), Some((1000, 1000)), 50);
    assert_eq!(r, Err(Error::InvalidDepositLiquidityDestinationAmount));

    let mut b = action(Bounds::Desired(100), Bounds::Desired(400), Bounds::Desired(200));
    let r = b.prepare_and_validate(Some(7), &reserves(0, 0, 0), Some((1000, 1000)), 50);
    assert_eq!(r, Ok(()));
    assert_eq!(b.destination.amount, Bounds::Calculated(150));
}

#[test]
fn empty_pool_needs_exact_amounts_on_both_legs() {
    let mut a = action(Bounds::Min(100), Bounds::Desired(400), Bounds::Min(0));
    let r = a.prepare_and_validate(Some(7), &reserves(0, 0, 0), Some((1000, 1000)), 50);
    assert_eq!(r, Err(Error::InitialLiquidityDepositRatioMustBeDefined));
}

#[test]
fn range_deposit_resolves_best_ratio_preserving_pair() {
    // Reserves 1000 : 2000, ranges (300 down to 100) and (600 down to 200):
    // the engine picks (300, 600) and mints floor(300 * 1414 / 1000) = 424.
    let mut a = action(
        Bounds::RangeFromDesiredToMin(300, 100),
        Bounds::RangeFromDesiredToMin(600, 200),
        Bounds::Min(0),
    );
    let r = a.prepare_and_validate(
        Some(7),
        &reserves(1000, 2000, 1414),
        Some((10_000, 10_000)),
        100,
    );
    assert_eq!(r, Ok(()));
    assert_eq!(a.source.0.amount, Bounds::Calculated(300));
    assert_eq!(a.source.1.amount, Bounds::Calculated(600));
    assert_eq!(a.destination.amount, Bounds::Calculated(424));
    // The pool ratio is preserved exactly: the cross products agree before
    // and after the deposit.
    assert_eq!(300u128 * 2000, 600u128 * 1000);
    assert_eq!((1000u128 + 300) * 2000, (2000u128 + 600) * 1000);
}

#[test]
fn range_deposit_honours_marker_floor() {
    // With zero marker issuance the derived marker amount is 0, which
    // misses a floor of 5 on the marker leg: the attempt is refused, the
    // floor is never silently discarded.
    let mut a = action(
        Bounds::RangeFromDesiredToMin(300, 100),
        Bounds::RangeFromDesiredToMin(600, 200),
        Bounds::Min(5),
    );
    let before = a;
    let r = a.prepare_and_validate(
        Some(7),
        &reserves(1000, 2000, 0),
        Some((10_000, 10_000)),
        100,
    );
    assert_eq!(r, Err(Error::CalculatedValueIsNotMeetsRequiredBoundaries));
    assert_eq!(a, before);

    // The same request with issuance 1414 derives 424, which meets the
    // floor.
    let mut b = action(
        Bounds::RangeFromDesiredToMin(300, 100),
        Bounds::RangeFromDesiredToMin(600, 200),
        Bounds::Min(5),
    );
    let r = b.prepare_and_validate(
        Some(7),
        &reserves(1000, 2000, 1414),
        Some((10_000, 10_000)),
        100,
    );
    assert_eq!(r, Ok(()));
    assert_eq!(b.destination.amount, Bounds::Calculated(424));
}

#[test]
fn empty_pool_marker_floor_applies_to_minted_amount() {
    // First deposit of (100, 400) with a burn of 50 mints 200 - 50 = 150.
    // A marker floor of 151 is on the minted amount and fails; 150 passes.
    let mut a = action(Bounds::Desired(100), Bounds::Desired(400), Bounds::Min(151));
    let before = a;
    let r = a.prepare_and_validate(Some(7), &reserves(0, 0, 0), Some((1000, 1000)), 50);
    assert_eq!(r, Err(Error::CalculatedValueIsNotMeetsRequiredBoundaries));
    assert_eq!(a, before);

    let mut b = action(Bounds::Desired(100), Bounds::Desired(400), Bounds::Min(150));
    let r = b.prepare_and_validate(Some(7), &reserves(0, 0, 0), Some((1000, 1000)), 50);
    assert_eq!(r, Ok(()));
    assert_eq!(b.destination.amount, Bounds::Calculated(150));
}

#[test]
fn range_deposit_with_desired_marker_is_unsupported() {
    let mut a = action(
        Bounds::RangeFromDesiredToMin(300, 100),
        Bounds::RangeFromDesiredToMin(600, 200),
        Bounds::Desired(400),
    );
    let r = a.prepare_and_validate(
        Some(7),
        &reserves(1000, 2000, 1414),
        Some((10_000, 10_000)),
        100,
    );
    assert_eq!(r, Err(Error::ThisCaseIsNotSupported));
}

#[test]
fn range_deposit_rejects_inverted_range() {
    let mut a = action(
        Bounds::RangeFromDesiredToMin(100, 300),
        Bounds::RangeFromDesiredToMin(600, 200),
        Bounds::Min(0),
    );
    let r = a.prepare_and_validate(
        Some(7),
        &reserves(1000, 2000, 1414),
        Some((10_000, 10_000)),
        100,
    );
    assert_eq!(r, Err(Error::RangeValuesIsInvalid));
}

#[test]
fn desired_marker_draws_proportional_reserves() {
    // Reserves 1000 : 4000 give the invariant constant sqrt(4000000) = 2000;
    // minting 100 marker units draws (1000 * 100 / 2000, 4000 * 100 / 2000)
    // = (50, 200).
    let mut a = action(Bounds::Min(10), Bounds::Min(100), Bounds::Desired(100));
    let r = a.prepare_and_validate(
        Some(7),
        &reserves(1000, 4000, 2000),
        Some((1000, 1000)),
        40,
    );
    assert_eq!(r, Ok(()));
    assert_eq!(a.source.0.amount, Bounds::Calculated(50));
    assert_eq!(a.source.1.amount, Bounds::Calculated(200));
    assert_eq!(a.destination.amount, Bounds::Desired(100));
}

#[test]
fn desired_marker_never_substitutes_a_desired_leg() {
    let mut a = action(Bounds::Desired(49), Bounds::Min(100), Bounds::Desired(100));
    let r = a.prepare_and_validate(
        Some(7),
        &reserves(1000, 4000, 2000),
        Some((1000, 1000)),
        40,
    );
    assert_eq!(r, Err(Error::InvalidDepositLiquidityBasicAssetAmount));

    let mut b = action(Bounds::Desired(50), Bounds::Desired(201), Bounds::Desired(100));
    let r = b.prepare_and_validate(
        Some(7),
        &reserves(1000, 4000, 2000),
        Some((1000, 1000)),
        40,
    );
    assert_eq!(r, Err(Error::InvalidDepositLiquidityTargetAssetAmount));
}

#[test]
fn desired_marker_honours_leg_floors() {
    // The prescribed draw of 50 misses the floor of 51 on the first leg.
    let mut a = action(Bounds::Min(51), Bounds::Min(100), Bounds::Desired(100));
    let r = a.prepare_and_validate(
        Some(7),
        &reserves(1000, 4000, 2000),
        Some((1000, 1000)),
        40,
    );
    assert_eq!(r, Err(Error::CalculatedValueIsNotMeetsRequiredBoundaries));
}

#[test]
fn desired_marker_of_zero_is_refused() {
    let mut a = action(Bounds::Min(0), Bounds::Min(0), Bounds::Desired(0));
    let r = a.prepare_and_validate(
        Some(7),
        &reserves(1000, 4000, 2000),
        Some((1000, 1000)),
        40,
    );
    assert_eq!(r, Err(Error::ZeroValueInAmountParameter));
}

#[test]
fn desired_marker_overflow_is_reported() {
    // A lopsided pool with a tiny invariant constant: the proportional draw
    // does not fit the balance type.
    let mut a = action(Bounds::Min(0), Bounds::Min(0), Bounds::Desired(8_589_934_592));
    let r = a.prepare_and_validate(
        Some(7),
        &reserves(u64::MAX, 1, 1),
        Some((1000, 1000)),
        0,
    );
    assert_eq!(r, Err(Error::ArithmeticOverflow));
}

#[test]
fn underdetermined_bounds_are_refused() {
    let mut a = action(Bounds::Min(10), Bounds::Min(10), Bounds::Min(0));
    let r = a.prepare_and_validate(
        Some(7),
        &reserves(1000, 2000, 1414),
        Some((1000, 1000)),
        100,
    );
    assert_eq!(r, Err(Error::ImpossibleToDecideDepositLiquidityAmounts));
}

#[test]
fn balance_gating_first_leg() {
    // The acting account holds 200 of the first asset but the resolved
    // amount is 300: the attempt never reaches execution.
    let mut a = action(
        Bounds::RangeFromDesiredToMin(300, 100),
        Bounds::RangeFromDesiredToMin(600, 200),
        Bounds::Min(0),
    );
    let before = a;
    let r = a.prepare_and_validate(
        Some(7),
        &reserves(1000, 2000, 1414),
        Some((200, 10_000)),
        100,
    );
    assert_eq!(r, Err(Error::SourceBaseAmountIsNotLargeEnough));
    assert_eq!(a, before);
}

#[test]
fn balance_gating_second_leg() {
    let mut a = action(
        Bounds::RangeFromDesiredToMin(300, 100),
        Bounds::RangeFromDesiredToMin(600, 200),
        Bounds::Min(0),
    );
    let r = a.prepare_and_validate(
        Some(7),
        &reserves(1000, 2000, 1414),
        Some((10_000, 500)),
        100,
    );
    assert_eq!(r, Err(Error::TargetBaseAmountIsNotLargeEnough));
}

#[test]
fn zero_balance_is_invalid() {
    let mut a = action(Bounds::Min(10), Bounds::Min(100), Bounds::Desired(100));
    let r = a.prepare_and_validate(
        Some(7),
        &reserves(1000, 4000, 2000),
        Some((0, 1000)),
        40,
    );
    assert_eq!(r, Err(Error::AccountBalanceIsInvalid));
}

#[test]
fn one_sided_pool_is_inconsistent() {
    let mut a = action(Bounds::Min(10), Bounds::Min(100), Bounds::Desired(100));
    let r = a.prepare_and_validate(Some(7), &reserves(0, 5, 2000), Some((1000, 1000)), 40);
    assert_eq!(r, Err(Error::PoolIsInvalid));
    let r = a.prepare_and_validate(Some(7), &reserves(5, 0, 2000), Some((1000, 1000)), 40);
    assert_eq!(r, Err(Error::PoolIsInvalid));
}

#[test]
fn wrong_marker_asset_is_refused() {
    let mut a = action(Bounds::Min(10), Bounds::Min(100), Bounds::Desired(100));
    a.destination.asset = 4;
    let r = a.prepare_and_validate(
        Some(7),
        &reserves(1000, 4000, 2000),
        Some((1000, 1000)),
        40,
    );
    assert_eq!(r, Err(Error::InvalidAssetForLiquidityMarking));
}

#[test]
fn bound_client_account_must_match_signer() {
    let mut a = action(Bounds::Min(10), Bounds::Min(100), Bounds::Desired(100));
    a.client_account = Some(5);
    let r = a.prepare_and_validate(
        Some(7),
        &reserves(1000, 4000, 2000),
        Some((1000, 1000)),
        40,
    );
    assert_eq!(r, Err(Error::SourceAndClientAccountDoNotMatchAsEqual));
}

#[test]
fn receiver_account_is_kept_when_supplied() {
    let mut a = action(Bounds::Min(10), Bounds::Min(100), Bounds::Desired(100));
    a.receiver_account = Some(11);
    let r = a.prepare_and_validate(
        Some(7),
        &reserves(1000, 4000, 2000),
        Some((1000, 1000)),
        40,
    );
    assert_eq!(r, Ok(()));
    assert_eq!(a.client_account, Some(7));
    assert_eq!(a.receiver_account, Some(11));
}

#[test]
fn caller_minimum_below_recommended_is_refused() {
    let mut a = action(Bounds::Min(10), Bounds::Min(100), Bounds::Desired(100));
    a.min_liquidity = Some(10);
    let r = a.prepare_and_validate(
        Some(7),
        &reserves(1000, 4000, 2000),
        Some((1000, 1000)),
        40,
    );
    assert_eq!(
        r,
        Err(Error::PairSwapActionMinimumLiquidityIsSmallerThanRecommended)
    );
}

#[test]
fn abstract_mode_without_account_is_idempotent() {
    // No acting account: only the minimum-liquidity field is filled in, and
    // a second run returns the identical request and verdict.
    let mut a = action(
        Bounds::RangeFromDesiredToMin(300, 100),
        Bounds::RangeFromDesiredToMin(600, 200),
        Bounds::Min(0),
    );
    let r = a.prepare_and_validate(None, &reserves(1000, 2000, 1414), None, RECOMMENDED_MIN);
    assert_eq!(r, Ok(()));
    assert_eq!(a.min_liquidity, Some(RECOMMENDED_MIN));
    assert_eq!(a.source.0.amount, Bounds::RangeFromDesiredToMin(300, 100));
    assert_eq!(a.source.1.amount, Bounds::RangeFromDesiredToMin(600, 200));
    assert_eq!(a.client_account, None);
    let after_first = a;
    let r = a.prepare_and_validate(None, &reserves(1000, 2000, 1414), None, RECOMMENDED_MIN);
    assert_eq!(r, Ok(()));
    assert_eq!(a, after_first);
}

#[test]
fn dummy_leg_makes_a_signed_request_abstract() {
    // A placeholder bound keeps the pass abstract even with an acting
    // account: no account binding, no resolution.
    let mut a = action(Bounds::Dummy, Bounds::Min(10), Bounds::Min(0));
    assert!(a.is_abstract_checking());
    let r = a.prepare_and_validate(
        Some(7),
        &reserves(1000, 2000, 1414),
        Some((1000, 1000)),
        RECOMMENDED_MIN,
    );
    assert_eq!(r, Ok(()));
    assert_eq!(a.client_account, None);
    assert_eq!(a.source.0.amount, Bounds::Dummy);
    assert_eq!(a.min_liquidity, Some(RECOMMENDED_MIN));
}

#[test]
fn reserve_builds_the_transfer_plan() {
    let mut a = action(
        Bounds::RangeFromDesiredToMin(300, 100),
        Bounds::RangeFromDesiredToMin(600, 200),
        Bounds::Min(0),
    );
    a.receiver_account = Some(11);
    let r = a.prepare_and_validate(
        Some(7),
        &reserves(1000, 2000, 1414),
        Some((10_000, 10_000)),
        100,
    );
    assert_eq!(r, Ok(()));
    let plan = a.reserve(7).unwrap();
    assert_eq!(
        plan,
        TransferPlan {
            asset_base: 1,
            amount_base: 300,
            asset_target: 2,
            amount_target: 600,
            mark_asset: 3,
            mint_amount: 424,
            receiver: 11,
        }
    );
}

#[test]
fn reserve_refuses_a_different_signer() {
    let mut a = action(
        Bounds::RangeFromDesiredToMin(300, 100),
        Bounds::RangeFromDesiredToMin(600, 200),
        Bounds::Min(0),
    );
    let r = a.prepare_and_validate(
        Some(7),
        &reserves(1000, 2000, 1414),
        Some((10_000, 10_000)),
        100,
    );
    assert_eq!(r, Ok(()));
    assert_eq!(
        a.reserve(8),
        Err(Error::SourceAndClientAccountDoNotMatchAsEqual)
    );
}

#[test]
fn claim_flags() {
    let a = action(Bounds::Min(0), Bounds::Min(0), Bounds::Min(0));
    assert!(a.instant_auto_claim_used());
    assert!(!a.triggered_auto_claim_used());
    assert!(a.is_able_to_claim());
    assert!(a.claim(7));
}

#[test]
fn bounds_values_and_satisfaction() {
    assert_eq!(Bounds::Desired(5).value(), Some(5));
    assert_eq!(Bounds::Calculated(6).value(), Some(6));
    assert_eq!(Bounds::Min(7).value(), None);
    assert_eq!(Bounds::RangeFromDesiredToMin(9, 8).value(), None);
    assert_eq!(Bounds::Dummy.value(), None);

    assert!(Bounds::Desired(5).meets_the_boundaries(5));
    assert!(!Bounds::Desired(5).meets_the_boundaries(6));
    assert!(Bounds::Min(5).meets_the_boundaries(5));
    assert!(!Bounds::Min(5).meets_the_boundaries(4));
    assert!(Bounds::RangeFromDesiredToMin(9, 5).meets_the_boundaries(5));
    assert!(!Bounds::RangeFromDesiredToMin(9, 5).meets_the_boundaries(4));
    assert!(Bounds::Dummy.meets_the_boundaries(0));
    assert!(Bounds::Calculated(3).meets_the_boundaries(0));
}
