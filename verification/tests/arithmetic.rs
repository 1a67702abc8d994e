//! Tests for the fixed-point arithmetic layer and the range calculator.

use pool_xyk::arith::{isqrt, mul_div, mul_sqrt};
use pool_xyk::calc::{calc_deposit_liquidity, gcd_u64};
use pool_xyk::errors::Error;

#[test]
fn isqrt_exact_values() {
    assert_eq!(isqrt(0), 0);
    assert_eq!(isqrt(1), 1);
    assert_eq!(isqrt(3), 1);
    assert_eq!(isqrt(4), 2);
    assert_eq!(isqrt(35), 5);
    assert_eq!(isqrt(36), 6);
    assert_eq!(isqrt(40_000), 200);
    assert_eq!(isqrt(250_000), 500);
    assert_eq!(isqrt(u128::MAX), u64::MAX);
}

#[test]
fn mul_sqrt_of_balances() {
    assert_eq!(mul_sqrt(100, 400), 200);
    assert_eq!(mul_sqrt(500, 500), 500);
    assert_eq!(mul_sqrt(0, 12345), 0);
    assert_eq!(mul_sqrt(u64::MAX, u64::MAX), u64::MAX);
}

#[test]
fn mul_div_rounds_down() {
    assert_eq!(mul_div(7, 3, 2), Some(10));
    assert_eq!(mul_div(10, 0, 3), Some(0));
    assert_eq!(mul_div(1_000_000_000_000, 1_000_000_000_000, 1_000_000_000_000), Some(1_000_000_000_000));
    assert_eq!(mul_div(u64::MAX, 2, 1), None);
    assert_eq!(mul_div(u64::MAX, u64::MAX, u64::MAX), Some(u64::MAX));
}

#[test]
fn gcd_values() {
    assert_eq!(gcd_u64(12, 18), 6);
    assert_eq!(gcd_u64(0, 5), 5);
    assert_eq!(gcd_u64(7, 0), 7);
    assert_eq!(gcd_u64(1000, 2000), 1000);
    assert_eq!(gcd_u64(17, 31), 1);
}

#[test]
fn range_calculator_picks_ratio_preserving_pair() {
    // Reserves 1000 : 2000, windows [100, 300] and [200, 600]: the best
    // ratio-preserving pair is (300, 600); with total issuance 1414 the
    // marker amount is floor(300 * 1414 / 1000) = 424.
    let r = calc_deposit_liquidity(1414, 1000, 2000, 300, 600, 100, 200);
    assert_eq!(r, Ok((300, 600, 424)));
    let (x, y, _) = r.unwrap();
    assert_eq!(x as u128 * 2000, y as u128 * 1000);
}

#[test]
fn range_calculator_limited_by_second_window() {
    // Reserves 1 : 2, windows [0, 500] and [0, 600]: the second window caps
    // the pair at (300, 600).
    assert_eq!(calc_deposit_liquidity(9, 1, 2, 500, 600, 0, 0), Ok((300, 600, 2700)));
}

#[test]
fn range_calculator_refuses_pair_below_floor() {
    // Reserves 3 : 7 admit only multiples of (3, 7); desired amounts (2, 100)
    // force the zero pair, which misses the floors.
    assert_eq!(
        calc_deposit_liquidity(10, 3, 7, 2, 100, 1, 1),
        Err(Error::CalculatedValueIsNotMeetsRequiredBoundaries)
    );
}

#[test]
fn range_calculator_reports_marker_overflow() {
    // A huge deposit against a tiny reserve makes the proportional marker
    // amount overflow the balance type.
    assert_eq!(
        calc_deposit_liquidity(2, 1, 1, u64::MAX, u64::MAX, 0, 0),
        Err(Error::ArithmeticOverflow)
    );
}
