//! Fixed-point arithmetic layer.
//!
//! All monetary amounts are non-negative integers of the balance type `u64`,
//! in a fixed implicit scale.  Products of two balances are formed in the
//! 128-bit intermediate type, which is wide enough that they never overflow;
//! narrowing back to the balance type is checked and reports failure instead
//! of truncating.  Division truncates toward zero, so every rounded quantity
//! errs in the pool's favour, never the depositor's.

use vstd::prelude::*;
use vstd::arithmetic::mul::*;

verus! {

/// `r` is the integer square root of `n`: the greatest integer whose square
/// does not exceed `n`.
pub open spec fn is_sqrt_floor(n: int, r: int) -> bool {
    0 <= r && r * r <= n && n < (r + 1) * (r + 1)
}

/// The integer square root of `n` (the floor of the real square root),
/// defined as the witness of `is_sqrt_floor`.
pub open spec fn sqrt_floor(n: int) -> int {
    choose|r: int| is_sqrt_floor(n, r)
}

/// Every non-negative integer has an integer square root.
pub proof fn lemma_sqrt_floor_exists(n: int)
    requires
        0 <= n,
    ensures
        is_sqrt_floor(n, sqrt_floor(n)),
    decreases n,
{
    if n == 0 {
        assert(is_sqrt_floor(0, 0));
    } else {
        lemma_sqrt_floor_exists(n - 1);
        let r = sqrt_floor(n - 1);
        if (r + 1) * (r + 1) <= n {
            // n - 1 < (r + 1) * (r + 1) <= n forces n == (r + 1) * (r + 1).
            assert(is_sqrt_floor(n, r + 1)) by (nonlinear_arith)
                requires
                    is_sqrt_floor(n - 1, r),
                    (r + 1) * (r + 1) <= n;
        } else {
            assert(is_sqrt_floor(n, r));
        }
    }
}

/// The integer square root is unique: any witness equals `sqrt_floor(n)`.
pub proof fn lemma_sqrt_floor_is(n: int, r: int)
    requires
        is_sqrt_floor(n, r),
    ensures
        r == sqrt_floor(n),
{
    lemma_mul_nonnegative(r, r);
    lemma_sqrt_floor_exists(n);
    let s = sqrt_floor(n);
    assert(r == s) by (nonlinear_arith)
        requires
            is_sqrt_floor(n, r),
            is_sqrt_floor(n, s);
}

/// The integer square root of `n`, found by binary search on the balance
/// range.
pub fn isqrt(n: u128) -> (r: u64)
    ensures
        r == sqrt_floor(n as int),
        is_sqrt_floor(n as int, r as int),
{
    let mut lo: u128 = 0;
    let mut hi: u128 = 0x1_0000_0000_0000_0000;
    proof {
        assert((0x1_0000_0000_0000_0000int) * (0x1_0000_0000_0000_0000int) > n as int)
            by (nonlinear_arith)
            requires
                n <= u128::MAX;
    }
    while lo + 1 < hi
        invariant
            lo < hi,
            hi <= 0x1_0000_0000_0000_0000u128,
            (lo as int) * (lo as int) <= n as int,
            (n as int) < (hi as int) * (hi as int),
        decreases hi - lo,
    {
        let mid: u128 = lo + (hi - lo) / 2;
        proof {
            assert(lo < mid < hi);
            assert((mid as int) * (mid as int) <= u128::MAX as int) by (nonlinear_arith)
                requires
                    mid < 0x1_0000_0000_0000_0000u128;
        }
        if mid * mid <= n {
            lo = mid;
        } else {
            hi = mid;
        }
    }
    proof {
        assert(hi == lo + 1);
        assert(is_sqrt_floor(n as int, lo as int));
        lemma_sqrt_floor_is(n as int, lo as int);
        assert(lo < 0x1_0000_0000_0000_0000u128);
    }
    lo as u64
}

/// The invariant constant of a pool fits the balance type, and is positive
/// whenever both reserves are.
pub proof fn lemma_pool_k_fits(rb: u64, rt: u64)
    ensures
        0 <= sqrt_floor(rb as int * rt as int) <= u64::MAX,
        is_sqrt_floor(rb as int * rt as int, sqrt_floor(rb as int * rt as int)),
        rb > 0 && rt > 0 ==> sqrt_floor(rb as int * rt as int) >= 1,
{
    let n = rb as int * rt as int;
    assert(0 <= n <= u64::MAX as int * u64::MAX as int) by (nonlinear_arith)
        requires
            n == rb as int * rt as int,
            0 <= rb <= u64::MAX,
            0 <= rt <= u64::MAX;
    lemma_sqrt_floor_exists(n);
    let r = sqrt_floor(n);
    assert(r <= u64::MAX) by (nonlinear_arith)
        requires
            0 <= r,
            r * r <= n,
            n <= u64::MAX as int * u64::MAX as int;
    if rb > 0 && rt > 0 {
        assert(n >= 1) by (nonlinear_arith)
            requires
                n == rb as int * rt as int,
                rb >= 1,
                rt >= 1;
        assert(r >= 1) by (nonlinear_arith)
            requires
                n >= 1,
                n < (r + 1) * (r + 1),
                r >= 0;
    }
}

/// The floor of `a * b / c`, computed in the 128-bit intermediate type.
/// `None` when the quotient does not fit the balance type.
pub fn mul_div(a: u64, b: u64, c: u64) -> (r: Option<u64>)
    requires
        c > 0,
    ensures
        match r {
            Some(v) => v == (a as int * b as int) / (c as int) && (a as int * b as int) / (
            c as int) <= u64::MAX,
            None => (a as int * b as int) / (c as int) > u64::MAX,
        },
{
    proof {
        assert((a as int) * (b as int) <= u128::MAX as int) by (nonlinear_arith)
            requires
                a <= u64::MAX,
                b <= u64::MAX;
    }
    let p: u128 = (a as u128) * (b as u128);
    let q: u128 = p / (c as u128);
    if q <= u64::MAX as u128 {
        Some(q as u64)
    } else {
        None
    }
}

/// The floor of the square root of the product `a * b`; used for the pool's
/// invariant constant.  The result always fits the balance type.
pub fn mul_sqrt(a: u64, b: u64) -> (r: u64)
    ensures
        r == sqrt_floor(a as int * b as int),
        is_sqrt_floor(a as int * b as int, r as int),
{
    proof {
        assert((a as int) * (b as int) <= u128::MAX as int) by (nonlinear_arith)
            requires
                a <= u64::MAX,
                b <= u64::MAX;
        lemma_mul_nonnegative(a as int, b as int);
    }
    isqrt((a as u128) * (b as u128))
}

} // verus!
