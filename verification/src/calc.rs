//! Range-branch calculator.
//!
//! When both reserve legs of a deposit carry a desired/minimum range, the
//! engine picks the largest pair of amounts inside both `[min, desired]`
//! windows that preserves the pool's price ratio exactly, and derives the
//! marker amount proportionally from the marker asset's total issuance.  The
//! ratio-preserving pairs are exactly the multiples of the reserves divided by
//! their greatest common divisor, which is what the gcd theory below
//! establishes.

use vstd::prelude::*;
use vstd::arithmetic::div_mod::*;
use vstd::arithmetic::mul::*;
use crate::errors::Error;
use crate::arith::mul_div;

verus! {

/// `d` divides `n`.
pub open spec fn divides(d: int, n: int) -> bool {
    exists|k: int| n == #[trigger] (d * k)
}

/// The greatest common divisor, by Euclid's recursion.
pub open spec fn gcd(a: nat, b: nat) -> nat
    decreases b,
{
    if b == 0 {
        a
    } else {
        gcd(b, a % b)
    }
}

/// The gcd of `a` and `b` divides both.
pub proof fn lemma_gcd_divides(a: nat, b: nat)
    ensures
        divides(gcd(a, b) as int, a as int),
        divides(gcd(a, b) as int, b as int),
    decreases b,
{
    if b == 0 {
        assert(a as int == (a as int) * 1);
        assert(0int == (a as int) * 0);
    } else {
        lemma_gcd_divides(b, a % b);
        let g = gcd(b, a % b) as int;
        let q = (a as int) / (b as int);
        lemma_fundamental_div_mod(a as int, b as int);
        let k1 = choose|k: int| (b as int) == #[trigger] (g * k);
        let k2 = choose|k: int| ((a % b) as int) == #[trigger] (g * k);
        assert(a as int == g * (k1 * q + k2)) by (nonlinear_arith)
            requires
                a as int == (b as int) * q + ((a % b) as int),
                (b as int) == g * k1,
                ((a % b) as int) == g * k2;
    }
}

/// The gcd of two numbers, not both zero, is positive.
pub proof fn lemma_gcd_pos(a: nat, b: nat)
    requires
        a > 0 || b > 0,
    ensures
        gcd(a, b) > 0,
    decreases b,
{
    if b != 0 {
        lemma_gcd_pos(b, a % b);
    }
}

/// Every common divisor of `a` and `b` divides their gcd.
pub proof fn lemma_divides_gcd(d: int, a: nat, b: nat)
    requires
        divides(d, a as int),
        divides(d, b as int),
    ensures
        divides(d, gcd(a, b) as int),
    decreases b,
{
    if b != 0 {
        let q = (a as int) / (b as int);
        lemma_fundamental_div_mod(a as int, b as int);
        let k1 = choose|k: int| (a as int) == #[trigger] (d * k);
        let k2 = choose|k: int| (b as int) == #[trigger] (d * k);
        assert(((a % b) as int) == d * (k1 - k2 * q)) by (nonlinear_arith)
            requires
                a as int == (b as int) * q + ((a % b) as int),
                (a as int) == d * k1,
                (b as int) == d * k2;
        lemma_divides_gcd(d, b, a % b);
    }
}

/// `s * a + t * b == g`: the gcd is a linear combination of its arguments.
pub open spec fn is_linear_combination(s: int, t: int, a: int, b: int, g: int) -> bool {
    s * a + t * b == g
}

/// Bezout's identity: the gcd of `a` and `b` is an integer linear
/// combination of `a` and `b`.
pub proof fn lemma_bezout(a: nat, b: nat)
    ensures
        exists|s: int, t: int| #[trigger] is_linear_combination(s, t, a as int, b as int, gcd(a, b) as int),
    decreases b,
{
    if b == 0 {
        assert(is_linear_combination(1, 0, a as int, b as int, gcd(a, b) as int))
            by (nonlinear_arith)
            requires
                b == 0,
                gcd(a, b) == a;
    } else {
        lemma_bezout(b, a % b);
        let (s2, t2) = choose|s: int, t: int|
            #[trigger] is_linear_combination(s, t, b as int, (a % b) as int, gcd(b, a % b) as int);
        let q = (a as int) / (b as int);
        lemma_fundamental_div_mod(a as int, b as int);
        assert(is_linear_combination(t2, s2 - t2 * q, a as int, b as int, gcd(a, b) as int))
            by (nonlinear_arith)
            requires
                s2 * (b as int) + t2 * ((a % b) as int) == gcd(a, b) as int,
                a as int == (b as int) * q + ((a % b) as int);
    }
}

/// Euclid's lemma: a number coprime to `b` that divides `b * c` divides `c`.
pub proof fn lemma_coprime_divides(a: nat, b: nat, c: nat)
    requires
        gcd(a, b) == 1,
        divides(a as int, (b * c) as int),
    ensures
        divides(a as int, c as int),
{
    lemma_bezout(a, b);
    let (s, t) = choose|s: int, t: int|
        #[trigger] is_linear_combination(s, t, a as int, b as int, gcd(a, b) as int);
    let m = choose|k: int| ((b * c) as int) == #[trigger] ((a as int) * k);
    assert(c as int == (a as int) * (c * s + t * m)) by (nonlinear_arith)
        requires
            s * (a as int) + t * (b as int) == 1,
            (b as int) * (c as int) == (a as int) * m,
            (b * c) as int == (b as int) * (c as int);
}

/// A positive divisor of a positive number does not exceed it.
pub proof fn lemma_divides_le(d: int, n: int)
    requires
        divides(d, n),
        d > 0,
        n > 0,
    ensures
        d <= n,
{
    let k = choose|k: int| n == #[trigger] (d * k);
    assert(d <= n) by (nonlinear_arith)
        requires
            n == d * k,
            d > 0,
            n > 0;
}

/// A positive divisor divides exactly: the division leaves no remainder and
/// multiplying back recovers the number.
pub proof fn lemma_divides_exact(d: int, n: int)
    requires
        d > 0,
        n >= 0,
        divides(d, n),
    ensures
        n % d == 0,
        n == d * (n / d),
{
    let k = choose|k: int| n == #[trigger] (d * k);
    lemma_div_multiples_vanish(k, d);
    lemma_fundamental_div_mod(n, d);
}

/// One "unit" of the pool's price ratio: the first reserve divided by the
/// gcd of the two reserves.
pub open spec fn unit_base(rb: nat, rt: nat) -> int {
    rb as int / gcd(rb, rt) as int
}

/// The second reserve divided by the gcd of the two reserves.
pub open spec fn unit_target(rb: nat, rt: nat) -> int {
    rt as int / gcd(rb, rt) as int
}

/// The reduced ratio units are coprime, positive, and rebuild the reserves.
pub proof fn lemma_units(rb: nat, rt: nat)
    requires
        rb > 0,
        rt > 0,
    ensures
        unit_base(rb, rt) > 0,
        unit_target(rb, rt) > 0,
        rb as int == gcd(rb, rt) as int * unit_base(rb, rt),
        rt as int == gcd(rb, rt) as int * unit_target(rb, rt),
        gcd(unit_base(rb, rt) as nat, unit_target(rb, rt) as nat) == 1,
{
    let g = gcd(rb, rt) as int;
    lemma_gcd_pos(rb, rt);
    lemma_gcd_divides(rb, rt);
    lemma_divides_exact(g, rb as int);
    lemma_divides_exact(g, rt as int);
    let ua = unit_base(rb, rt);
    let ub = unit_target(rb, rt);
    assert(ua > 0) by (nonlinear_arith)
        requires
            rb as int == g * ua,
            rb > 0,
            g > 0;
    assert(ub > 0) by (nonlinear_arith)
        requires
            rt as int == g * ub,
            rt > 0,
            g > 0;
    let d = gcd(ua as nat, ub as nat) as int;
    lemma_gcd_pos(ua as nat, ub as nat);
    lemma_gcd_divides(ua as nat, ub as nat);
    let k1 = choose|k: int| ua == #[trigger] (d * k);
    let k2 = choose|k: int| ub == #[trigger] (d * k);
    assert(rb as int == (d * g) * k1) by (nonlinear_arith)
        requires
            rb as int == g * ua,
            ua == d * k1;
    assert(rt as int == (d * g) * k2) by (nonlinear_arith)
        requires
            rt as int == g * ub,
            ub == d * k2;
    lemma_divides_gcd(d * g, rb, rt);
    assert(d * g > 0) by (nonlinear_arith)
        requires
            d > 0,
            g > 0;
    lemma_divides_le(d * g, g);
    assert(d == 1) by (nonlinear_arith)
        requires
            d * g <= g,
            d > 0,
            g > 0;
}

/// Every non-negative pair that preserves the pool ratio exactly is a
/// multiple of the reduced ratio units; the returned value is the multiplier.
pub proof fn lemma_exact_pair_is_multiple(rb: nat, rt: nat, x2: int, y2: int) -> (k2: int)
    requires
        rb > 0,
        rt > 0,
        0 <= x2,
        0 <= y2,
        x2 * rt as int == y2 * rb as int,
    ensures
        0 <= k2,
        x2 == k2 * unit_base(rb, rt),
        y2 == k2 * unit_target(rb, rt),
{
    let g = gcd(rb, rt) as int;
    lemma_units(rb, rt);
    let ua = unit_base(rb, rt);
    let ub = unit_target(rb, rt);
    assert(x2 * ub == y2 * ua) by (nonlinear_arith)
        requires
            x2 * (rt as int) == y2 * (rb as int),
            rb as int == g * ua,
            rt as int == g * ub,
            g > 0;
    assert((ub as nat * x2 as nat) as int == (ua as int) * y2) by (nonlinear_arith)
        requires
            x2 * ub == y2 * ua,
            x2 >= 0,
            ub > 0;
    lemma_coprime_divides(ua as nat, ub as nat, x2 as nat);
    let k2 = choose|k: int| x2 == #[trigger] ((ua as int) * k);
    assert(0 <= k2) by (nonlinear_arith)
        requires
            x2 == ua * k2,
            x2 >= 0,
            ua > 0;
    assert(y2 == k2 * ub) by (nonlinear_arith)
        requires
            x2 * ub == y2 * ua,
            x2 == ua * k2,
            ua > 0;
    assert(x2 == k2 * ua);
    k2
}

/// The multiplier of the reduced ratio units chosen for a range deposit: the
/// larger of the two would overshoot one desired amount, so the engine takes
/// the smaller.
pub open spec fn spec_range_multiplier(rb: nat, rt: nat, xdes: int, ydes: int) -> int {
    let kx = xdes / unit_base(rb, rt);
    let ky = ydes / unit_target(rb, rt);
    if kx <= ky {
        kx
    } else {
        ky
    }
}

/// The first-reserve amount chosen for a range deposit.
pub open spec fn spec_range_base(rb: nat, rt: nat, xdes: int, ydes: int) -> int {
    spec_range_multiplier(rb, rt, xdes, ydes) * unit_base(rb, rt)
}

/// The second-reserve amount chosen for a range deposit.
pub open spec fn spec_range_target(rb: nat, rt: nat, xdes: int, ydes: int) -> int {
    spec_range_multiplier(rb, rt, xdes, ydes) * unit_target(rb, rt)
}

/// The pair chosen for a range deposit lies within both desired windows,
/// preserves the pool ratio exactly, and dominates every ratio-preserving
/// pair within the windows.
pub proof fn lemma_range_pair(rb: nat, rt: nat, xdes: int, ydes: int)
    requires
        rb > 0,
        rt > 0,
        0 <= xdes,
        0 <= ydes,
    ensures
        ({
            let x = spec_range_base(rb, rt, xdes, ydes);
            let y = spec_range_target(rb, rt, xdes, ydes);
            0 <= x <= xdes && 0 <= y <= ydes && x * rt as int == y * rb as int && forall|
                x2: int,
                y2: int,
            |
                0 <= x2 <= xdes && 0 <= y2 <= ydes && #[trigger] (x2 * rt as int) == #[trigger] (y2
                    * rb as int) ==> x2 <= x && y2 <= y
        }),
{
    lemma_units(rb, rt);
    let g = gcd(rb, rt) as int;
    let ua = unit_base(rb, rt);
    let ub = unit_target(rb, rt);
    let kx = xdes / ua;
    let ky = ydes / ub;
    let k = spec_range_multiplier(rb, rt, xdes, ydes);
    let x = spec_range_base(rb, rt, xdes, ydes);
    let y = spec_range_target(rb, rt, xdes, ydes);
    lemma_fundamental_div_mod(xdes, ua);
    lemma_fundamental_div_mod(ydes, ub);
    lemma_div_pos_is_pos(xdes, ua);
    lemma_div_pos_is_pos(ydes, ub);
    assert(0 <= x <= xdes && 0 <= y <= ydes) by (nonlinear_arith)
        requires
            x == k * ua,
            y == k * ub,
            (k == kx || k == ky) && k <= kx && k <= ky,
            0 <= kx,
            0 <= ky,
            xdes == ua * kx + xdes % ua,
            ydes == ub * ky + ydes % ub,
            0 <= xdes % ua,
            0 <= ydes % ub,
            ua > 0,
            ub > 0;
    assert(x * rt as int == y * rb as int) by (nonlinear_arith)
        requires
            x == k * ua,
            y == k * ub,
            rb as int == g * ua,
            rt as int == g * ub;
    assert forall|x2: int, y2: int|
        0 <= x2 <= xdes && 0 <= y2 <= ydes && #[trigger] (x2 * rt as int) == #[trigger] (y2
            * rb as int) implies x2 <= x && y2 <= y by {
        let k2 = lemma_exact_pair_is_multiple(rb, rt, x2, y2);
        assert(k2 <= kx) by (nonlinear_arith)
            requires
                x2 == k2 * ua,
                x2 <= xdes,
                xdes == ua * kx + xdes % ua,
                0 <= xdes % ua < ua,
                ua > 0;
        assert(k2 <= ky) by (nonlinear_arith)
            requires
                y2 == k2 * ub,
                y2 <= ydes,
                ydes == ub * ky + ydes % ub,
                0 <= ydes % ub < ub,
                ub > 0;
        assert(x2 <= x && y2 <= y) by (nonlinear_arith)
            requires
                x2 == k2 * ua,
                y2 == k2 * ub,
                x == k * ua,
                y == k * ub,
                k2 <= kx,
                k2 <= ky,
                k == kx || k == ky,
                ua > 0,
                ub > 0;
    }
}

/// What the range calculator decides: the ratio-preserving pair, refused when
/// it misses a floor, and the proportional marker amount, refused when it
/// does not fit the balance type.
pub open spec fn spec_calc_deposit(
    total_iss: u64,
    reserve_base: u64,
    reserve_target: u64,
    xdes: u64,
    ydes: u64,
    xmin: u64,
    ymin: u64,
) -> Result<(u64, u64, u64), Error> {
    let x = spec_range_base(reserve_base as nat, reserve_target as nat, xdes as int, ydes as int);
    let y = spec_range_target(reserve_base as nat, reserve_target as nat, xdes as int, ydes as int);
    let m = x * total_iss / reserve_base as int;
    if x < xmin || y < ymin {
        Err(Error::CalculatedValueIsNotMeetsRequiredBoundaries)
    } else if m > u64::MAX {
        Err(Error::ArithmeticOverflow)
    } else {
        Ok((x as u64, y as u64, m as u64))
    }
}

/// Greatest common divisor of two balances, by Euclid's algorithm.
pub fn gcd_u64(a: u64, b: u64) -> (r: u64)
    ensures
        r as nat == gcd(a as nat, b as nat),
{
    let mut x: u64 = a;
    let mut y: u64 = b;
    while y != 0
        invariant
            gcd(x as nat, y as nat) == gcd(a as nat, b as nat),
        decreases y,
    {
        let t: u64 = x % y;
        x = y;
        y = t;
    }
    x
}

/// For a non-empty pool and two desired/minimum ranges, choose the deposit
/// amounts and the marker amount to mint.  The chosen pair is the largest
/// pair within both `[min, desired]` windows that preserves the reserve ratio
/// exactly (see `lemma_range_pair`); the marker amount is the matching
/// proportional share of the marker asset's total issuance, rounded down in
/// the pool's favour.
pub fn calc_deposit_liquidity(
    total_iss: u64,
    reserve_base: u64,
    reserve_target: u64,
    xdes: u64,
    ydes: u64,
    xmin: u64,
    ymin: u64,
) -> (r: Result<(u64, u64, u64), Error>)
    requires
        reserve_base > 0,
        reserve_target > 0,
    ensures
        r == spec_calc_deposit(total_iss, reserve_base, reserve_target, xdes, ydes, xmin, ymin),
{
    proof {
        lemma_units(reserve_base as nat, reserve_target as nat);
        lemma_gcd_pos(reserve_base as nat, reserve_target as nat);
    }
    let g: u64 = gcd_u64(reserve_base, reserve_target);
    let ua: u64 = reserve_base / g;
    let ub: u64 = reserve_target / g;
    let kx: u64 = xdes / ua;
    let ky: u64 = ydes / ub;
    let k: u64 = if kx <= ky {
        kx
    } else {
        ky
    };
    proof {
        lemma_fundamental_div_mod(xdes as int, ua as int);
        lemma_fundamental_div_mod(ydes as int, ub as int);
        assert(k as int * ua as int <= xdes as int && k as int * ub as int <= ydes as int)
            by (nonlinear_arith)
            requires
                k <= kx,
                k <= ky,
                k >= 0,
                xdes as int == ua as int * kx as int + xdes as int % ua as int,
                ydes as int == ub as int * ky as int + ydes as int % ub as int,
                0 <= xdes as int % ua as int,
                0 <= ydes as int % ub as int,
                ua > 0,
                ub > 0;
    }
    let x: u64 = k * ua;
    let y: u64 = k * ub;
    if x < xmin || y < ymin {
        Err(Error::CalculatedValueIsNotMeetsRequiredBoundaries)
    } else {
        match mul_div(x, total_iss, reserve_base) {
            Some(m) => Ok((x, y, m)),
            None => Err(Error::ArithmeticOverflow),
        }
    }
}

} // verus!
