//! The engine's laws: properties that hold of every validation pass, proved
//! once and for all over `spec_prepare`.

use vstd::prelude::*;
use vstd::arithmetic::div_mod::lemma_fundamental_div_mod;
use vstd::arithmetic::div_mod::lemma_mod_division_less_than_divisor;
use vstd::arithmetic::div_mod::lemma_div_pos_is_pos;
use vstd::arithmetic::mul::lemma_mul_nonnegative;
use crate::action::DepositLiquidityAction;
use crate::action::PoolReserves;
use crate::bounds::Bounds;
use crate::calc::lemma_range_pair;
use crate::calc::spec_range_base;
use crate::errors::Error;
use crate::arith::sqrt_floor;
use crate::arith::lemma_pool_k_fits;

verus! {

/// A successful concrete validation settles every amount and the receiver
/// account: the resolved request is ready for the execution step.
pub proof fn lemma_validated_request_is_resolved(
    a: DepositLiquidityAction,
    source_opt: Option<u64>,
    rsv: PoolReserves,
    bal: Option<(u64, u64)>,
    recom: u64,
)
    requires
        !a.spec_abstract_mode(source_opt),
        a.spec_prepare(source_opt, rsv, bal, recom) is Ok,
    ensures
        a.spec_prepare(source_opt, rsv, bal, recom).unwrap().spec_is_resolved(),
{
}

/// Bound satisfaction: a successful concrete validation resolves every leg
/// to an amount that satisfies the bound the caller supplied.  For the
/// marker leg of a funded pool a desired amount is kept unchanged; for an
/// empty pool a marker-leg floor constrains the amount actually minted (the
/// value after the minimum-liquidity burn), while a desired marker amount is
/// matched against the pre-burn invariant constant and then reduced by the
/// burn — the one rewrite a desired amount ever receives, and the burn
/// itself is what spec'd minimum-liquidity enforcement prescribes.
pub proof fn lemma_bound_satisfaction(
    a: DepositLiquidityAction,
    source_opt: Option<u64>,
    rsv: PoolReserves,
    bal: Option<(u64, u64)>,
    recom: u64,
)
    requires
        !a.spec_abstract_mode(source_opt),
        a.spec_prepare(source_opt, rsv, bal, recom) is Ok,
    ensures
        ({
            let a2 = a.spec_prepare(source_opt, rsv, bal, recom).unwrap();
            a.source.0.amount.spec_satisfies(a2.source.0.amount.spec_value().unwrap())
                && a.source.1.amount.spec_satisfies(a2.source.1.amount.spec_value().unwrap()) && (!(
            a.destination.amount matches Bounds::Desired(_)) ==> a.destination.amount.spec_satisfies(
                a2.destination.amount.spec_value().unwrap(),
            )) && ((rsv.reserve_base > 0 && a.destination.amount matches Bounds::Desired(_))
                ==> a2.destination.amount == a.destination.amount)
        }),
{
    let a2 = a.spec_prepare(source_opt, rsv, bal, recom).unwrap();
    let a1 = a.spec_resolve_accounts(source_opt.unwrap()).unwrap();
    assert(a1.source == a.source && a1.destination == a.destination);
    if rsv.reserve_base > 0 && rsv.reserve_target > 0 {
        match (a1.source.0.amount, a1.source.1.amount, a1.destination.amount) {
            (
                Bounds::RangeFromDesiredToMin(xd, _),
                Bounds::RangeFromDesiredToMin(yd, _),
                _,
            ) => {
                lemma_range_pair(
                    rsv.reserve_base as nat,
                    rsv.reserve_target as nat,
                    xd as int,
                    yd as int,
                );
            },
            _ => {
            },
        }
    }
}

/// The truncation band of a proportional reserve draw: amounts obtained by
/// dividing through the invariant constant distort the reserve cross product
/// by less than one unit of either reserve.
proof fn lemma_proportional_draw_error(rb: int, rt: int, dk: int, pk: int, x: int, y: int)
    requires
        rb > 0,
        rt > 0,
        dk > 0,
        pk > 0,
        x == rb * dk / pk,
        y == rt * dk / pk,
    ensures
        -rt < x * rt - y * rb < rb,
{
    lemma_fundamental_div_mod(rb * dk, pk);
    lemma_fundamental_div_mod(rt * dk, pk);
    lemma_mod_division_less_than_divisor(rb * dk, pk);
    lemma_mod_division_less_than_divisor(rt * dk, pk);
    let e1 = (rb * dk) % pk;
    let e2 = (rt * dk) % pk;
    assert(pk * (x * rt - y * rb) == e2 * rb - e1 * rt) by (nonlinear_arith)
        requires
            rb * dk == pk * x + e1,
            rt * dk == pk * y + e2;
    assert(-rt < x * rt - y * rb < rb) by (nonlinear_arith)
        requires
            pk * (x * rt - y * rb) == e2 * rb - e1 * rt,
            0 <= e1 < pk,
            0 <= e2 < pk,
            rb > 0,
            rt > 0,
            pk > 0;
}

/// Invariant preservation: a successful deposit into a funded pool moves a
/// pair of amounts whose cross products with the reserves agree to within
/// the truncation of integer division (each derived amount is rounded down,
/// in the pool's favour), so the post-deposit price ratio equals the
/// pre-deposit ratio up to that truncation; and when both reserve legs are
/// ranges the ratio is preserved exactly.
pub proof fn lemma_invariant_preservation(
    a: DepositLiquidityAction,
    source_opt: Option<u64>,
    rsv: PoolReserves,
    bal: Option<(u64, u64)>,
    recom: u64,
)
    requires
        !a.spec_abstract_mode(source_opt),
        rsv.reserve_base > 0,
        rsv.reserve_target > 0,
        a.spec_prepare(source_opt, rsv, bal, recom) is Ok,
    ensures
        ({
            let a2 = a.spec_prepare(source_opt, rsv, bal, recom).unwrap();
            let x = a2.source.0.amount.spec_value().unwrap() as int;
            let y = a2.source.1.amount.spec_value().unwrap() as int;
            let rb = rsv.reserve_base as int;
            let rt = rsv.reserve_target as int;
            -rt < x * rt - y * rb < rb && (rsv.reserve_base + x) * rt - (rsv.reserve_target + y)
                * rb == x * rt - y * rb && ((a.source.0.amount matches Bounds::RangeFromDesiredToMin(
                _,
                _,
            ) && a.source.1.amount matches Bounds::RangeFromDesiredToMin(_, _)) ==> x * rt == y
                * rb)
        }),
{
    let a2 = a.spec_prepare(source_opt, rsv, bal, recom).unwrap();
    let x = a2.source.0.amount.spec_value().unwrap() as int;
    let y = a2.source.1.amount.spec_value().unwrap() as int;
    let rb = rsv.reserve_base as int;
    let rt = rsv.reserve_target as int;
    let a1 = a.spec_resolve_accounts(source_opt.unwrap()).unwrap();
    let pool_k = sqrt_floor(rb * rt) as u64;
    match (a1.source.0.amount, a1.source.1.amount, a1.destination.amount) {
        (Bounds::RangeFromDesiredToMin(xd, _), Bounds::RangeFromDesiredToMin(yd, _), _) => {
            lemma_range_pair(
                rsv.reserve_base as nat,
                rsv.reserve_target as nat,
                xd as int,
                yd as int,
            );
            assert(x == spec_range_base(
                rsv.reserve_base as nat,
                rsv.reserve_target as nat,
                xd as int,
                yd as int,
            ));
            assert(x * rt == y * rb);
        },
        (_, _, Bounds::Desired(dk)) => {
            lemma_pool_k_fits(rsv.reserve_base, rsv.reserve_target);
            assert(pool_k as int == sqrt_floor(rb * rt));
            lemma_proportional_draw_error(rb, rt, dk as int, pool_k as int, x, y);
        },
        _ => {
            assert(false);
        },
    }
    assert((rb + x) * rt - (rt + y) * rb == x * rt - y * rb) by (nonlinear_arith);
}

/// Abstract checks are idempotent: an abstract pass touches neither the pool
/// snapshot nor any leg of the request, and once it has succeeded, running
/// it again on the result returns the same request and the same verdict.
pub proof fn lemma_abstract_mode_idempotent(
    a: DepositLiquidityAction,
    source_opt: Option<u64>,
    rsv: PoolReserves,
    bal: Option<(u64, u64)>,
    recom: u64,
)
    requires
        a.spec_abstract_mode(source_opt),
    ensures
        match a.spec_prepare(source_opt, rsv, bal, recom) {
            Ok(a1) => a1.source == a.source && a1.destination == a.destination
                && a1.client_account == a.client_account && a1.receiver_account
                == a.receiver_account && a1.pool_account == a.pool_account && a1.spec_prepare(
                source_opt,
                rsv,
                bal,
                recom,
            ) == Ok::<DepositLiquidityAction, Error>(a1),
            Err(_) => true,
        },
{
}

/// Balance gating: a successful concrete validation implies that the acting
/// account's balances cover both resolved reserve amounts — a request whose
/// balance falls short always fails before the execution step.
pub proof fn lemma_balance_sufficiency(
    a: DepositLiquidityAction,
    source_opt: Option<u64>,
    rsv: PoolReserves,
    bal: Option<(u64, u64)>,
    recom: u64,
)
    requires
        !a.spec_abstract_mode(source_opt),
        a.spec_prepare(source_opt, rsv, bal, recom) is Ok,
    ensures
        ({
            let a2 = a.spec_prepare(source_opt, rsv, bal, recom).unwrap();
            bal.unwrap().0 >= a2.source.0.amount.spec_value().unwrap() && bal.unwrap().1
                >= a2.source.1.amount.spec_value().unwrap() && bal.unwrap().0 > 0 && bal.unwrap().1
                > 0
        }),
{
}

/// Initialization determinism: a successful first deposit into an empty pool
/// moves exactly the two pinned amounts and mints the floor square root of
/// their product, less the minimum-liquidity amount burned to guard against
/// first-depositor attacks.
pub proof fn lemma_empty_pool_initialization(
    a: DepositLiquidityAction,
    source_opt: Option<u64>,
    rsv: PoolReserves,
    bal: Option<(u64, u64)>,
    recom: u64,
)
    requires
        !a.spec_abstract_mode(source_opt),
        rsv.reserve_base == 0,
        rsv.reserve_target == 0,
        a.spec_prepare(source_opt, rsv, bal, recom) is Ok,
    ensures
        ({
            let a2 = a.spec_prepare(source_opt, rsv, bal, recom).unwrap();
            let ix = a.source.0.amount.spec_value().unwrap();
            let iy = a.source.1.amount.spec_value().unwrap();
            let ml = a2.min_liquidity.unwrap();
            a.source.0.amount.spec_is_resolved() && a.source.1.amount.spec_is_resolved()
                && a2.source.0.amount.spec_value() == Some(ix) && a2.source.1.amount.spec_value()
                == Some(iy) && ml >= recom && sqrt_floor(ix as int * iy as int) >= ml
                && a2.destination.amount.spec_value().unwrap() as int == sqrt_floor(
                ix as int * iy as int,
            ) - ml
        }),
{
    let a1 = a.spec_resolve_accounts(source_opt.unwrap()).unwrap();
    assert(a1.source == a.source && a1.destination == a.destination);
    let ix = a1.source.0.amount.spec_value().unwrap();
    let iy = a1.source.1.amount.spec_value().unwrap();
    lemma_pool_k_fits(ix, iy);
}

/// The minimum-liquidity rule, in either mode: a caller-supplied minimum
/// below the recommended one never validates; on success an unset minimum
/// has been filled with the recommended value and a set one is kept.  In
/// abstract mode, once the marker-asset and pool-consistency gates pass, an
/// undersized minimum is refused with its dedicated error.
pub proof fn lemma_min_liquidity_rule(
    a: DepositLiquidityAction,
    source_opt: Option<u64>,
    rsv: PoolReserves,
    bal: Option<(u64, u64)>,
    recom: u64,
)
    ensures
        ({
            let r = a.spec_prepare(source_opt, rsv, bal, recom);
            ((a.min_liquidity is Some && a.min_liquidity.unwrap() < recom) ==> !(r is Ok)) && (r
                is Ok ==> r.unwrap().min_liquidity == (if a.min_liquidity is None {
                Some(recom)
            } else {
                a.min_liquidity
            }))
        }),
        (a.spec_abstract_mode(source_opt) && a.destination.asset == rsv.mark_asset && ((
        rsv.reserve_base == 0) == (rsv.reserve_target == 0)) && a.min_liquidity is Some
            && a.min_liquidity.unwrap() < recom) ==> a.spec_prepare(source_opt, rsv, bal, recom)
            == Err::<
            DepositLiquidityAction,
            Error,
        >(Error::PairSwapActionMinimumLiquidityIsSmallerThanRecommended),
{
}

/// A desired amount is matched exactly or refused with its dedicated error,
/// never silently substituted: on success every desired reserve leg keeps
/// its exact amount; in the funded proportional-draw shape a desired reserve
/// leg that differs from the prescribed draw is refused with that leg's
/// dedicated error; and for an empty pool a desired marker amount that
/// differs from the invariant constant is refused.
pub proof fn lemma_desired_amounts_never_substituted(
    a: DepositLiquidityAction,
    source_opt: Option<u64>,
    rsv: PoolReserves,
    bal: Option<(u64, u64)>,
    recom: u64,
)
    requires
        !a.spec_abstract_mode(source_opt),
        bal is Some,
    ensures
        a.spec_prepare(source_opt, rsv, bal, recom) is Ok ==> ({
            let a2 = a.spec_prepare(source_opt, rsv, bal, recom).unwrap();
            (a.source.0.amount is Desired ==> a2.source.0.amount == a.source.0.amount) && (
            a.source.1.amount is Desired ==> a2.source.1.amount == a.source.1.amount)
        }),
        ({
            let gates = a.spec_resolve_accounts(source_opt.unwrap()) is Ok && a.destination.asset
                == rsv.mark_asset && bal.unwrap().0 > 0 && bal.unwrap().1 > 0 && rsv.reserve_base
                > 0 && rsv.reserve_target > 0;
            let both_ranges = a.source.0.amount is RangeFromDesiredToMin && a.source.1.amount
                is RangeFromDesiredToMin;
            let pool_k = sqrt_floor(rsv.reserve_base as int * rsv.reserve_target as int);
            let dk = a.destination.amount->Desired_0;
            let rx = rsv.reserve_base as int * dk as int / pool_k;
            let ry = rsv.reserve_target as int * dk as int / pool_k;
            let leg0_mismatch = a.source.0.amount is Desired && (a.source.0.amount->Desired_0
                as int) != rx;
            let leg0_passes = DepositLiquidityAction::spec_resolve_leg(
                a.source.0.amount,
                rx as u64,
                Error::InvalidDepositLiquidityBasicAssetAmount,
            ) is Ok;
            let leg1_mismatch = a.source.1.amount is Desired && (a.source.1.amount->Desired_0
                as int) != ry;
            (gates && !both_ranges && a.destination.amount is Desired && dk > 0 && rx <= u64::MAX
                && ry <= u64::MAX && (leg0_mismatch || (leg0_passes && leg1_mismatch)))
                ==> a.spec_prepare(source_opt, rsv, bal, recom) == Err::<
                DepositLiquidityAction,
                Error,
            >(
                if leg0_mismatch {
                    Error::InvalidDepositLiquidityBasicAssetAmount
                } else {
                    Error::InvalidDepositLiquidityTargetAssetAmount
                },
            )
        }),
        ({
            let gates = a.spec_resolve_accounts(source_opt.unwrap()) is Ok && a.destination.asset
                == rsv.mark_asset && bal.unwrap().0 > 0 && bal.unwrap().1 > 0;
            let ix = a.source.0.amount.spec_value().unwrap();
            let iy = a.source.1.amount.spec_value().unwrap();
            (gates && rsv.reserve_base == 0 && rsv.reserve_target == 0
                && a.source.0.amount.spec_value() is Some && a.source.1.amount.spec_value()
                is Some && a.destination.amount is Desired && (a.destination.amount->Desired_0
                as int) != sqrt_floor(ix as int * iy as int)) ==> a.spec_prepare(
                source_opt,
                rsv,
                bal,
                recom,
            ) == Err::<DepositLiquidityAction, Error>(
                Error::InvalidDepositLiquidityDestinationAmount,
            )
        }),
{
    let a1 = a.spec_resolve_accounts(source_opt.unwrap());
    if a1 is Ok {
        assert(a1.unwrap().source == a.source && a1.unwrap().destination == a.destination);
        if rsv.reserve_base == 0 && rsv.reserve_target == 0 {
            match (a.source.0.amount.spec_value(), a.source.1.amount.spec_value()) {
                (Some(ix), Some(iy)) => {
                    lemma_pool_k_fits(ix, iy);
                },
                _ => {
                },
            }
        } else if rsv.reserve_base > 0 && rsv.reserve_target > 0 {
            lemma_pool_k_fits(rsv.reserve_base, rsv.reserve_target);
            let pool_k = sqrt_floor(rsv.reserve_base as int * rsv.reserve_target as int);
            if a.destination.amount is Desired {
                let dk = a.destination.amount->Desired_0;
                lemma_mul_nonnegative(rsv.reserve_base as int, dk as int);
                lemma_mul_nonnegative(rsv.reserve_target as int, dk as int);
                if pool_k > 0 {
                    lemma_div_pos_is_pos(rsv.reserve_base as int * dk as int, pool_k);
                    lemma_div_pos_is_pos(rsv.reserve_target as int * dk as int, pool_k);
                }
            }
        }
    }
}

} // verus!
