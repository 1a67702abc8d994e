//! The deposit request and its two-phase validation.
//!
//! A request carries two reserve legs, a marker leg, an optional minimum on
//! the minted marker amount, and the accounts involved.  `prepare_and_validate`
//! runs either an abstract check (no acting account, or a placeholder bound on
//! some leg: estimation only) or a concrete check (all account and balance
//! rules enforced, every leg resolved to an exact amount).  `reserve` then
//! turns a fully validated request into the ledger operations to perform.
//!
//! The caller reads the pool snapshot and the acting account's balances from
//! its ledger and passes them in as plain values; validation itself touches no
//! storage, and a request is left unchanged whenever validation fails.

use vstd::prelude::*;
use crate::arith::sqrt_floor;
use crate::arith::mul_sqrt;
use crate::arith::mul_div;
use crate::bounds::Bounds;
use crate::calc::spec_calc_deposit;
use crate::calc::calc_deposit_liquidity;
use crate::errors::Error;

verus! {

/// One leg of a deposit request: an asset and a bound on its amount.
#[derive(Clone, Copy, Debug, PartialEq, Eq, Structural)]
pub struct Resource {
    /// The asset this leg moves.
    pub asset: u64,
    /// How strictly the amount is specified.
    pub amount: Bounds,
}

/// A snapshot of the pool, read from the ledger by the caller: the two
/// reserve balances of the pool account, the total issuance of the marker
/// asset, and the marker asset's identifier.  A consistent pool has both
/// reserves zero (empty) or both positive (priced).
#[derive(Clone, Copy, Debug, PartialEq, Eq, Structural)]
pub struct PoolReserves {
    /// Pool balance of the first reserve asset.
    pub reserve_base: u64,
    /// Pool balance of the second reserve asset.
    pub reserve_target: u64,
    /// Total issuance of the marker asset.
    pub total_issuance: u64,
    /// The marker asset the pool mints for its shares.
    pub mark_asset: u64,
}

/// A liquidity-deposit request.  Constructed per attempt, resolved in place
/// by a successful validation, consumed by the execution step.
#[derive(Clone, Copy, Debug, PartialEq, Eq)]
pub struct DepositLiquidityAction {
    /// The account bound to the request; a concrete check binds it to the
    /// acting account.
    pub client_account: Option<u64>,
    /// The account the marker amount is minted to; defaults to the client.
    pub receiver_account: Option<u64>,
    /// The pool account the reserves move into.
    pub pool_account: u64,
    /// The two reserve legs, in the pool's canonical asset order.
    pub source: (Resource, Resource),
    /// The marker leg: the pool-share amount to mint.
    pub destination: Resource,
    /// Optional floor on the minted marker amount; must not lie below the
    /// protocol's recommended minimum.
    pub min_liquidity: Option<u64>,
}

/// The ledger operations a validated deposit prescribes: two transfers from
/// the acting account into the pool account, and one mint of the marker
/// asset to the receiver.
#[derive(Clone, Copy, Debug, PartialEq, Eq, Structural)]
pub struct TransferPlan {
    /// First reserve asset to transfer into the pool account.
    pub asset_base: u64,
    /// Amount of the first reserve asset.
    pub amount_base: u64,
    /// Second reserve asset to transfer into the pool account.
    pub asset_target: u64,
    /// Amount of the second reserve asset.
    pub amount_target: u64,
    /// The marker asset to mint.
    pub mark_asset: u64,
    /// The marker amount to mint.
    pub mint_amount: u64,
    /// The account the marker amount is minted to.
    pub receiver: u64,
}

impl DepositLiquidityAction {
    /// A request is abstract while any leg still carries the placeholder
    /// bound: it can only be estimated, not executed.
    pub open spec fn spec_is_abstract_checking(self) -> bool {
        self.source.0.amount == Bounds::Dummy || self.source.1.amount == Bounds::Dummy
            || self.destination.amount == Bounds::Dummy
    }

    /// A validation pass is abstract when no acting account is supplied or
    /// the request itself is abstract.
    pub open spec fn spec_abstract_mode(self, source_opt: Option<u64>) -> bool {
        source_opt is None || self.spec_is_abstract_checking()
    }

    /// Every amount is settled and the receiver is known: what the execution
    /// step requires of a request.
    pub open spec fn spec_is_resolved(self) -> bool {
        self.source.0.amount.spec_is_resolved() && self.source.1.amount.spec_is_resolved()
            && self.destination.amount.spec_is_resolved() && self.receiver_account is Some
    }

    /// `self` with the three amount bounds replaced.
    pub open spec fn spec_with_amounts(self, b0: Bounds, b1: Bounds, bd: Bounds) -> Self {
        DepositLiquidityAction {
            client_account: self.client_account,
            receiver_account: self.receiver_account,
            pool_account: self.pool_account,
            source: (
                Resource { asset: self.source.0.asset, amount: b0 },
                Resource { asset: self.source.1.asset, amount: b1 },
            ),
            destination: Resource { asset: self.destination.asset, amount: bd },
            min_liquidity: self.min_liquidity,
        }
    }

    /// `self` with the account fields replaced.
    pub open spec fn spec_with_accounts(self, client: Option<u64>, receiver: Option<u64>) -> Self {
        DepositLiquidityAction {
            client_account: client,
            receiver_account: receiver,
            pool_account: self.pool_account,
            source: self.source,
            destination: self.destination,
            min_liquidity: self.min_liquidity,
        }
    }

    /// `self` with the minimum-liquidity field replaced.
    pub open spec fn spec_with_min_liquidity(self, ml: Option<u64>) -> Self {
        DepositLiquidityAction {
            client_account: self.client_account,
            receiver_account: self.receiver_account,
            pool_account: self.pool_account,
            source: self.source,
            destination: self.destination,
            min_liquidity: ml,
        }
    }

    /// A concrete check binds the client account to the acting account (they
    /// must agree when both are present, since the caller's signature was
    /// checked for the acting account) and defaults the receiver to the
    /// client.
    pub open spec fn spec_resolve_accounts(self, source: u64) -> Result<Self, Error> {
        if self.client_account is Some && self.client_account != Some(source) {
            Err(Error::SourceAndClientAccountDoNotMatchAsEqual)
        } else if self.receiver_account is None {
            Ok(self.spec_with_accounts(Some(source), Some(source)))
        } else {
            Ok(self.spec_with_accounts(Some(source), self.receiver_account))
        }
    }

    /// How one reserve leg resolves against the amount `recom` that the pool
    /// ratio prescribes: a desired leg must match it exactly (failing with
    /// `mismatch`), any other leg must be satisfied by it and becomes
    /// `Calculated`.
    pub open spec fn spec_resolve_leg(b: Bounds, recom: u64, mismatch: Error) -> Result<
        Bounds,
        Error,
    > {
        match b {
            Bounds::Desired(v) => if v == recom {
                Ok(b)
            } else {
                Err(mismatch)
            },
            _ => if b.spec_satisfies(recom) {
                Ok(Bounds::Calculated(recom))
            } else {
                Err(Error::CalculatedValueIsNotMeetsRequiredBoundaries)
            },
        }
    }

    /// Resolution for an empty pool: both reserve legs must pin exact
    /// amounts (there is no ratio to infer from), and the marker amount is
    /// the floor square root of their product — matched exactly against a
    /// desired marker leg, recorded as `Calculated` otherwise.  A marker-leg
    /// floor is enforced later, against the amount left after the
    /// minimum-liquidity burn (see `spec_prepare`).  Returns the resolved
    /// request and the pool's invariant constant.
    pub open spec fn spec_resolve_empty(self) -> Result<(Self, u64), Error> {
        match (self.source.0.amount.spec_value(), self.source.1.amount.spec_value()) {
            (Some(ix), Some(iy)) => {
                let pool_k = sqrt_floor(ix as int * iy as int) as u64;
                match self.destination.amount {
                    Bounds::Desired(k) => if k != pool_k {
                        Err(Error::InvalidDepositLiquidityDestinationAmount)
                    } else {
                        Ok((self, pool_k))
                    },
                    _ => Ok(
                        (
                            self.spec_with_amounts(
                                self.source.0.amount,
                                self.source.1.amount,
                                Bounds::Calculated(pool_k),
                            ),
                            pool_k,
                        ),
                    ),
                }
            },
            _ => Err(Error::InitialLiquidityDepositRatioMustBeDefined),
        }
    }

    /// Resolution for a funded pool, against its invariant constant
    /// `k = sqrt_floor(reserve_base * reserve_target)`.  Three accepted input
    /// shapes: both reserve legs ranges and the marker leg not desired (the
    /// engine picks the best ratio-preserving pair, and the derived marker
    /// amount must satisfy the marker leg's own bound); a desired positive
    /// marker amount (the engine derives the proportional reserve draw); any
    /// other combination is underdetermined.  Returns the resolved request
    /// and the invariant constant.
    pub open spec fn spec_resolve_funded(self, rsv: PoolReserves) -> Result<(Self, u64), Error> {
        let rb = rsv.reserve_base;
        let rt = rsv.reserve_target;
        let pool_k = sqrt_floor(rb as int * rt as int) as u64;
        match (self.source.0.amount, self.source.1.amount, self.destination.amount) {
            (
                Bounds::RangeFromDesiredToMin(xd, xm),
                Bounds::RangeFromDesiredToMin(yd, ym),
                dest,
            ) => if xd < xm || yd < ym {
                Err(Error::RangeValuesIsInvalid)
            } else if dest matches Bounds::Desired(_) {
                Err(Error::ThisCaseIsNotSupported)
            } else {
                match spec_calc_deposit(rsv.total_issuance, rb, rt, xd, yd, xm, ym) {
                    Ok((cx, cy, cm)) => if !dest.spec_satisfies(cm) {
                        Err(Error::CalculatedValueIsNotMeetsRequiredBoundaries)
                    } else {
                        Ok(
                            (
                                self.spec_with_amounts(
                                    Bounds::Calculated(cx),
                                    Bounds::Calculated(cy),
                                    Bounds::Calculated(cm),
                                ),
                                pool_k,
                            ),
                        )
                    },
                    Err(e) => Err(e),
                }
            },
            (ox, oy, Bounds::Desired(dk)) => if dk == 0 {
                Err(Error::ZeroValueInAmountParameter)
            } else {
                let rx = rb as int * dk as int / pool_k as int;
                let ry = rt as int * dk as int / pool_k as int;
                if rx > u64::MAX || ry > u64::MAX {
                    Err(Error::ArithmeticOverflow)
                } else {
                    match Self::spec_resolve_leg(
                        ox,
                        rx as u64,
                        Error::InvalidDepositLiquidityBasicAssetAmount,
                    ) {
                        Ok(nx) => match Self::spec_resolve_leg(
                            oy,
                            ry as u64,
                            Error::InvalidDepositLiquidityTargetAssetAmount,
                        ) {
                            Ok(ny) => Ok(
                                (self.spec_with_amounts(nx, ny, Bounds::Desired(dk)), pool_k),
                            ),
                            Err(e) => Err(e),
                        },
                        Err(e) => Err(e),
                    }
                }
            },
            _ => Err(Error::ImpossibleToDecideDepositLiquidityAmounts),
        }
    }

    /// The minimum-liquidity rule: an unset minimum takes the protocol's
    /// recommended value, a set one must not lie below it.
    pub open spec fn spec_apply_min_liquidity(self, recom: u64) -> Result<Self, Error> {
        match self.min_liquidity {
            None => Ok(self.spec_with_min_liquidity(Some(recom))),
            Some(ml) => if ml < recom {
                Err(Error::PairSwapActionMinimumLiquidityIsSmallerThanRecommended)
            } else {
                Ok(self)
            },
        }
    }

    /// The whole validation pass, as a function from the request and the
    /// ledger snapshot to either the resolved request or the error that
    /// refuses the attempt.  `prepare_and_validate` behaves exactly like
    /// this function.
    ///
    /// For an empty pool, the minimum-liquidity burn is applied last, and a
    /// marker leg that carries a floor (`Min` or a range) constrains the
    /// amount actually minted — the value after the burn; a desired marker
    /// amount is instead matched exactly against the pre-burn invariant
    /// constant, as the empty-pool resolution states.
    pub open spec fn spec_prepare(
        self,
        source_opt: Option<u64>,
        rsv: PoolReserves,
        balances: Option<(u64, u64)>,
        recom: u64,
    ) -> Result<Self, Error> {
        let concrete = !self.spec_abstract_mode(source_opt);
        let step0 = if concrete {
            self.spec_resolve_accounts(source_opt.unwrap())
        } else {
            Ok(self)
        };
        match step0 {
            Err(e) => Err(e),
            Ok(a1) => {
                if a1.destination.asset != rsv.mark_asset {
                    Err(Error::InvalidAssetForLiquidityMarking)
                } else if concrete && (balances.unwrap().0 == 0 || balances.unwrap().1 == 0) {
                    Err(Error::AccountBalanceIsInvalid)
                } else if (rsv.reserve_base == 0) != (rsv.reserve_target == 0) {
                    Err(Error::PoolIsInvalid)
                } else if !concrete {
                    a1.spec_apply_min_liquidity(recom)
                } else {
                    let empty = rsv.reserve_base == 0 && rsv.reserve_target == 0;
                    let resolved = if empty {
                        a1.spec_resolve_empty()
                    } else {
                        a1.spec_resolve_funded(rsv)
                    };
                    match resolved {
                        Err(e) => Err(e),
                        Ok((a2, pool_k)) => match a2.spec_apply_min_liquidity(recom) {
                            Err(e) => Err(e),
                            Ok(a3) => {
                                let ml = a3.min_liquidity.unwrap();
                                let base = a3.source.0.amount.spec_value().unwrap();
                                let target = a3.source.1.amount.spec_value().unwrap();
                                let dest = a3.destination.amount.spec_value().unwrap();
                                if ml > pool_k && dest < ml - pool_k {
                                    Err(Error::DestinationAmountOfLiquidityIsNotLargeEnough)
                                } else if balances.unwrap().0 < base {
                                    Err(Error::SourceBaseAmountIsNotLargeEnough)
                                } else if balances.unwrap().1 < target {
                                    Err(Error::TargetBaseAmountIsNotLargeEnough)
                                } else if empty {
                                    if dest < ml {
                                        Err(Error::ArithmeticOverflow)
                                    } else if !(a1.destination.amount matches Bounds::Desired(_))
                                        && !a1.destination.amount.spec_satisfies((dest - ml) as u64) {
                                        Err(Error::CalculatedValueIsNotMeetsRequiredBoundaries)
                                    } else {
                                        Ok(
                                            a3.spec_with_amounts(
                                                a3.source.0.amount,
                                                a3.source.1.amount,
                                                Bounds::Calculated((dest - ml) as u64),
                                            ),
                                        )
                                    }
                                } else {
                                    Ok(a3)
                                }
                            },
                        },
                    }
                }
            },
        }
    }
    /// Whether this request can only be estimated: some leg still carries
    /// the placeholder bound.
    pub fn is_abstract_checking(&self) -> (r: bool)
        ensures
            r == self.spec_is_abstract_checking(),
    {
        matches!(self.source.0.amount, Bounds::Dummy) || matches!(
            self.source.1.amount,
            Bounds::Dummy,
        ) || matches!(self.destination.amount, Bounds::Dummy)
    }

    /// Validate a deposit request against a pool snapshot and, in concrete
    /// mode, the acting account's balances, resolving every bound in place.
    ///
    /// The pass is abstract (estimation only: no account rules, no balance
    /// rules, no resolution) when `source_opt` is `None` or some leg carries
    /// the placeholder bound; otherwise `source_balances` must carry the
    /// acting account's balances of the two reserve assets.  The request
    /// ends exactly as `spec_prepare` prescribes, and is left unchanged
    /// whenever validation fails.
    pub fn prepare_and_validate(
        &mut self,
        source_opt: Option<u64>,
        reserves: &PoolReserves,
        source_balances: Option<(u64, u64)>,
        recom_min_liquidity: u64,
    ) -> (r: Result<(), Error>)
        requires
            !old(self).spec_abstract_mode(source_opt) ==> source_balances is Some,
        ensures
            match old(self).spec_prepare(
                source_opt,
                *reserves,
                source_balances,
                recom_min_liquidity,
            ) {
                Ok(a) => r is Ok && *final(self) == a,
                Err(e) => r == Err::<(), Error>(e) && *final(self) == *old(self),
            },
    {
        let concrete: bool = source_opt.is_some() && !self.is_abstract_checking();
        let mut a: DepositLiquidityAction = *self;
        if concrete {
            let source: u64 = source_opt.unwrap();
            match a.client_account {
                None => {
                    a.client_account = Some(source);
                },
                Some(ca) => {
                    if ca != source {
                        return Err(Error::SourceAndClientAccountDoNotMatchAsEqual);
                    }
                },
            }
            if a.receiver_account.is_none() {
                a.receiver_account = Some(source);
            }
        }
        if a.destination.asset != reserves.mark_asset {
            return Err(Error::InvalidAssetForLiquidityMarking);
        }
        let (balance_bs, balance_ts): (u64, u64) = if concrete {
            source_balances.unwrap()
        } else {
            (0, 0)
        };
        if concrete && (balance_bs == 0 || balance_ts == 0) {
            return Err(Error::AccountBalanceIsInvalid);
        }
        let rb: u64 = reserves.reserve_base;
        let rt: u64 = reserves.reserve_target;
        if (rb == 0) != (rt == 0) {
            return Err(Error::PoolIsInvalid);
        }
        if !concrete {
            match a.min_liquidity {
                None => {
                    a.min_liquidity = Some(recom_min_liquidity);
                },
                Some(ml) => {
                    if ml < recom_min_liquidity {
                        return Err(Error::PairSwapActionMinimumLiquidityIsSmallerThanRecommended);
                    }
                },
            }
            *self = a;
            return Ok(());
        }
        let empty: bool = rb == 0 && rt == 0;
        let marker_bound: Bounds = a.destination.amount;
        let pool_k: u64;
        let amt_base: u64;
        let amt_target: u64;
        let amt_dest: u64;
        if empty {
            let ix: u64 = match a.source.0.amount.value() {
                Some(v) => v,
                None => {
                    return Err(Error::InitialLiquidityDepositRatioMustBeDefined);
                },
            };
            let iy: u64 = match a.source.1.amount.value() {
                Some(v) => v,
                None => {
                    return Err(Error::InitialLiquidityDepositRatioMustBeDefined);
                },
            };
            pool_k = mul_sqrt(ix, iy);
            match a.destination.amount {
                Bounds::Desired(k) => {
                    if k != pool_k {
                        return Err(Error::InvalidDepositLiquidityDestinationAmount);
                    }
                },
                _ => {
                    a.destination.amount = Bounds::Calculated(pool_k);
                },
            }
            amt_base = ix;
            amt_target = iy;
            amt_dest = pool_k;
        } else {
            pool_k = mul_sqrt(rb, rt);
            proof {
                assert(rb as int * rt as int >= 1) by (nonlinear_arith)
                    requires
                        rb >= 1,
                        rt >= 1;
                assert(pool_k >= 1) by (nonlinear_arith)
                    requires
                        rb as int * rt as int >= 1,
                        (rb as int * rt as int) < (pool_k as int + 1) * (pool_k as int + 1),
                        pool_k >= 0;
            }
            match (a.source.0.amount, a.source.1.amount, a.destination.amount) {
                (
                    Bounds::RangeFromDesiredToMin(xd, xm),
                    Bounds::RangeFromDesiredToMin(yd, ym),
                    dest,
                ) => {
                    if xd < xm || yd < ym {
                        return Err(Error::RangeValuesIsInvalid);
                    }
                    if matches!(dest, Bounds::Desired(_)) {
                        return Err(Error::ThisCaseIsNotSupported);
                    }
                    match calc_deposit_liquidity(reserves.total_issuance, rb, rt, xd, yd, xm, ym) {
                        Ok((cx, cy, cm)) => {
                            if !dest.meets_the_boundaries(cm) {
                                return Err(Error::CalculatedValueIsNotMeetsRequiredBoundaries);
                            }
                            a.source.0.amount = Bounds::Calculated(cx);
                            a.source.1.amount = Bounds::Calculated(cy);
                            a.destination.amount = Bounds::Calculated(cm);
                            amt_base = cx;
                            amt_target = cy;
                            amt_dest = cm;
                        },
                        Err(e) => {
                            return Err(e);
                        },
                    }
                },
                (ox, oy, Bounds::Desired(dk)) => {
                    if dk == 0 {
                        return Err(Error::ZeroValueInAmountParameter);
                    }
                    let rx: u64 = match mul_div(rb, dk, pool_k) {
                        Some(v) => v,
                        None => {
                            return Err(Error::ArithmeticOverflow);
                        },
                    };
                    let ry: u64 = match mul_div(rt, dk, pool_k) {
                        Some(v) => v,
                        None => {
                            return Err(Error::ArithmeticOverflow);
                        },
                    };
                    match ox {
                        Bounds::Desired(x) => {
                            if x != rx {
                                return Err(Error::InvalidDepositLiquidityBasicAssetAmount);
                            }
                        },
                        _ => {
                            if !ox.meets_the_boundaries(rx) {
                                return Err(Error::CalculatedValueIsNotMeetsRequiredBoundaries);
                            }
                            a.source.0.amount = Bounds::Calculated(rx);
                        },
                    }
                    match oy {
                        Bounds::Desired(y) => {
                            if y != ry {
                                return Err(Error::InvalidDepositLiquidityTargetAssetAmount);
                            }
                        },
                        _ => {
                            if !oy.meets_the_boundaries(ry) {
                                return Err(Error::CalculatedValueIsNotMeetsRequiredBoundaries);
                            }
                            a.source.1.amount = Bounds::Calculated(ry);
                        },
                    }
                    amt_base = rx;
                    amt_target = ry;
                    amt_dest = dk;
                },
                _ => {
                    return Err(Error::ImpossibleToDecideDepositLiquidityAmounts);
                },
            }
        }
        let ml: u64 = match a.min_liquidity {
            None => {
                a.min_liquidity = Some(recom_min_liquidity);
                recom_min_liquidity
            },
            Some(ml) => {
                if ml < recom_min_liquidity {
                    return Err(Error::PairSwapActionMinimumLiquidityIsSmallerThanRecommended);
                }
                ml
            },
        };
        if ml > pool_k && amt_dest < ml - pool_k {
            return Err(Error::DestinationAmountOfLiquidityIsNotLargeEnough);
        }
        if balance_bs < amt_base {
            return Err(Error::SourceBaseAmountIsNotLargeEnough);
        }
        if balance_ts < amt_target {
            return Err(Error::TargetBaseAmountIsNotLargeEnough);
        }
        if empty {
            if amt_dest < ml {
                return Err(Error::ArithmeticOverflow);
            }
            // A marker-leg floor constrains what is actually minted: the
            // amount left after the minimum-liquidity burn.
            if !matches!(marker_bound, Bounds::Desired(_)) && !marker_bound.meets_the_boundaries(
                amt_dest - ml,
            ) {
                return Err(Error::CalculatedValueIsNotMeetsRequiredBoundaries);
            }
            a.destination.amount = Bounds::Calculated(amt_dest - ml);
        }
        *self = a;
        Ok(())
    }

    /// Whether a successful validation is claimed at once (it is: the mint
    /// happens in the same step as the transfers).
    pub fn instant_auto_claim_used(&self) -> (r: bool)
        ensures
            r,
    {
        true
    }

    /// Whether a deferred claim trigger is used (it is not).
    pub fn triggered_auto_claim_used(&self) -> (r: bool)
        ensures
            !r,
    {
        false
    }

    /// Whether the validated request can be claimed (it always can).
    pub fn is_able_to_claim(&self) -> (r: bool)
        ensures
            r,
    {
        true
    }

    /// Whether the minted amount is claimed for the receiver; always true,
    /// since the mint happens in the execution step itself.
    pub fn claim(&self, _source: u64) -> (r: bool)
        ensures
            r,
    {
        true
    }

    /// Turn a fully validated request into the ledger operations to perform:
    /// the two reserve transfers into the pool account and the marker mint to
    /// the receiver.  Refused when the acting account is not the client
    /// account the request was validated for.
    pub fn reserve(&self, source: u64) -> (r: Result<TransferPlan, Error>)
        requires
            self.spec_is_resolved(),
        ensures
            match r {
                Ok(p) => self.client_account == Some(source) && p == (TransferPlan {
                    asset_base: self.source.0.asset,
                    amount_base: self.source.0.amount.spec_value().unwrap(),
                    asset_target: self.source.1.asset,
                    amount_target: self.source.1.amount.spec_value().unwrap(),
                    mark_asset: self.destination.asset,
                    mint_amount: self.destination.amount.spec_value().unwrap(),
                    receiver: self.receiver_account.unwrap(),
                }),
                Err(e) => self.client_account != Some(source) && e
                    == Error::SourceAndClientAccountDoNotMatchAsEqual,
            },
    {
        let matches_client: bool = match self.client_account {
            Some(ca) => ca == source,
            None => false,
        };
        if !matches_client {
            return Err(Error::SourceAndClientAccountDoNotMatchAsEqual);
        }
        let amount_base: u64 = match self.source.0.amount.value() {
            Some(v) => v,
            None => {
                return Err(Error::ImpossibleToDecideDepositLiquidityAmounts);
            },
        };
        let amount_target: u64 = match self.source.1.amount.value() {
            Some(v) => v,
            None => {
                return Err(Error::ImpossibleToDecideDepositLiquidityAmounts);
            },
        };
        let mint_amount: u64 = match self.destination.amount.value() {
            Some(v) => v,
            None => {
                return Err(Error::ImpossibleToDecideDepositLiquidityAmounts);
            },
        };
        let receiver: u64 = match self.receiver_account {
            Some(v) => v,
            None => {
                return Err(Error::ImpossibleToDecideDepositLiquidityAmounts);
            },
        };
        Ok(
            TransferPlan {
                asset_base: self.source.0.asset,
                amount_base,
                asset_target: self.source.1.asset,
                amount_target,
                mark_asset: self.destination.asset,
                mint_amount,
                receiver,
            },
        )
    }
}

} // verus!
