//! Bound values: how strictly a caller pins an amount.
//!
//! Each leg of a deposit request carries a `Bounds` value.  `Dummy` is a
//! placeholder that carries no information and marks the request as an
//! abstract (estimation-only) check; `Desired` insists on an exact amount;
//! `Min` gives a floor; `RangeFromDesiredToMin` gives an ideal amount and an
//! acceptable floor; `Calculated` records a value the engine derived.

use vstd::prelude::*;

verus! {

/// A tagged constraint on a single amount.
#[derive(Clone, Copy, Debug, PartialEq, Eq, Structural)]
pub enum Bounds {
    /// Placeholder: nothing is known yet (abstract checks only).
    Dummy,
    /// The caller insists on exactly this amount.
    Desired(u64),
    /// The caller insists the realized amount be at least this much.
    Min(u64),
    /// The caller supplies an ideal amount and an acceptable floor;
    /// well-formed when the first is at least the second.
    RangeFromDesiredToMin(u64, u64),
    /// The engine derived this amount.
    Calculated(u64),
}

impl Bounds {
    /// The concrete amount a bound carries, if it determines one.
    pub open spec fn spec_value(self) -> Option<u64> {
        match self {
            Bounds::Desired(v) => Some(v),
            Bounds::Calculated(v) => Some(v),
            _ => None,
        }
    }

    /// Whether a computed amount `candidate` honours the constraint `self`
    /// originally expressed: `Desired` demands equality, `Min` and a range
    /// demand the floor, a placeholder or an engine-derived value demands
    /// nothing.
    pub open spec fn spec_satisfies(self, candidate: u64) -> bool {
        match self {
            Bounds::Dummy => true,
            Bounds::Desired(v) => candidate == v,
            Bounds::Min(m) => candidate >= m,
            Bounds::RangeFromDesiredToMin(_, m) => candidate >= m,
            Bounds::Calculated(_) => true,
        }
    }

    /// A bound that settles its amount: `Desired` or `Calculated`.
    pub open spec fn spec_is_resolved(self) -> bool {
        self.spec_value() is Some
    }

    /// The concrete amount a bound carries, if it determines one.
    pub fn value(self) -> (r: Option<u64>)
        ensures
            r == self.spec_value(),
    {
        match self {
            Bounds::Desired(v) => Some(v),
            Bounds::Calculated(v) => Some(v),
            _ => None,
        }
    }

    /// Whether the computed amount `candidate` meets the boundaries that
    /// `self` expresses.
    pub fn meets_the_boundaries(self, candidate: u64) -> (r: bool)
        ensures
            r == self.spec_satisfies(candidate),
    {
        match self {
            Bounds::Dummy => true,
            Bounds::Desired(v) => candidate == v,
            Bounds::Min(m) => candidate >= m,
            Bounds::RangeFromDesiredToMin(_, m) => candidate >= m,
            Bounds::Calculated(_) => true,
        }
    }
}

} // verus!
