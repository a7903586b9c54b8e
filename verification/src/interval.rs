//! Closed intervals on the real line.
use vstd::prelude::*;
use crate::scalar::{Scalar, MAX_FINITE_BITS, MIN_FINITE_BITS};

verus! {

/// The interval `[min, max]`.
///
/// An interval whose `min` exceeds its `max` holds no point: that is how
/// emptiness is represented, and [`Interval::empty`] is the canonical such
/// value. [`Interval::universe`] spans every finite number.
#[derive(Debug, Clone, Copy, PartialEq, Eq, Structural)]
pub struct Interval {
    pub min: Scalar,
    pub max: Scalar,
}

impl Interval {
    /// Whether `value` lies in the interval, bounds included.
    pub open spec fn spec_contains(&self, value: Scalar) -> bool {
        self.min.spec_le(value) && value.spec_le(self.max)
    }

    /// Whether `value` lies strictly inside the interval.
    pub open spec fn spec_surrounds(&self, value: Scalar) -> bool {
        self.min.spec_lt(value) && value.spec_lt(self.max)
    }

    /// The smallest interval that covers both: the smaller of the two lower
    /// bounds and the larger of the two upper bounds.
    pub open spec fn spec_combine(a: Interval, b: Interval) -> Interval {
        Interval { min: a.min.spec_min(b.min), max: a.max.spec_max(b.max) }
    }

    /// `value` moved to the nearer bound when it lies outside.
    pub open spec fn spec_clamp(&self, value: Scalar) -> Scalar {
        if value.spec_lt(self.min) {
            self.min
        } else if self.max.spec_lt(value) {
            self.max
        } else {
            value
        }
    }

    /// The canonical empty interval: from the largest finite number down to
    /// the most negative one.
    pub open spec fn spec_empty() -> Interval {
        Interval { min: Scalar { bits: MAX_FINITE_BITS }, max: Scalar { bits: MIN_FINITE_BITS } }
    }

    /// The interval of all finite numbers.
    pub open spec fn spec_universe() -> Interval {
        Interval { min: Scalar { bits: MIN_FINITE_BITS }, max: Scalar { bits: MAX_FINITE_BITS } }
    }

    /// Whether both bounds are finite numbers.
    pub open spec fn is_finite(self) -> bool {
        self.min.magnitude() <= MAX_FINITE_BITS && self.max.magnitude() <= MAX_FINITE_BITS
    }

    /// The interval with the given bounds.
    pub fn new(min: Scalar, max: Scalar) -> (r: Interval)
        ensures
            r.min == min,
            r.max == max,
    {
        Interval { min, max }
    }

    /// The smallest interval that covers `a` and `b`.
    pub fn combine(a: &Interval, b: &Interval) -> (r: Interval)
        ensures
            r == Interval::spec_combine(*a, *b),
    {
        Interval { min: a.min.min(b.min), max: a.max.max(b.max) }
    }

    /// The canonical empty interval.
    #[verifier::when_used_as_spec(spec_empty)]
    pub fn empty() -> (r: Interval)
        ensures
            r == Interval::spec_empty(),
    {
        Interval { min: Scalar::max_finite(), max: Scalar::min_finite() }
    }

    /// The interval of all finite numbers.
    #[verifier::when_used_as_spec(spec_universe)]
    pub fn universe() -> (r: Interval)
        ensures
            r == Interval::spec_universe(),
    {
        Interval { min: Scalar::min_finite(), max: Scalar::max_finite() }
    }

    /// Whether `value` lies in the interval, bounds included.
    #[verifier::when_used_as_spec(spec_contains)]
    pub fn contains(&self, value: Scalar) -> (r: bool)
        ensures
            r == self.spec_contains(value),
    {
        self.min.le(value) && value.le(self.max)
    }

    /// Whether `value` lies strictly inside the interval.
    #[verifier::when_used_as_spec(spec_surrounds)]
    pub fn surrounds(&self, value: Scalar) -> (r: bool)
        ensures
            r == self.spec_surrounds(value),
    {
        self.min.lt(value) && value.lt(self.max)
    }

    /// `value` if it lies between the bounds, else the bound it lies beyond.
    #[verifier::when_used_as_spec(spec_clamp)]
    pub fn clamp(&self, value: Scalar) -> (r: Scalar)
        ensures
            r == self.spec_clamp(value),
    {
        if value.lt(self.min) {
            self.min
        } else if value.gt(self.max) {
            self.max
        } else {
            value
        }
    }
}

impl Default for Interval {
    /// The interval that holds zero alone.
    fn default() -> (r: Interval)
        ensures
            r.min.bits == 0,
            r.max.bits == 0,
    {
        Interval { min: Scalar::zero(), max: Scalar::zero() }
    }
}

/// Every point of `a` and every point of `b` is a point of their
/// combination.
pub proof fn lemma_combine_covers(a: Interval, b: Interval, value: Scalar)
    ensures
        a.spec_contains(value) ==> Interval::spec_combine(a, b).spec_contains(value),
        b.spec_contains(value) ==> Interval::spec_combine(a, b).spec_contains(value),
{
}

/// The combination is the tightest cover: an interval that contains the
/// bounds of two non-empty intervals contains every point of their
/// combination.
pub proof fn lemma_combine_tightest(a: Interval, b: Interval, c: Interval, value: Scalar)
    requires
        a.min.spec_le(a.max),
        b.min.spec_le(b.max),
        c.spec_contains(a.min),
        c.spec_contains(a.max),
        c.spec_contains(b.min),
        c.spec_contains(b.max),
        Interval::spec_combine(a, b).spec_contains(value),
    ensures
        c.spec_contains(value),
{
}

/// The empty interval holds no point and is neutral for combination with
/// any interval of finite bounds; combination does not depend on the order
/// of its arguments, up to the sign of a zero bound.
pub proof fn lemma_combine_empty(a: Interval, b: Interval, value: Scalar)
    ensures
        !Interval::spec_empty().spec_contains(value),
        a.is_finite() ==> Interval::spec_combine(Interval::spec_empty(), a) == a,
        a.is_finite() ==> Interval::spec_combine(a, Interval::spec_empty()) == a,
        Interval::spec_combine(a, b).spec_contains(value) == Interval::spec_combine(
            b,
            a,
        ).spec_contains(value),
{
}

/// A clamped number lies in the interval whenever the interval is not
/// empty, and a number in the interval is left as it is.
pub proof fn lemma_clamp(i: Interval, value: Scalar)
    requires
        !value.spec_is_nan(),
    ensures
        i.min.spec_le(i.max) ==> i.spec_contains(i.spec_clamp(value)),
        i.spec_contains(value) ==> i.spec_clamp(value) == value,
{
}

} // verus!
