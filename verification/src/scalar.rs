//! Real numbers as the renderer stores and compares them.
//!
//! A [`Scalar`] is an IEEE 754 single-precision number kept as its 32-bit
//! pattern. This module orders and selects such numbers exactly as the
//! standard prescribes; it never rounds, so it never adds, multiplies or
//! divides. Whoever does the arithmetic hands the results over as bit
//! patterns and gets bit patterns back.
use vstd::prelude::*;

verus! {

/// The sign bit of a pattern.
pub const SIGN_BIT: u32 = 0x8000_0000;

/// The pattern of positive infinity; every larger magnitude is not a number.
pub const INFINITY_BITS: u32 = 0x7f80_0000;

/// The pattern of the largest finite number.
pub const MAX_FINITE_BITS: u32 = 0x7f7f_ffff;

/// The pattern of the most negative finite number.
pub const MIN_FINITE_BITS: u32 = 0xff7f_ffff;

/// The pattern of one.
pub const ONE_BITS: u32 = 0x3f80_0000;

/// A single-precision number, held by its bit pattern.
///
/// Two scalars are `==` when their patterns are equal. The numeric
/// comparisons are [`Scalar::lt`], [`Scalar::le`] and [`Scalar::same`]: they
/// treat the two zeros as one number and are false whenever an operand is
/// not a number.
#[derive(Debug, Clone, Copy, PartialEq, Eq, Structural)]
pub struct Scalar {
    pub bits: u32,
}

impl Scalar {
    /// The pattern without its sign bit.
    pub open spec fn magnitude(self) -> int {
        if self.bits >= SIGN_BIT {
            self.bits - SIGN_BIT
        } else {
            self.bits as int
        }
    }

    /// Whether the sign bit is set.
    pub open spec fn is_negative(self) -> bool {
        self.bits >= SIGN_BIT
    }

    /// Whether the pattern encodes no number.
    pub open spec fn spec_is_nan(self) -> bool {
        self.magnitude() > INFINITY_BITS
    }

    /// An integer that orders the numbers as their values do: for patterns
    /// `a` and `b` of numbers, `a` is less than `b` exactly when
    /// `a.spec_key() < b.spec_key()`. Both zeros have key 0.
    pub open spec fn spec_key(self) -> int {
        if self.is_negative() {
            -self.magnitude()
        } else {
            self.magnitude()
        }
    }

    /// Numeric `<`.
    pub open spec fn spec_lt(self, other: Scalar) -> bool {
        !self.spec_is_nan() && !other.spec_is_nan() && self.spec_key() < other.spec_key()
    }

    /// Numeric `<=`.
    pub open spec fn spec_le(self, other: Scalar) -> bool {
        !self.spec_is_nan() && !other.spec_is_nan() && self.spec_key() <= other.spec_key()
    }

    /// Numeric `==`.
    pub open spec fn spec_same(self, other: Scalar) -> bool {
        !self.spec_is_nan() && !other.spec_is_nan() && self.spec_key() == other.spec_key()
    }

    /// The smaller of two numbers; an operand that is not a number yields the
    /// other one, and of two equal numbers the first is taken.
    pub open spec fn spec_min(self, other: Scalar) -> Scalar {
        if self.spec_is_nan() {
            other
        } else if other.spec_lt(self) {
            other
        } else {
            self
        }
    }

    /// The larger of two numbers; an operand that is not a number yields the
    /// other one, and of two equal numbers the first is taken.
    pub open spec fn spec_max(self, other: Scalar) -> Scalar {
        if self.spec_is_nan() {
            other
        } else if self.spec_lt(other) {
            other
        } else {
            self
        }
    }

    /// The pattern with its sign bit flipped.
    pub open spec fn spec_neg(self) -> Scalar {
        if self.bits >= SIGN_BIT {
            Scalar { bits: (self.bits - SIGN_BIT) as u32 }
        } else {
            Scalar { bits: (self.bits + SIGN_BIT) as u32 }
        }
    }

    /// The pattern with its sign bit cleared.
    pub open spec fn spec_abs(self) -> Scalar {
        if self.bits >= SIGN_BIT {
            Scalar { bits: (self.bits - SIGN_BIT) as u32 }
        } else {
            self
        }
    }

    /// The scalar with the given pattern.
    pub fn from_bits(bits: u32) -> (s: Scalar)
        ensures
            s.bits == bits,
    {
        Scalar { bits }
    }

    /// The pattern of this scalar.
    pub fn to_bits(self) -> (bits: u32)
        ensures
            bits == self.bits,
    {
        self.bits
    }

    /// Positive zero.
    pub fn zero() -> (s: Scalar)
        ensures
            s.bits == 0,
            s.spec_key() == 0,
            !s.spec_is_nan(),
    {
        Scalar { bits: 0 }
    }

    /// One.
    pub fn one() -> (s: Scalar)
        ensures
            s.bits == ONE_BITS,
            !s.spec_is_nan(),
    {
        Scalar { bits: ONE_BITS }
    }

    /// The largest finite number.
    pub fn max_finite() -> (s: Scalar)
        ensures
            s.bits == MAX_FINITE_BITS,
            !s.spec_is_nan(),
    {
        Scalar { bits: MAX_FINITE_BITS }
    }

    /// The most negative finite number.
    pub fn min_finite() -> (s: Scalar)
        ensures
            s.bits == MIN_FINITE_BITS,
            !s.spec_is_nan(),
    {
        Scalar { bits: MIN_FINITE_BITS }
    }

    /// Whether the pattern encodes no number.
    #[verifier::when_used_as_spec(spec_is_nan)]
    pub fn is_nan(self) -> (r: bool)
        ensures
            r == self.spec_is_nan(),
    {
        if self.bits >= SIGN_BIT {
            self.bits - SIGN_BIT > INFINITY_BITS
        } else {
            self.bits > INFINITY_BITS
        }
    }

    /// The ordering integer of [`Scalar::spec_key`].
    pub fn key(self) -> (k: i64)
        ensures
            k == self.spec_key(),
    {
        if self.bits >= SIGN_BIT {
            let m: u32 = self.bits - SIGN_BIT;
            0 - (m as i64)
        } else {
            self.bits as i64
        }
    }

    /// Numeric `<`: false when either operand is not a number.
    #[verifier::when_used_as_spec(spec_lt)]
    pub fn lt(self, other: Scalar) -> (r: bool)
        ensures
            r == self.spec_lt(other),
    {
        !self.is_nan() && !other.is_nan() && self.key() < other.key()
    }

    /// Numeric `<=`: false when either operand is not a number.
    #[verifier::when_used_as_spec(spec_le)]
    pub fn le(self, other: Scalar) -> (r: bool)
        ensures
            r == self.spec_le(other),
    {
        !self.is_nan() && !other.is_nan() && self.key() <= other.key()
    }

    /// Numeric `>`: false when either operand is not a number.
    pub fn gt(self, other: Scalar) -> (r: bool)
        ensures
            r == other.spec_lt(self),
    {
        other.lt(self)
    }

    /// Numeric `>=`: false when either operand is not a number.
    pub fn ge(self, other: Scalar) -> (r: bool)
        ensures
            r == other.spec_le(self),
    {
        other.le(self)
    }

    /// Numeric `==`: the two zeros are the same number, and nothing is the
    /// same as a pattern that is not a number.
    #[verifier::when_used_as_spec(spec_same)]
    pub fn same(self, other: Scalar) -> (r: bool)
        ensures
            r == self.spec_same(other),
    {
        !self.is_nan() && !other.is_nan() && self.key() == other.key()
    }

    /// The smaller of two numbers, as [`Scalar::spec_min`] defines it.
    #[verifier::when_used_as_spec(spec_min)]
    pub fn min(self, other: Scalar) -> (r: Scalar)
        ensures
            r == self.spec_min(other),
    {
        if self.is_nan() {
            other
        } else if other.lt(self) {
            other
        } else {
            self
        }
    }

    /// The larger of two numbers, as [`Scalar::spec_max`] defines it.
    #[verifier::when_used_as_spec(spec_max)]
    pub fn max(self, other: Scalar) -> (r: Scalar)
        ensures
            r == self.spec_max(other),
    {
        if self.is_nan() {
            other
        } else if self.lt(other) {
            other
        } else {
            self
        }
    }

    /// The negated number: the same pattern with the sign bit flipped.
    #[verifier::when_used_as_spec(spec_neg)]
    pub fn neg(self) -> (r: Scalar)
        ensures
            r == self.spec_neg(),
            r.spec_key() == -self.spec_key(),
            r.spec_is_nan() == self.spec_is_nan(),
    {
        if self.bits >= SIGN_BIT {
            Scalar { bits: self.bits - SIGN_BIT }
        } else {
            Scalar { bits: self.bits + SIGN_BIT }
        }
    }

    /// The absolute value: the same pattern with the sign bit cleared.
    #[verifier::when_used_as_spec(spec_abs)]
    pub fn abs(self) -> (r: Scalar)
        ensures
            r == self.spec_abs(),
            r.spec_key() == if self.spec_key() < 0 { -self.spec_key() } else { self.spec_key() },
            r.spec_is_nan() == self.spec_is_nan(),
    {
        if self.bits >= SIGN_BIT {
            Scalar { bits: self.bits - SIGN_BIT }
        } else {
            self
        }
    }
}

} // verus!
