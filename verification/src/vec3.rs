//! Points and directions in space, as three scalars.
//!
//! Sums, products and lengths of vectors are arithmetic and are computed by
//! the caller; this module holds the operations that are exact on bit
//! patterns.
use vstd::prelude::*;
use crate::scalar::Scalar;

verus! {

/// The pattern of the gap between one and the next number above it.
pub const EPSILON_BITS: u32 = 0x3400_0000;

/// The pattern of 1e-8, below which a component counts as vanished.
pub const NEAR_ZERO_BITS: u32 = 0x322b_cc77;

/// The three coordinate axes.
#[derive(Debug, Clone, Copy, PartialEq, Eq, Structural)]
pub enum Axis {
    X,
    Y,
    Z,
}

impl Axis {
    /// The three axes in their order.
    pub fn all() -> (axes: [Axis; 3])
        ensures
            axes[0] == Axis::X,
            axes[1] == Axis::Y,
            axes[2] == Axis::Z,
    {
        [Axis::X, Axis::Y, Axis::Z]
    }

    /// The place of the axis among the three: 0, 1 or 2.
    pub fn index(self) -> (i: usize)
        ensures
            i == match self {
                Axis::X => 0usize,
                Axis::Y => 1usize,
                Axis::Z => 2usize,
            },
    {
        match self {
            Axis::X => 0,
            Axis::Y => 1,
            Axis::Z => 2,
        }
    }
}

/// A point or a direction.
#[derive(Debug, Clone, Copy, PartialEq, Eq, Structural)]
pub struct Vec3 {
    pub x: Scalar,
    pub y: Scalar,
    pub z: Scalar,
}

impl Vec3 {
    /// The component on an axis.
    pub open spec fn spec_get(self, axis: Axis) -> Scalar {
        match axis {
            Axis::X => self.x,
            Axis::Y => self.y,
            Axis::Z => self.z,
        }
    }

    /// The vector with every component negated.
    pub open spec fn spec_neg(self) -> Vec3 {
        Vec3 { x: self.x.spec_neg(), y: self.y.spec_neg(), z: self.z.spec_neg() }
    }

    /// Whether every component is smaller than 1e-8 in absolute value.
    pub open spec fn spec_near_zero(self) -> bool {
        let eps = Scalar { bits: NEAR_ZERO_BITS };
        self.x.spec_abs().spec_lt(eps) && self.y.spec_abs().spec_lt(eps) && self.z.spec_abs().spec_lt(
            eps,
        )
    }

    /// The vector of length one in the direction of this one, given the
    /// square of its length and the vector divided by its length: a vector
    /// whose squared length is not positive has no direction and becomes the
    /// zero vector.
    pub open spec fn spec_normalize(self, length_squared: Scalar, quotient: Vec3) -> Vec3 {
        if (Scalar { bits: 0 }).spec_lt(length_squared) {
            quotient
        } else {
            Vec3 { x: Scalar { bits: 0 }, y: Scalar { bits: 0 }, z: Scalar { bits: 0 } }
        }
    }

    /// The vector with the given components.
    pub fn new(x: Scalar, y: Scalar, z: Scalar) -> (v: Vec3)
        ensures
            v.x == x,
            v.y == y,
            v.z == z,
    {
        Vec3 { x, y, z }
    }

    /// The vector whose components are all positive zero.
    pub fn zero() -> (v: Vec3)
        ensures
            v.x.bits == 0,
            v.y.bits == 0,
            v.z.bits == 0,
    {
        Vec3 { x: Scalar::zero(), y: Scalar::zero(), z: Scalar::zero() }
    }

    /// The origin of space: the zero vector.
    pub fn origin() -> (v: Vec3)
        ensures
            v.x.bits == 0,
            v.y.bits == 0,
            v.z.bits == 0,
    {
        Vec3::zero()
    }

    /// The component on an axis.
    #[verifier::when_used_as_spec(spec_get)]
    pub fn get(self, axis: Axis) -> (s: Scalar)
        ensures
            s == self.spec_get(axis),
    {
        match axis {
            Axis::X => self.x,
            Axis::Y => self.y,
            Axis::Z => self.z,
        }
    }

    /// The vector of length one in the direction of this one, or the zero
    /// vector where this one has no length. `length_squared` is the square
    /// of the length and `quotient` the vector divided by its length.
    pub fn normalize(self, length_squared: Scalar, quotient: Vec3) -> (v: Vec3)
        ensures
            v == self.spec_normalize(length_squared, quotient),
    {
        if length_squared.gt(Scalar::zero()) {
            quotient
        } else {
            Vec3::zero()
        }
    }

    /// Whether a point drawn from the cube about the origin is kept as a
    /// random point of the unit ball: its squared length exceeds the gap
    /// above one and does not exceed one.
    pub fn in_unit_ball(length_squared: Scalar) -> (r: bool)
        ensures
            r == ((Scalar { bits: EPSILON_BITS }).spec_lt(length_squared) && length_squared.spec_le(
                Scalar { bits: crate::scalar::ONE_BITS },
            )),
    {
        length_squared.gt(Scalar::from_bits(EPSILON_BITS)) && length_squared.le(Scalar::one())
    }

    /// Whether a point drawn from the square about the origin is kept as a
    /// random point of the unit disk: its squared length is below one.
    pub fn in_unit_disk(length_squared: Scalar) -> (r: bool)
        ensures
            r == length_squared.spec_lt(Scalar { bits: crate::scalar::ONE_BITS }),
    {
        length_squared.lt(Scalar::one())
    }

    /// The opposite vector.
    #[verifier::when_used_as_spec(spec_neg)]
    pub fn neg(self) -> (v: Vec3)
        ensures
            v == self.spec_neg(),
    {
        Vec3 { x: self.x.neg(), y: self.y.neg(), z: self.z.neg() }
    }

    /// Whether the vector has vanished: every component is below 1e-8 in
    /// absolute value.
    #[verifier::when_used_as_spec(spec_near_zero)]
    pub fn near_zero(self) -> (r: bool)
        ensures
            r == self.spec_near_zero(),
    {
        let eps = Scalar::from_bits(NEAR_ZERO_BITS);
        self.x.abs().lt(eps) && self.y.abs().lt(eps) && self.z.abs().lt(eps)
    }
}

} // verus!
