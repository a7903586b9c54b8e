//! Rays.
use vstd::prelude::*;
use crate::scalar::Scalar;
use crate::vec3::Vec3;

verus! {

/// A ray from `origin` along `direction`, which is held at length one.
#[derive(Debug, Clone, Copy, PartialEq, Eq, Structural)]
pub struct Ray {
    pub origin: Vec3,
    pub direction: Vec3,
}

impl Ray {
    /// The ray from `origin` in the direction of `direction`, given the
    /// square of the length of `direction` and `direction` divided by its
    /// length. A direction without length stays the zero vector.
    pub fn new(origin: Vec3, direction: Vec3, length_squared: Scalar, quotient: Vec3) -> (r: Ray)
        ensures
            r.origin == origin,
            r.direction == direction.spec_normalize(length_squared, quotient),
    {
        Ray { origin, direction: direction.normalize(length_squared, quotient) }
    }
}

impl Default for Ray {
    /// The ray that starts at the origin of space and has no direction.
    fn default() -> (r: Ray)
        ensures
            r.origin.x.bits == 0 && r.origin.y.bits == 0 && r.origin.z.bits == 0,
            r.direction.x.bits == 0 && r.direction.y.bits == 0 && r.direction.z.bits == 0,
    {
        Ray { origin: Vec3::origin(), direction: Vec3::origin() }
    }
}

} // verus!
