//! Volumes of constant density: where a ray is inside, and whether it
//! scatters before it leaves.
use vstd::prelude::*;
use crate::hit::{HitRecord, Vec2};
use crate::interval::Interval;
use crate::scalar::{Scalar, ONE_BITS};
use crate::vec3::Vec3;

verus! {

/// A medium of constant density within some boundary. `phase_function` is
/// the index of the material that scatters within it, and
/// `neg_inv_density` is minus one over the density.
#[derive(Debug, Clone, Copy, PartialEq, Eq, Structural)]
pub struct ConstantMedium {
    pub phase_function: usize,
    pub neg_inv_density: Scalar,
}

impl ConstantMedium {
    /// The stretch of the ray inside the medium that a query can see: the
    /// ray enters the boundary at `entry` and leaves it at `exit`; both are
    /// brought into `t_interval`; there is no stretch where the entry then
    /// does not lie before the exit; and a stretch that begins behind the
    /// ray's origin begins at the origin instead.
    pub open spec fn spec_span(t_interval: Interval, entry: Scalar, exit: Scalar) -> Option<
        (Scalar, Scalar),
    > {
        let first = if entry.spec_lt(t_interval.min) {
            t_interval.min
        } else {
            entry
        };
        let last = if t_interval.max.spec_lt(exit) {
            t_interval.max
        } else {
            exit
        };
        if last.spec_le(first) {
            None
        } else if first.spec_lt(Scalar { bits: 0 }) {
            Some((Scalar { bits: 0 }, last))
        } else {
            Some((first, last))
        }
    }

    /// The record of a scattering event inside a medium. The orientation of
    /// the surface has no meaning there but is defined: the normal is the
    /// unit vector along X, turned against the ray, and the hit counts as
    /// one on the front face.
    pub open spec fn spec_record(
        t: Scalar,
        position: Vec3,
        direction_x: Scalar,
        phase_function: usize,
    ) -> HitRecord {
        let zero = Scalar { bits: 0 };
        let along_x = Vec3 { x: Scalar { bits: ONE_BITS }, y: zero, z: zero };
        HitRecord {
            t,
            position,
            normal: if direction_x.spec_lt(zero) {
                along_x
            } else {
                along_x.spec_neg()
            },
            uv: Vec2 { x: zero, y: zero },
            material: Some(phase_function),
            front_face: true,
        }
    }

    /// The medium with the given density term and phase function.
    pub fn new(neg_inv_density: Scalar, phase_function: usize) -> (m: ConstantMedium)
        ensures
            m.phase_function == phase_function,
            m.neg_inv_density == neg_inv_density,
    {
        ConstantMedium { phase_function, neg_inv_density }
    }

    /// The stretch of the ray inside the medium that a query within
    /// `t_interval` can see, given where the ray enters and leaves the
    /// boundary.
    pub fn span(t_interval: &Interval, entry: Scalar, exit: Scalar) -> (r: Option<(Scalar, Scalar)>)
        ensures
            r == ConstantMedium::spec_span(*t_interval, entry, exit),
    {
        let mut first = entry;
        let mut last = exit;
        if first.lt(t_interval.min) {
            first = t_interval.min;
        }
        if last.gt(t_interval.max) {
            last = t_interval.max;
        }
        if first.ge(last) {
            return None;
        }
        if first.lt(Scalar::zero()) {
            first = Scalar::zero();
        }
        Some((first, last))
    }

    /// Whether a ray that would travel `hit_distance` before it scatters
    /// does so inside the medium: the distance does not exceed the distance
    /// that the ray covers inside the boundary.
    pub fn scatters_within(hit_distance: Scalar, distance_inside_boundary: Scalar) -> (r: bool)
        ensures
            r == !distance_inside_boundary.spec_lt(hit_distance),
    {
        !hit_distance.gt(distance_inside_boundary)
    }

    /// The record of a scattering event at parameter `t` and point
    /// `position`, for a ray whose direction has the X component
    /// `direction_x`.
    pub fn record(&self, t: Scalar, position: Vec3, direction_x: Scalar) -> (r: HitRecord)
        ensures
            r == ConstantMedium::spec_record(t, position, direction_x, self.phase_function),
    {
        let mut record = HitRecord::new();
        record.t = t;
        record.position = position;
        record.set_face_normal(direction_x, &Vec3::new(Scalar::one(), Scalar::zero(), Scalar::zero()));
        record.front_face = true;
        record.material = Some(self.phase_function);
        record
    }
}

/// A stretch inside a medium ends within the query's interval and does not
/// begin behind the origin of the ray; it begins before it ends, unless it
/// was moved up to the origin.
pub proof fn lemma_span_within(t_interval: Interval, entry: Scalar, exit: Scalar)
    requires
        !t_interval.min.spec_is_nan(),
        !t_interval.max.spec_is_nan(),
        !entry.spec_is_nan(),
        !exit.spec_is_nan(),
        ConstantMedium::spec_span(t_interval, entry, exit).is_some(),
    ensures
        ({
            let (first, last) = ConstantMedium::spec_span(t_interval, entry, exit).unwrap();
            &&& first.spec_lt(last) || first.bits == 0
            &&& (Scalar { bits: 0 }).spec_le(first)
            &&& last.spec_le(t_interval.max)
            &&& last.spec_le(exit)
        }),
{
}

} // verus!
