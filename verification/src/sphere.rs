//! Spheres: which root of the intersection equation is the hit.
use vstd::prelude::*;
use crate::aabb::AABB;
use crate::hit::{HitRecord, Vec2};
use crate::search::answers_nearest;
use crate::interval::Interval;
use crate::scalar::Scalar;
use crate::vec3::Vec3;

verus! {

/// A sphere with its material, as an index into the scene's materials, and
/// its bounding box.
#[derive(Debug, Clone, Copy, PartialEq, Eq, Structural)]
pub struct Sphere {
    pub center: Vec3,
    pub radius: Scalar,
    pub material: usize,
    pub aabb: AABB,
}

impl Sphere {
    /// The hit among the two roots of the intersection equation: the smaller
    /// root if it lies strictly inside the interval, else the larger root if
    /// that does; no hit where the discriminant is negative or neither root
    /// lies inside.
    pub open spec fn spec_pick_root(
        t_interval: Interval,
        discriminant: Scalar,
        near: Scalar,
        far: Scalar,
    ) -> Option<Scalar> {
        if discriminant.spec_lt(Scalar { bits: 0 }) {
            None
        } else if t_interval.spec_surrounds(near) {
            Some(near)
        } else if t_interval.spec_surrounds(far) {
            Some(far)
        } else {
            None
        }
    }

    /// The sphere around `center`, bounded by the padded box between the two
    /// corners `low = center - radius` and `high = center + radius`. `sizes`
    /// holds the extents of [`AABB::span`] of the corners, and `widened` that
    /// box grown by 1e-4 on every axis.
    pub fn new(
        center: Vec3,
        radius: Scalar,
        material: usize,
        low: Vec3,
        high: Vec3,
        sizes: Vec3,
        widened: &AABB,
    ) -> (s: Sphere)
        ensures
            s.center == center,
            s.radius == radius,
            s.material == material,
            s.aabb == AABB::spec_construct(low, high, sizes, *widened),
    {
        Sphere { center, radius, material, aabb: AABB::construct(low, high, sizes, widened) }
    }

    /// The record of a hit on the sphere at parameter `t` and point
    /// `position`: the outward normal turned against the ray, the sphere's
    /// material, and the surface coordinate `uv`. `direction_dot_normal` is
    /// the dot product of the ray's direction and the outward normal; where
    /// it is negative the ray has come from outside.
    pub open spec fn spec_record(
        self,
        t: Scalar,
        position: Vec3,
        outward_normal: Vec3,
        direction_dot_normal: Scalar,
        uv: Vec2,
    ) -> HitRecord {
        let front_face = direction_dot_normal.spec_lt(Scalar { bits: 0 });
        HitRecord {
            t,
            position,
            normal: if front_face {
                outward_normal
            } else {
                outward_normal.spec_neg()
            },
            uv,
            material: Some(self.material),
            front_face,
        }
    }

    /// The record of a hit on the sphere, as [`Sphere::spec_record`] defines
    /// it.
    pub fn record(
        &self,
        t: Scalar,
        position: Vec3,
        outward_normal: Vec3,
        direction_dot_normal: Scalar,
        uv: Vec2,
    ) -> (r: HitRecord)
        ensures
            r == self.spec_record(t, position, outward_normal, direction_dot_normal, uv),
    {
        let mut record = HitRecord::new();
        record.t = t;
        record.position = position;
        record.set_face_normal(direction_dot_normal, &outward_normal);
        record.material = Some(self.material);
        record.uv = uv;
        record
    }

    /// The bounding box, as it is kept.
    pub fn get_aabb(&self) -> (r: AABB)
        ensures
            r == self.aabb,
    {
        self.aabb
    }

    /// Whether the ray meets the sphere at all: the discriminant of the
    /// intersection equation is not negative.
    pub fn has_root(discriminant: Scalar) -> (r: bool)
        ensures
            r == !discriminant.spec_lt(Scalar { bits: 0 }),
    {
        !discriminant.lt(Scalar::zero())
    }

    /// The ray parameter of the hit, given the discriminant and the two
    /// roots `near <= far` of the intersection equation.
    pub fn pick_root(t_interval: &Interval, discriminant: Scalar, near: Scalar, far: Scalar) -> (r:
        Option<Scalar>)
        ensures
            r == Sphere::spec_pick_root(*t_interval, discriminant, near, far),
    {
        if discriminant.lt(Scalar::zero()) {
            None
        } else if t_interval.surrounds(near) {
            Some(near)
        } else if t_interval.surrounds(far) {
            Some(far)
        } else {
            None
        }
    }
}

/// A hit lies strictly inside the interval and is one of the two roots, and
/// where the smaller root lies inside, it is the hit.
pub proof fn lemma_pick_root(t_interval: Interval, discriminant: Scalar, near: Scalar, far: Scalar)
    ensures
        match Sphere::spec_pick_root(t_interval, discriminant, near, far) {
            Some(t) => t_interval.spec_surrounds(t) && (t == near || t == far),
            None => discriminant.spec_lt(Scalar { bits: 0 }) || (!t_interval.spec_surrounds(near)
                && !t_interval.spec_surrounds(far)),
        },
        !discriminant.spec_lt(Scalar { bits: 0 }) && t_interval.spec_surrounds(near)
            ==> Sphere::spec_pick_root(t_interval, discriminant, near, far) == Some(near),
{
}

/// Narrowing the interval from above keeps the hit of a sphere or loses it,
/// and keeps it whenever the hit lies strictly inside the narrower interval.
pub proof fn lemma_pick_root_narrowing(
    t_interval: Interval,
    narrower: Scalar,
    discriminant: Scalar,
    near: Scalar,
    far: Scalar,
)
    requires
        narrower.spec_le(t_interval.max),
        near.spec_le(far),
    ensures
        ({
            let wide = Sphere::spec_pick_root(t_interval, discriminant, near, far);
            let narrow = Sphere::spec_pick_root(
                Interval { min: t_interval.min, max: narrower },
                discriminant,
                near,
                far,
            );
            match wide {
                Some(t) => (narrow == wide || narrow.is_none()) && (t.spec_lt(narrower) ==> narrow
                    == wide),
                None => narrow.is_none(),
            }
        }),
{
}

/// Whether the intersection test of primitive `p` is that of a sphere with
/// the given discriminant and roots: on every interval from `min` it
/// reports the root that [`Sphere::spec_pick_root`] selects, with a record
/// at that root.
pub open spec fn is_sphere_test_with(
    test: spec_fn(int, Interval) -> Option<HitRecord>,
    p: int,
    min: Scalar,
    discriminant: Scalar,
    near: Scalar,
    far: Scalar,
    record_at: spec_fn(Scalar) -> HitRecord,
) -> bool {
    &&& near.spec_is_nan() || far.spec_is_nan() || near.spec_le(far)
    &&& forall|t: Scalar| (#[trigger] record_at(t)).t == t
    &&& forall|max: Scalar| #[trigger]
        test(p, Interval { min, max }) == match Sphere::spec_pick_root(
            Interval { min, max },
            discriminant,
            near,
            far,
        ) {
            Some(t) => Some(record_at(t)),
            None => None,
        }
}

/// Whether the intersection test of primitive `p` is that of some sphere for
/// one ray.
pub open spec fn is_sphere_test(
    test: spec_fn(int, Interval) -> Option<HitRecord>,
    p: int,
    min: Scalar,
) -> bool {
    exists|discriminant: Scalar, near: Scalar, far: Scalar, record_at: spec_fn(Scalar) -> HitRecord|
     #[trigger]
        is_sphere_test_with(test, p, min, discriminant, near, far, record_at)
}

/// A sphere answers like a surface. Where the intersection test of
/// primitive `p` reports, on every interval from `min`, the root that
/// [`Sphere::spec_pick_root`] selects among the same two roots, with a
/// record at that root, the test meets what the nearest-hit search asks of
/// a primitive.
pub proof fn lemma_sphere_answers_nearest(
    test: spec_fn(int, Interval) -> Option<HitRecord>,
    p: int,
    min: Scalar,
    discriminant: Scalar,
    near: Scalar,
    far: Scalar,
    record_at: spec_fn(Scalar) -> HitRecord,
)
    requires
        near.spec_is_nan() || far.spec_is_nan() || near.spec_le(far),
        forall|t: Scalar| (#[trigger] record_at(t)).t == t,
        forall|max: Scalar| #[trigger]
            test(p, Interval { min, max }) == match Sphere::spec_pick_root(
                Interval { min, max },
                discriminant,
                near,
                far,
            ) {
                Some(t) => Some(record_at(t)),
                None => None,
            },
    ensures
        answers_nearest(test, p, min),
{
    assert forall|max: Scalar, narrower: Scalar|
        #![trigger test(p, Interval { min, max }), test(p, Interval { min, max: narrower })]
        narrower.spec_le(max) implies {
        let wide = test(p, Interval { min, max });
        let narrow = test(p, Interval { min, max: narrower });
        match wide {
            Some(h) => h.t.spec_le(max) && (narrow == wide || narrow.is_none()) && (h.t.spec_lt(
                narrower,
            ) ==> narrow == wide),
            None => narrow.is_none(),
        }
    } by {
        let w = Sphere::spec_pick_root(Interval { min, max }, discriminant, near, far);
        let n = Sphere::spec_pick_root(Interval { min, max: narrower }, discriminant, near, far);
        if w.is_some() {
            assert(record_at(w.unwrap()).t == w.unwrap());
        }
        if n.is_some() {
            assert(record_at(n.unwrap()).t == n.unwrap());
        }
    }
}

/// A ray that meets a sphere from outside hits its near side on the front
/// face. Where the discriminant is not negative, the smaller root lies
/// strictly inside the interval and the ray runs against the outward normal
/// there, the hit is at the smaller root, on the front face, and its normal
/// is the outward normal, against which the ray runs.
pub proof fn lemma_sphere_near_side(
    sphere: Sphere,
    t_interval: Interval,
    discriminant: Scalar,
    near: Scalar,
    far: Scalar,
    position: Vec3,
    outward_normal: Vec3,
    direction_dot_normal: Scalar,
    uv: Vec2,
)
    requires
        !discriminant.spec_lt(Scalar { bits: 0 }),
        t_interval.spec_surrounds(near),
        direction_dot_normal.spec_lt(Scalar { bits: 0 }),
    ensures
        Sphere::spec_pick_root(t_interval, discriminant, near, far) == Some(near),
        sphere.spec_record(near, position, outward_normal, direction_dot_normal, uv).front_face,
        sphere.spec_record(near, position, outward_normal, direction_dot_normal, uv).normal
            == outward_normal,
        sphere.spec_record(near, position, outward_normal, direction_dot_normal, uv).t == near,
{
}

} // verus!
