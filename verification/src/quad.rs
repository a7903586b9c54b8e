//! Quadrilaterals: when a ray misses the plane, and when a point of the
//! plane lies on the quad.
use vstd::prelude::*;
use crate::aabb::AABB;
use crate::hit::{HitRecord, Vec2};
use crate::interval::Interval;
use crate::search::answers_nearest;
use crate::scalar::Scalar;
use crate::vec3::Vec3;

verus! {

/// The pattern of 1e-6: below this, in absolute value, the ray counts as
/// parallel to the plane.
pub const PARALLEL_BITS: u32 = 0x3586_37bd;

/// A parallelogram with corner `q` and edges `u` and `v`, in the plane of
/// points `p` with `normal . p = d`; `w` is the normal scaled for the
/// planar coordinates.
#[derive(Debug, Clone, Copy, PartialEq, Eq, Structural)]
pub struct Quad {
    pub q: Vec3,
    pub u: Vec3,
    pub v: Vec3,
    pub normal: Vec3,
    pub d: Scalar,
    pub w: Vec3,
    pub material: usize,
    pub aabb: AABB,
    pub area: Scalar,
}

impl Quad {
    /// Whether planar coordinates lie on the quad: both in `[0, 1]`, the
    /// bounds included.
    pub open spec fn spec_is_interior(alpha: Scalar, beta: Scalar) -> bool {
        let zero = Scalar { bits: 0 };
        let one = Scalar { bits: crate::scalar::ONE_BITS };
        zero.spec_le(alpha) && alpha.spec_le(one) && zero.spec_le(beta) && beta.spec_le(one)
    }

    /// The hit of a ray on the quad, given what the arithmetic of the ray
    /// yields: `denom`, the dot product of the normal and the ray's direction;
    /// `t`, the parameter at which the ray meets the plane; `position`, the
    /// point there; and `alpha` and `beta`, its planar coordinates. The ray
    /// misses if it runs parallel to the plane, if the interval does not
    /// contain `t`, or if the point lies off the quad. A hit has the planar
    /// coordinates for its surface coordinate, the quad's material, and the
    /// quad's normal turned against the ray.
    pub open spec fn spec_hit(
        self,
        t_interval: Interval,
        denom: Scalar,
        t: Scalar,
        position: Vec3,
        alpha: Scalar,
        beta: Scalar,
    ) -> Option<HitRecord> {
        if denom.spec_abs().spec_lt(Scalar { bits: PARALLEL_BITS }) {
            None
        } else if !t_interval.spec_contains(t) {
            None
        } else if !Quad::spec_is_interior(alpha, beta) {
            None
        } else {
            let front_face = denom.spec_lt(Scalar { bits: 0 });
            Some(
                HitRecord {
                    t,
                    position,
                    normal: if front_face {
                        self.normal
                    } else {
                        self.normal.spec_neg()
                    },
                    uv: Vec2 { x: alpha, y: beta },
                    material: Some(self.material),
                    front_face,
                },
            )
        }
    }

    /// The hit of a ray on the quad within `t_interval`, as
    /// [`Quad::spec_hit`] defines it.
    pub fn hit(
        &self,
        t_interval: &Interval,
        denom: Scalar,
        t: Scalar,
        position: Vec3,
        alpha: Scalar,
        beta: Scalar,
    ) -> (r: Option<HitRecord>)
        ensures
            r == self.spec_hit(*t_interval, denom, t, position, alpha, beta),
            r.is_some() <==> !denom.spec_abs().spec_lt(Scalar { bits: PARALLEL_BITS })
                && t_interval.spec_contains(t) && Quad::spec_is_interior(alpha, beta),
    {
        if Quad::is_parallel(denom) {
            return None;
        }
        if !t_interval.contains(t) {
            return None;
        }
        let mut record = HitRecord::new();
        if !Quad::is_interior(alpha, beta, &mut record) {
            return None;
        }
        record.t = t;
        record.position = position;
        record.material = Some(self.material);
        record.set_face_normal(denom, &self.normal);
        Some(record)
    }

    /// Whether a ray runs so flat to the plane that it counts as missing it:
    /// the dot product of the normal and the ray's direction is below 1e-6
    /// in absolute value.
    pub fn is_parallel(denom: Scalar) -> (r: bool)
        ensures
            r == denom.spec_abs().spec_lt(Scalar { bits: PARALLEL_BITS }),
    {
        denom.abs().lt(Scalar::from_bits(PARALLEL_BITS))
    }

    /// Whether the planar coordinates `(alpha, beta)` of a point lie on the
    /// quad. If they do, they become the surface coordinate of the record;
    /// if not, the record is left as it is.
    pub fn is_interior(alpha: Scalar, beta: Scalar, record: &mut HitRecord) -> (r: bool)
        ensures
            r == Quad::spec_is_interior(alpha, beta),
            r ==> *final(record) == (HitRecord { uv: Vec2 { x: alpha, y: beta }, ..*old(record) }),
            !r ==> *final(record) == *old(record),
    {
        let interval = crate::interval::Interval::new(Scalar::zero(), Scalar::one());
        if !interval.contains(alpha) || !interval.contains(beta) {
            return false;
        }
        record.uv = Vec2::new(alpha, beta);
        true
    }

    /// The bounding box, as it is kept.
    pub fn get_aabb(&self) -> (r: AABB)
        ensures
            r == self.aabb,
    {
        self.aabb
    }

    /// The smallest corner of the box that holds the four given points:
    /// component by component the minimum.
    pub open spec fn spec_span_low(c0: Vec3, c1: Vec3, c2: Vec3, c3: Vec3) -> Vec3 {
        Vec3 {
            x: c0.x.spec_min(c0.x).spec_min(c1.x).spec_min(c2.x).spec_min(c3.x),
            y: c0.y.spec_min(c0.y).spec_min(c1.y).spec_min(c2.y).spec_min(c3.y),
            z: c0.z.spec_min(c0.z).spec_min(c1.z).spec_min(c2.z).spec_min(c3.z),
        }
    }

    /// The largest corner of the box that holds the four given points:
    /// component by component the maximum.
    pub open spec fn spec_span_high(c0: Vec3, c1: Vec3, c2: Vec3, c3: Vec3) -> Vec3 {
        Vec3 {
            x: c0.x.spec_max(c0.x).spec_max(c1.x).spec_max(c2.x).spec_max(c3.x),
            y: c0.y.spec_max(c0.y).spec_max(c1.y).spec_max(c2.y).spec_max(c3.y),
            z: c0.z.spec_max(c0.z).spec_max(c1.z).spec_max(c2.z).spec_max(c3.z),
        }
    }

    /// The box between the smallest and the largest coordinates of the four
    /// corners of a quad, before it is padded: the box whose extents
    /// [`Quad::compute_aabb`] asks for.
    pub fn span(c0: Vec3, c1: Vec3, c2: Vec3, c3: Vec3) -> (r: AABB)
        ensures
            r == AABB::spec_span(
                Quad::spec_span_low(c0, c1, c2, c3),
                Quad::spec_span_high(c0, c1, c2, c3),
            ),
    {
        let low = Vec3 {
            x: c0.x.min(c0.x).min(c1.x).min(c2.x).min(c3.x),
            y: c0.y.min(c0.y).min(c1.y).min(c2.y).min(c3.y),
            z: c0.z.min(c0.z).min(c1.z).min(c2.z).min(c3.z),
        };
        let high = Vec3 {
            x: c0.x.max(c0.x).max(c1.x).max(c2.x).max(c3.x),
            y: c0.y.max(c0.y).max(c1.y).max(c2.y).max(c3.y),
            z: c0.z.max(c0.z).max(c1.z).max(c2.z).max(c3.z),
        };
        AABB::span(low, high)
    }

    /// The box of a quad with the corners `c0`, `c1`, `c2` and `c3`: the box
    /// between their smallest and their largest coordinates, with no axis
    /// left flat. `sizes` holds the extents of [`Quad::span`] of the corners,
    /// and `widened` that box grown by 1e-4 on every axis.
    pub fn compute_aabb(c0: Vec3, c1: Vec3, c2: Vec3, c3: Vec3, sizes: Vec3, widened: &AABB) -> (r:
        AABB)
        ensures
            r == AABB::spec_construct(
                Quad::spec_span_low(c0, c1, c2, c3),
                Quad::spec_span_high(c0, c1, c2, c3),
                sizes,
                *widened,
            ),
    {
        let mut bbox = Quad::span(c0, c1, c2, c3);
        bbox.pad_to_minimum_size(sizes, widened);
        bbox
    }
}

/// The span of a quad holds its four corners, provided their coordinates are
/// numbers.
pub proof fn lemma_quad_box_holds_corners(c0: Vec3, c1: Vec3, c2: Vec3, c3: Vec3)
    requires
        !c0.x.spec_is_nan() && !c0.y.spec_is_nan() && !c0.z.spec_is_nan(),
        !c1.x.spec_is_nan() && !c1.y.spec_is_nan() && !c1.z.spec_is_nan(),
        !c2.x.spec_is_nan() && !c2.y.spec_is_nan() && !c2.z.spec_is_nan(),
        !c3.x.spec_is_nan() && !c3.y.spec_is_nan() && !c3.z.spec_is_nan(),
    ensures
        ({
            let b = AABB::spec_span(
                Quad::spec_span_low(c0, c1, c2, c3),
                Quad::spec_span_high(c0, c1, c2, c3),
            );
            b.is_numeric() && b.spec_contains(c0) && b.spec_contains(c1) && b.spec_contains(c2)
                && b.spec_contains(c3)
        }),
{
}

/// The six faces of the box between two opposite corners, each as a corner
/// and two edges: front, right, back, left, top and bottom. `extent` holds
/// the lengths of the box along the three axes.
pub fn create_box(low: Vec3, high: Vec3, extent: Vec3) -> (faces: [(Vec3, Vec3, Vec3); 6])
    ensures
        faces[0] == (
            Vec3 { x: low.x, y: low.y, z: high.z },
            spec_along_x(extent),
            spec_along_y(extent),
        ),
        faces[1] == (
            Vec3 { x: high.x, y: low.y, z: high.z },
            spec_along_z(extent).spec_neg(),
            spec_along_y(extent),
        ),
        faces[2] == (
            Vec3 { x: high.x, y: low.y, z: low.z },
            spec_along_x(extent).spec_neg(),
            spec_along_y(extent),
        ),
        faces[3] == (
            Vec3 { x: low.x, y: low.y, z: low.z },
            spec_along_z(extent),
            spec_along_y(extent),
        ),
        faces[4] == (
            Vec3 { x: low.x, y: high.y, z: high.z },
            spec_along_x(extent),
            spec_along_z(extent).spec_neg(),
        ),
        faces[5] == (
            Vec3 { x: low.x, y: low.y, z: low.z },
            spec_along_x(extent),
            spec_along_z(extent),
        ),
{
    let zero = Scalar::zero();
    let dx = Vec3::new(extent.x, zero, zero);
    let dy = Vec3::new(zero, extent.y, zero);
    let dz = Vec3::new(zero, zero, extent.z);
    [
        (Vec3::new(low.x, low.y, high.z), dx, dy),
        (Vec3::new(high.x, low.y, high.z), dz.neg(), dy),
        (Vec3::new(high.x, low.y, low.z), dx.neg(), dy),
        (Vec3::new(low.x, low.y, low.z), dz, dy),
        (Vec3::new(low.x, high.y, high.z), dx, dz.neg()),
        (Vec3::new(low.x, low.y, low.z), dx, dz),
    ]
}

/// The edge of a box along the X axis.
pub open spec fn spec_along_x(extent: Vec3) -> Vec3 {
    Vec3 { x: extent.x, y: Scalar { bits: 0 }, z: Scalar { bits: 0 } }
}

/// The edge of a box along the Y axis.
pub open spec fn spec_along_y(extent: Vec3) -> Vec3 {
    Vec3 { x: Scalar { bits: 0 }, y: extent.y, z: Scalar { bits: 0 } }
}

/// The edge of a box along the Z axis.
pub open spec fn spec_along_z(extent: Vec3) -> Vec3 {
    Vec3 { x: Scalar { bits: 0 }, y: Scalar { bits: 0 }, z: extent.z }
}

/// The two opposite corners between which a box lies: of the two given
/// points, component by component the smaller and the larger coordinate.
pub fn box_corners(c1: Vec3, c2: Vec3) -> (r: (Vec3, Vec3))
    ensures
        r.0 == (Vec3 {
            x: c1.x.spec_min(c2.x),
            y: c1.y.spec_min(c2.y),
            z: c1.z.spec_min(c2.z),
        }),
        r.1 == (Vec3 {
            x: c1.x.spec_max(c2.x),
            y: c1.y.spec_max(c2.y),
            z: c1.z.spec_max(c2.z),
        }),
{
    (
        Vec3 { x: c1.x.min(c2.x), y: c1.y.min(c2.y), z: c1.z.min(c2.z) },
        Vec3 { x: c1.x.max(c2.x), y: c1.y.max(c2.y), z: c1.z.max(c2.z) },
    )
}

/// A quad answers like a surface. Where the intersection test of primitive
/// `p` reports, on every interval from `min`, the one point at which the ray
/// meets the plane of the quad, provided the interval contains its
/// parameter and the point lies on the quad, the test meets what the
/// nearest-hit search asks of a primitive.
pub proof fn lemma_quad_answers_nearest(
    test: spec_fn(int, Interval) -> Option<HitRecord>,
    p: int,
    min: Scalar,
    on_quad: bool,
    record: HitRecord,
)
    requires
        forall|max: Scalar| #[trigger]
            test(p, Interval { min, max }) == if on_quad && (Interval { min, max }).spec_contains(
                record.t,
            ) {
                Some(record)
            } else {
                None
            },
    ensures
        answers_nearest(test, p, min),
{
}

/// Whether the intersection test of primitive `p` is that of a quad for one
/// ray: on every interval from `min` it reports what [`Quad::spec_hit`]
/// gives for the same values of the ray's arithmetic.
pub open spec fn is_quad_test_with(
    test: spec_fn(int, Interval) -> Option<HitRecord>,
    p: int,
    min: Scalar,
    quad: Quad,
    denom: Scalar,
    t: Scalar,
    position: Vec3,
    alpha: Scalar,
    beta: Scalar,
) -> bool {
    forall|max: Scalar| #[trigger]
        test(p, Interval { min, max }) == quad.spec_hit(
            Interval { min, max },
            denom,
            t,
            position,
            alpha,
            beta,
        )
}

/// Whether the intersection test of primitive `p` is that of some quad for
/// one ray.
pub open spec fn is_quad_test(
    test: spec_fn(int, Interval) -> Option<HitRecord>,
    p: int,
    min: Scalar,
) -> bool {
    exists|quad: Quad, denom: Scalar, t: Scalar, position: Vec3, alpha: Scalar, beta: Scalar|
     #[trigger]
        is_quad_test_with(test, p, min, quad, denom, t, position, alpha, beta)
}

/// The hit test of a quad answers like a surface: a test that reports, on
/// every interval from `min`, what [`Quad::spec_hit`] gives for one and the
/// same ray meets what the nearest-hit search asks of a primitive.
pub proof fn lemma_quad_hit_answers_nearest(
    test: spec_fn(int, Interval) -> Option<HitRecord>,
    p: int,
    min: Scalar,
    quad: Quad,
    denom: Scalar,
    t: Scalar,
    position: Vec3,
    alpha: Scalar,
    beta: Scalar,
)
    requires
        forall|max: Scalar| #[trigger]
            test(p, Interval { min, max }) == quad.spec_hit(
                Interval { min, max },
                denom,
                t,
                position,
                alpha,
                beta,
            ),
    ensures
        answers_nearest(test, p, min),
{
    let on_quad = !denom.spec_abs().spec_lt(Scalar { bits: PARALLEL_BITS })
        && Quad::spec_is_interior(alpha, beta);
    let front_face = denom.spec_lt(Scalar { bits: 0 });
    let record = HitRecord {
        t,
        position,
        normal: if front_face {
            quad.normal
        } else {
            quad.normal.spec_neg()
        },
        uv: Vec2 { x: alpha, y: beta },
        material: Some(quad.material),
        front_face,
    };
    assert forall|max: Scalar| #[trigger]
        test(p, Interval { min, max }) == if on_quad && (Interval { min, max }).spec_contains(
            record.t,
        ) {
            Some(record)
        } else {
            None
        } by {
        assert(test(p, Interval { min, max }) == quad.spec_hit(
            Interval { min, max },
            denom,
            t,
            position,
            alpha,
            beta,
        ));
    }
    lemma_quad_answers_nearest(test, p, min, on_quad, record);
}

/// A ray aimed at the middle of a quad, where both planar coordinates are
/// one half, hits with exactly these for its surface coordinate, and a ray
/// aimed beside the quad, where a planar coordinate is three halves, misses.
pub proof fn lemma_quad_middle_and_beside(
    quad: Quad,
    t_interval: Interval,
    denom: Scalar,
    t: Scalar,
    position: Vec3,
)
    requires
        !denom.spec_abs().spec_lt(Scalar { bits: PARALLEL_BITS }),
        t_interval.spec_contains(t),
    ensures
        ({
            let half = Scalar { bits: 0x3f00_0000 };
            let beside = Scalar { bits: 0x3fc0_0000 };
            &&& quad.spec_hit(t_interval, denom, t, position, half, half).is_some()
            &&& quad.spec_hit(t_interval, denom, t, position, half, half).unwrap().uv == (Vec2 {
                x: half,
                y: half,
            })
            &&& quad.spec_hit(t_interval, denom, t, position, beside, half).is_none()
        }),
{
}

} // verus!
