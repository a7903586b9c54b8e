//! Axis-aligned bounding boxes and the slab test.
use vstd::prelude::*;
use crate::interval::Interval;
use crate::scalar::Scalar;
pub use crate::vec3::Axis;
use crate::vec3::Vec3;

verus! {

/// The pattern of 1e-4: the least extent a box may have on an axis.
pub const MIN_EXTENT_BITS: u32 = 0x38d1_b717;

/// A box with its faces parallel to the coordinate planes: one interval per
/// axis.
#[derive(Debug, Clone, Copy, PartialEq, Eq, Structural)]
pub struct AABB {
    pub x: Interval,
    pub y: Interval,
    pub z: Interval,
}

/// Where a ray meets the two planes that bound a box on one axis: the ray
/// parameters `(bound - origin) / direction` for the lower and the upper
/// bound. For a ray that runs along the planes these are infinite, and the
/// one of a plane that holds the ray's origin is not a number.
#[derive(Debug, Clone, Copy, PartialEq, Eq, Structural)]
pub struct Slab {
    pub t0: Scalar,
    pub t1: Scalar,
}

impl Slab {
    /// The part of `ray_t` that the slab leaves: the lower bound is raised to
    /// the smaller parameter and the upper bound lowered to the larger one,
    /// each only where that narrows the interval.
    pub open spec fn spec_narrow(self, ray_t: Interval) -> Interval {
        if self.t0.spec_lt(self.t1) {
            Interval {
                min: if ray_t.min.spec_lt(self.t0) { self.t0 } else { ray_t.min },
                max: if self.t1.spec_lt(ray_t.max) { self.t1 } else { ray_t.max },
            }
        } else {
            Interval {
                min: if ray_t.min.spec_lt(self.t1) { self.t1 } else { ray_t.min },
                max: if self.t0.spec_lt(ray_t.max) { self.t0 } else { ray_t.max },
            }
        }
    }

    /// Whether parameter `t` lies between the two planes.
    pub open spec fn spec_holds(self, t: Scalar) -> bool {
        (self.t0.spec_le(t) && t.spec_le(self.t1)) || (self.t1.spec_le(t) && t.spec_le(self.t0))
    }

    /// Whether both parameters are numbers, the infinities included.
    pub open spec fn is_numeric(self) -> bool {
        !self.t0.spec_is_nan() && !self.t1.spec_is_nan()
    }

    /// Whether the slab reaches at least as far as `inner` on both sides.
    pub open spec fn spec_covers(self, inner: Slab) -> bool {
        &&& self.t0.spec_min(self.t1).spec_le(inner.t0.spec_min(inner.t1))
        &&& inner.t0.spec_max(inner.t1).spec_le(self.t0.spec_max(self.t1))
    }

    /// The part of `ray_t` that the slab leaves.
    pub fn narrow(self, ray_t: Interval) -> (r: Interval)
        ensures
            r == self.spec_narrow(ray_t),
    {
        let mut r = ray_t;
        if self.t0.lt(self.t1) {
            if self.t0.gt(r.min) {
                r.min = self.t0;
            }
            if self.t1.lt(r.max) {
                r.max = self.t1;
            }
        } else {
            if self.t1.gt(r.min) {
                r.min = self.t1;
            }
            if self.t0.lt(r.max) {
                r.max = self.t0;
            }
        }
        r
    }
}

impl AABB {
    /// Whether the point lies in the box, faces included.
    pub open spec fn spec_contains(self, p: Vec3) -> bool {
        self.x.spec_contains(p.x) && self.y.spec_contains(p.y) && self.z.spec_contains(p.z)
    }

    /// The smallest box that covers both: the intervals combined axis by
    /// axis.
    pub open spec fn spec_combine(a: AABB, b: AABB) -> AABB {
        AABB {
            x: Interval::spec_combine(a.x, b.x),
            y: Interval::spec_combine(a.y, b.y),
            z: Interval::spec_combine(a.z, b.z),
        }
    }

    /// The interval of the box on an axis.
    pub open spec fn spec_get_axis(&self, axis: Axis) -> Interval {
        match axis {
            Axis::X => self.x,
            Axis::Y => self.y,
            Axis::Z => self.z,
        }
    }

    /// The box that holds no point: empty on every axis.
    pub open spec fn spec_empty() -> AABB {
        AABB { x: Interval::spec_empty(), y: Interval::spec_empty(), z: Interval::spec_empty() }
    }

    /// The box spanned by two opposite corners, whichever way round they are
    /// given, before any padding.
    pub open spec fn spec_span(a: Vec3, b: Vec3) -> AABB {
        AABB {
            x: if a.x.spec_le(b.x) {
                Interval { min: a.x, max: b.x }
            } else {
                Interval { min: b.x, max: a.x }
            },
            y: if a.y.spec_le(b.y) {
                Interval { min: a.y, max: b.y }
            } else {
                Interval { min: b.y, max: a.y }
            },
            z: if a.z.spec_le(b.z) {
                Interval { min: a.z, max: b.z }
            } else {
                Interval { min: b.z, max: a.z }
            },
        }
    }

    /// The axis of strictly greatest extent; where neither X nor Y exceeds
    /// both others, Z.
    pub open spec fn spec_longest_axis(x_size: Scalar, y_size: Scalar, z_size: Scalar) -> Axis {
        if y_size.spec_lt(x_size) && z_size.spec_lt(x_size) {
            Axis::X
        } else if x_size.spec_lt(y_size) && z_size.spec_lt(y_size) {
            Axis::Y
        } else {
            Axis::Z
        }
    }

    /// The slab test: `ray_t` narrowed by the slabs of the three axes in
    /// turn, or `None` as soon as the upper bound no longer exceeds the
    /// lower one.
    pub open spec fn spec_clip(x: Slab, y: Slab, z: Slab, ray_t: Interval) -> Option<Interval> {
        let a = x.spec_narrow(ray_t);
        if a.max.spec_le(a.min) {
            None
        } else {
            let b = y.spec_narrow(a);
            if b.max.spec_le(b.min) {
                None
            } else {
                let c = z.spec_narrow(b);
                if c.max.spec_le(c.min) {
                    None
                } else {
                    Some(c)
                }
            }
        }
    }

    /// Whether every bound of the box is a number.
    pub open spec fn is_numeric(self) -> bool {
        &&& !self.x.min.spec_is_nan() && !self.x.max.spec_is_nan()
        &&& !self.y.min.spec_is_nan() && !self.y.max.spec_is_nan()
        &&& !self.z.min.spec_is_nan() && !self.z.max.spec_is_nan()
    }

    /// Whether the box reaches at least as far as `inner` in every
    /// direction.
    pub open spec fn spec_encloses(self, inner: AABB) -> bool {
        &&& self.x.min.spec_le(inner.x.min) && inner.x.max.spec_le(self.x.max)
        &&& self.y.min.spec_le(inner.y.min) && inner.y.max.spec_le(self.y.max)
        &&& self.z.min.spec_le(inner.z.min) && inner.z.max.spec_le(self.z.max)
    }

    /// The box with no axis left flat: each interval whose extent is below
    /// 1e-4 gives way to the widened interval of the same axis, the others
    /// stay. `sizes` holds the extent of the box on each axis and `widened`
    /// the box grown by 1e-4 on every axis, half of it on either side.
    pub open spec fn spec_padded(self, sizes: Vec3, widened: AABB) -> AABB {
        let least = Scalar { bits: MIN_EXTENT_BITS };
        AABB {
            x: if sizes.x.spec_lt(least) {
                widened.x
            } else {
                self.x
            },
            y: if sizes.y.spec_lt(least) {
                widened.y
            } else {
                self.y
            },
            z: if sizes.z.spec_lt(least) {
                widened.z
            } else {
                self.z
            },
        }
    }

    /// The box of three intervals, padded.
    pub open spec fn spec_new(
        x: Interval,
        y: Interval,
        z: Interval,
        sizes: Vec3,
        widened: AABB,
    ) -> AABB {
        (AABB { x, y, z }).spec_padded(sizes, widened)
    }

    /// The box spanned by two opposite corners, padded.
    pub open spec fn spec_construct(a: Vec3, b: Vec3, sizes: Vec3, widened: AABB) -> AABB {
        AABB::spec_span(a, b).spec_padded(sizes, widened)
    }

    /// The box with the given intervals, of which none is left flat: an
    /// interval whose extent is below 1e-4 is replaced by the widened one.
    /// `sizes` holds the extents of `x`, `y` and `z`, and `widened` the three
    /// intervals grown by 1e-4, half of it on either side.
    pub fn new(x: Interval, y: Interval, z: Interval, sizes: Vec3, widened: &AABB) -> (r: AABB)
        ensures
            r == AABB::spec_new(x, y, z, sizes, *widened),
    {
        let mut bbox = AABB { x, y, z };
        bbox.pad_to_minimum_size(sizes, widened);
        bbox
    }

    /// The box that holds no point.
    pub fn empty() -> (r: AABB)
        ensures
            r == AABB::spec_empty(),
    {
        AABB { x: Interval::empty(), y: Interval::empty(), z: Interval::empty() }
    }

    /// The box spanned by two opposite corners, of which no axis is left
    /// flat. On each axis the smaller coordinate becomes the lower bound; an
    /// axis on which the box then extends over less than 1e-4 is replaced by
    /// the widened one. `sizes` holds the extents of [`AABB::span`] of the
    /// two corners, and `widened` that box grown by 1e-4 on every axis, half
    /// of it on either side.
    pub fn construct(a: Vec3, b: Vec3, sizes: Vec3, widened: &AABB) -> (r: AABB)
        ensures
            r == AABB::spec_construct(a, b, sizes, *widened),
    {
        let mut bbox = AABB::span(a, b);
        bbox.pad_to_minimum_size(sizes, widened);
        bbox
    }

    /// The span of two opposite corners before it is padded: on each axis
    /// the smaller coordinate becomes the lower bound. It is the box whose
    /// extents [`AABB::construct`] asks for.
    pub fn span(a: Vec3, b: Vec3) -> (r: AABB)
        ensures
            r == AABB::spec_span(a, b),
    {
        AABB {
            x: if a.x.le(b.x) {
                Interval::new(a.x, b.x)
            } else {
                Interval::new(b.x, a.x)
            },
            y: if a.y.le(b.y) {
                Interval::new(a.y, b.y)
            } else {
                Interval::new(b.y, a.y)
            },
            z: if a.z.le(b.z) {
                Interval::new(a.z, b.z)
            } else {
                Interval::new(b.z, a.z)
            },
        }
    }

    /// The smallest box that covers `a` and `b`.
    pub fn combine(a: &AABB, b: &AABB) -> (r: AABB)
        ensures
            r == AABB::spec_combine(*a, *b),
    {
        AABB {
            x: Interval::combine(&a.x, &b.x),
            y: Interval::combine(&a.y, &b.y),
            z: Interval::combine(&a.z, &b.z),
        }
    }

    /// The interval of the box on an axis.
    #[verifier::when_used_as_spec(spec_get_axis)]
    pub fn get_axis(&self, axis: Axis) -> (r: Interval)
        ensures
            r == self.spec_get_axis(axis),
    {
        match axis {
            Axis::X => self.x,
            Axis::Y => self.y,
            Axis::Z => self.z,
        }
    }

    /// Whether the point lies in the box, faces included.
    pub fn contains(&self, p: Vec3) -> (r: bool)
        ensures
            r == self.spec_contains(p),
    {
        self.x.contains(p.x) && self.y.contains(p.y) && self.z.contains(p.z)
    }

    /// The part of `ray_t` on which a ray is inside the box, given where the
    /// ray meets the planes of each axis; `None` when the ray misses the box
    /// within `ray_t`.
    pub fn clip(x: Slab, y: Slab, z: Slab, ray_t: Interval) -> (r: Option<Interval>)
        ensures
            r == AABB::spec_clip(x, y, z, ray_t),
    {
        let a = x.narrow(ray_t);
        if a.max.le(a.min) {
            return None;
        }
        let b = y.narrow(a);
        if b.max.le(b.min) {
            return None;
        }
        let c = z.narrow(b);
        if c.max.le(c.min) {
            return None;
        }
        Some(c)
    }

    /// Whether a ray passes through the box within `ray_t`, given where it
    /// meets the planes of each axis.
    pub fn hit(x: Slab, y: Slab, z: Slab, ray_t: Interval) -> (r: bool)
        ensures
            r == AABB::spec_clip(x, y, z, ray_t).is_some(),
    {
        AABB::clip(x, y, z, ray_t).is_some()
    }

    /// The axis on which a box of the given extents is longest. An axis wins
    /// only by being strictly longer than both others; every tie goes to Z.
    pub fn get_longest_axis(x_size: Scalar, y_size: Scalar, z_size: Scalar) -> (r: Axis)
        ensures
            r == AABB::spec_longest_axis(x_size, y_size, z_size),
    {
        if x_size.gt(y_size) && x_size.gt(z_size) {
            Axis::X
        } else if y_size.gt(x_size) && y_size.gt(z_size) {
            Axis::Y
        } else {
            Axis::Z
        }
    }

    /// Replaces each interval whose extent is below 1e-4 by the widened
    /// interval of the same axis, and leaves the others alone. `sizes` holds
    /// the extent of the box on each axis and `widened` the box grown by
    /// 1e-4 on every axis.
    pub fn pad_to_minimum_size(&mut self, sizes: Vec3, widened: &AABB)
        ensures
            *final(self) == old(self).spec_padded(sizes, *widened),
    {
        let min_delta = Scalar::from_bits(MIN_EXTENT_BITS);
        if sizes.x.lt(min_delta) {
            self.x = widened.x;
        }
        if sizes.y.lt(min_delta) {
            self.y = widened.y;
        }
        if sizes.z.lt(min_delta) {
            self.z = widened.z;
        }
    }
}

impl Default for AABB {
    /// The box that holds the origin alone.
    fn default() -> (r: AABB)
        ensures
            r.x.min.bits == 0 && r.x.max.bits == 0,
            r.y.min.bits == 0 && r.y.max.bits == 0,
            r.z.min.bits == 0 && r.z.max.bits == 0,
    {
        let i = Interval { min: Scalar::zero(), max: Scalar::zero() };
        AABB { x: i, y: i, z: i }
    }
}

/// Every point of `a` and every point of `b` is a point of their
/// combination.
pub proof fn lemma_box_combine_covers(a: AABB, b: AABB, p: Vec3)
    ensures
        a.spec_contains(p) ==> AABB::spec_combine(a, b).spec_contains(p),
        b.spec_contains(p) ==> AABB::spec_combine(a, b).spec_contains(p),
{
}

/// The combination is the tightest cover: a box that encloses two boxes
/// holds every point of their combination.
pub proof fn lemma_box_combine_tightest(a: AABB, b: AABB, c: AABB, p: Vec3)
    requires
        c.spec_encloses(a),
        c.spec_encloses(b),
        AABB::spec_combine(a, b).spec_contains(p),
    ensures
        c.spec_contains(p),
{
}

/// The empty box holds no point and is neutral for combination with any box
/// of finite bounds.
pub proof fn lemma_box_combine_empty(a: AABB, p: Vec3)
    ensures
        !AABB::spec_empty().spec_contains(p),
        a.x.is_finite() && a.y.is_finite() && a.z.is_finite() ==> AABB::spec_combine(
            AABB::spec_empty(),
            a,
        ) == a,
{
    crate::interval::lemma_combine_empty(a.x, a.x, p.x);
    crate::interval::lemma_combine_empty(a.y, a.y, p.y);
    crate::interval::lemma_combine_empty(a.z, a.z, p.z);
}

/// The combination of two boxes with numbers for bounds has numbers for
/// bounds and encloses both; enclosing is transitive.
pub proof fn lemma_combine_encloses(a: AABB, b: AABB, c: AABB)
    requires
        a.is_numeric(),
        b.is_numeric(),
    ensures
        AABB::spec_combine(a, b).is_numeric(),
        AABB::spec_combine(a, b).spec_encloses(a),
        AABB::spec_combine(a, b).spec_encloses(b),
        a.spec_encloses(a),
        c.spec_encloses(b) && b.spec_encloses(a) ==> c.spec_encloses(a),
{
}

/// Padding loses no point: where the widened box encloses the box, the
/// padded box holds every point that the box holds, and an axis that is not
/// flat is left as it was.
pub proof fn lemma_padding_keeps_points(bbox: AABB, sizes: Vec3, widened: AABB, p: Vec3)
    requires
        widened.spec_encloses(bbox),
        bbox.spec_contains(p),
    ensures
        bbox.spec_padded(sizes, widened).spec_contains(p),
        bbox.spec_padded(sizes, widened).spec_encloses(bbox),
        !sizes.x.spec_lt(Scalar { bits: MIN_EXTENT_BITS }) ==> bbox.spec_padded(sizes, widened).x
            == bbox.x,
        !sizes.y.spec_lt(Scalar { bits: MIN_EXTENT_BITS }) ==> bbox.spec_padded(sizes, widened).y
            == bbox.y,
        !sizes.z.spec_lt(Scalar { bits: MIN_EXTENT_BITS }) ==> bbox.spec_padded(sizes, widened).z
            == bbox.z,
{
}

/// The box spanned by two corners holds both of them, provided their
/// coordinates are numbers.
pub proof fn lemma_construct_holds_corners(a: Vec3, b: Vec3)
    requires
        !a.x.spec_is_nan() && !a.y.spec_is_nan() && !a.z.spec_is_nan(),
        !b.x.spec_is_nan() && !b.y.spec_is_nan() && !b.z.spec_is_nan(),
    ensures
        AABB::spec_span(a, b).spec_contains(a),
        AABB::spec_span(a, b).spec_contains(b),
        AABB::spec_span(a, b).x.min.spec_le(AABB::spec_span(a, b).x.max),
        AABB::spec_span(a, b).y.min.spec_le(AABB::spec_span(a, b).y.max),
        AABB::spec_span(a, b).z.min.spec_le(AABB::spec_span(a, b).z.max),
{
}

/// What the slab test leaves lies within the interval it was given: the
/// test only ever narrows.
pub proof fn lemma_clip_narrows(x: Slab, y: Slab, z: Slab, ray_t: Interval, t: Scalar)
    requires
        !ray_t.min.spec_is_nan(),
        !ray_t.max.spec_is_nan(),
        AABB::spec_clip(x, y, z, ray_t).is_some(),
    ensures
        AABB::spec_clip(x, y, z, ray_t).unwrap().spec_contains(t) ==> ray_t.spec_contains(t),
        AABB::spec_clip(x, y, z, ray_t).unwrap().min.spec_lt(
            AABB::spec_clip(x, y, z, ray_t).unwrap().max,
        ),
{
}

/// Narrowing by a slab intersects: a parameter lies in what is left
/// exactly if it lies in the interval and between the two planes.
pub proof fn lemma_narrow_is_intersection(slab: Slab, ray_t: Interval, t: Scalar)
    requires
        slab.is_numeric(),
        !ray_t.min.spec_is_nan(),
        !ray_t.max.spec_is_nan(),
    ensures
        slab.spec_narrow(ray_t).spec_contains(t) <==> ray_t.spec_contains(t) && slab.spec_holds(t),
        ray_t.min.spec_le(slab.spec_narrow(ray_t).min),
        slab.spec_narrow(ray_t).max.spec_le(ray_t.max),
{
}

/// The slab test intersects the interval with the three slabs: what it
/// leaves holds exactly the parameters of the interval that lie between the
/// planes of every axis, and it fails exactly where that common part has no
/// extent.
pub proof fn lemma_clip_is_intersection(x: Slab, y: Slab, z: Slab, ray_t: Interval, t: Scalar)
    requires
        x.is_numeric(),
        y.is_numeric(),
        z.is_numeric(),
        !ray_t.min.spec_is_nan(),
        !ray_t.max.spec_is_nan(),
    ensures
        ({
            let common = z.spec_narrow(y.spec_narrow(x.spec_narrow(ray_t)));
            &&& common.spec_contains(t) <==> ray_t.spec_contains(t) && x.spec_holds(t)
                && y.spec_holds(t) && z.spec_holds(t)
            &&& AABB::spec_clip(x, y, z, ray_t).is_some() <==> common.min.spec_lt(common.max)
            &&& AABB::spec_clip(x, y, z, ray_t).is_some() ==> AABB::spec_clip(x, y, z, ray_t)
                == Some(common)
        }),
{
    let a = x.spec_narrow(ray_t);
    let b = y.spec_narrow(a);
    let c = z.spec_narrow(b);
    lemma_narrow_is_intersection(x, ray_t, t);
    lemma_narrow_is_intersection(y, a, t);
    lemma_narrow_is_intersection(z, b, t);
}

/// Narrowing is monotone: a slab that covers another leaves at least as
/// much of an interval that is at least as wide.
pub proof fn lemma_narrow_grows(inner: Slab, outer: Slab, ray_t: Interval, wider: Interval)
    requires
        inner.is_numeric(),
        outer.is_numeric(),
        outer.spec_covers(inner),
        wider.min.spec_le(ray_t.min),
        ray_t.max.spec_le(wider.max),
    ensures
        outer.spec_narrow(wider).min.spec_le(inner.spec_narrow(ray_t).min),
        inner.spec_narrow(ray_t).max.spec_le(outer.spec_narrow(wider).max),
{
}

/// The slab test is monotone in the slabs: a ray that passes a box passes
/// every box whose slabs cover those of the first on every axis.
pub proof fn lemma_clip_grows(
    x: Slab,
    y: Slab,
    z: Slab,
    outer_x: Slab,
    outer_y: Slab,
    outer_z: Slab,
    ray_t: Interval,
)
    requires
        x.is_numeric() && y.is_numeric() && z.is_numeric(),
        outer_x.is_numeric() && outer_y.is_numeric() && outer_z.is_numeric(),
        outer_x.spec_covers(x),
        outer_y.spec_covers(y),
        outer_z.spec_covers(z),
        !ray_t.min.spec_is_nan(),
        !ray_t.max.spec_is_nan(),
        AABB::spec_clip(x, y, z, ray_t).is_some(),
    ensures
        AABB::spec_clip(outer_x, outer_y, outer_z, ray_t).is_some(),
{
    let a = x.spec_narrow(ray_t);
    let wa = outer_x.spec_narrow(ray_t);
    lemma_narrow_grows(x, outer_x, ray_t, ray_t);
    let b = y.spec_narrow(a);
    let wb = outer_y.spec_narrow(wa);
    lemma_narrow_grows(y, outer_y, a, wa);
    lemma_narrow_grows(z, outer_z, b, wb);
}

/// Narrowing by a slab keeps both bounds numbers and respects widening of
/// the upper bound.
pub proof fn lemma_narrow_monotone(s: Slab, ray_t: Interval, wider: Interval)
    requires
        !ray_t.min.spec_is_nan(),
        !ray_t.max.spec_is_nan(),
        wider.min == ray_t.min,
        ray_t.max.spec_le(wider.max),
    ensures
        !s.spec_narrow(ray_t).min.spec_is_nan(),
        !s.spec_narrow(ray_t).max.spec_is_nan(),
        s.spec_narrow(wider).min == s.spec_narrow(ray_t).min,
        s.spec_narrow(ray_t).max.spec_le(s.spec_narrow(wider).max),
{
}

/// A box that passes the slab test on an interval passes it on every wider
/// interval with the same lower bound.
pub proof fn lemma_clip_monotone(x: Slab, y: Slab, z: Slab, ray_t: Interval, wider: Interval)
    requires
        !ray_t.min.spec_is_nan(),
        !ray_t.max.spec_is_nan(),
        wider.min == ray_t.min,
        ray_t.max.spec_le(wider.max),
        AABB::spec_clip(x, y, z, ray_t).is_some(),
    ensures
        AABB::spec_clip(x, y, z, wider).is_some(),
{
    let a = x.spec_narrow(ray_t);
    let aw = x.spec_narrow(wider);
    lemma_narrow_monotone(x, ray_t, wider);
    let b = y.spec_narrow(a);
    let bw = y.spec_narrow(aw);
    lemma_narrow_monotone(y, a, aw);
    lemma_narrow_monotone(z, b, bw);
}

} // verus!
