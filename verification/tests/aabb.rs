use pathtrace::aabb::{Slab, AABB};
use pathtrace::interval::Interval;
use pathtrace::scalar::Scalar;
use pathtrace::vec3::{Axis, Vec3};

fn s(x: f32) -> Scalar {
    Scalar::from_bits(x.to_bits())
}

fn f(x: Scalar) -> f32 {
    f32::from_bits(x.to_bits())
}

fn v(x: f32, y: f32, z: f32) -> Vec3 {
    Vec3::new(s(x), s(y), s(z))
}

/// The extents of a box and the box grown by the least extent, half of it
/// on either side: the arithmetic that padding asks for.
fn padding(span: &AABB) -> (Vec3, AABB) {
    let size = |i: Interval| s(f(i.max) - f(i.min));
    let grow = |i: Interval| Interval::new(s(f(i.min) - 0.00005), s(f(i.max) + 0.00005));
    (
        Vec3::new(size(span.x), size(span.y), size(span.z)),
        AABB { x: grow(span.x), y: grow(span.y), z: grow(span.z) },
    )
}

fn construct(a: Vec3, b: Vec3) -> AABB {
    let (sizes, widened) = padding(&AABB::span(a, b));
    AABB::construct(a, b, sizes, &widened)
}

fn range(lo: f32, hi: f32) -> Interval {
    Interval::new(s(lo), s(hi))
}

/// Where a ray meets the two planes of a box on one axis.
fn slab(bounds: Interval, origin: f32, direction: f32) -> Slab {
    let dir_inv = 1.0 / direction;
    Slab { t0: s((f(bounds.min) - origin) * dir_inv), t1: s((f(bounds.max) - origin) * dir_inv) }
}

fn clip(bbox: &AABB, origin: [f32; 3], direction: [f32; 3], ray_t: Interval) -> Option<Interval> {
    AABB::clip(
        slab(bbox.x, origin[0], direction[0]),
        slab(bbox.y, origin[1], direction[1]),
        slab(bbox.z, origin[2], direction[2]),
        ray_t,
    )
}

fn next(state: &mut u64) -> f32 {
    *state = state.wrapping_mul(6364136223846793005).wrapping_add(1442695040888963407);
    let unit = ((*state >> 40) as f32) / ((1u64 << 24) as f32);
    unit * 20.0 - 10.0
}

fn random_box(state: &mut u64) -> AABB {
    let a = v(next(state), next(state), next(state));
    let b = v(next(state), next(state), next(state));
    construct(a, b)
}

#[test]
fn construct_orders_the_corners() {
    let b = construct(v(1.0, -2.0, 3.0), v(-1.0, 2.0, 4.0));
    assert_eq!(b.x, range(-1.0, 1.0));
    assert_eq!(b.y, range(-2.0, 2.0));
    assert_eq!(b.z, range(3.0, 4.0));
    assert_eq!(b, construct(v(-1.0, 2.0, 4.0), v(1.0, -2.0, 3.0)));
    assert_eq!(b, AABB::span(v(1.0, -2.0, 3.0), v(-1.0, 2.0, 4.0)));
    assert_eq!(b.get_axis(Axis::X), b.x);
    assert_eq!(b.get_axis(Axis::Y), b.y);
    assert_eq!(b.get_axis(Axis::Z), b.z);
}

#[test]
fn a_flat_axis_is_padded_on_both_sides() {
    // corners in mixed order, flat in z
    let r = construct(v(1.0, 5.0, 0.0), v(0.0, 7.0, 0.0));
    assert_eq!(f(r.x.min), 0.0);
    assert_eq!(f(r.x.max), 1.0);
    assert_eq!(f(r.y.min), 5.0);
    assert_eq!(f(r.y.max), 7.0);
    assert_eq!(f(r.z.min), -0.00005);
    assert_eq!(f(r.z.max), 0.00005);
    // the span itself is flat there
    assert_eq!(AABB::span(v(1.0, 5.0, 0.0), v(0.0, 7.0, 0.0)).z, range(0.0, 0.0));
    // a point is padded on every axis
    let p = construct(v(2.0, 2.0, 2.0), v(2.0, 2.0, 2.0));
    for i in [p.x, p.y, p.z] {
        assert_eq!(i, range(2.0 - 0.00005, 2.0 + 0.00005));
    }
    // an extent of just the least extent is left alone
    let least = f32::from_bits(pathtrace::aabb::MIN_EXTENT_BITS);
    let kept = construct(v(0.0, 0.0, 0.0), v(least, 1.0, 1.0));
    assert_eq!(kept.x, range(0.0, least));
}

#[test]
fn a_box_of_three_intervals_is_padded_too() {
    let (x, y, z) = (range(0.0, 1.0), range(2.0, 2.0), range(-1.0, -0.99999));
    let (sizes, widened) = padding(&AABB { x, y, z });
    let b = AABB::new(x, y, z, sizes, &widened);
    assert_eq!(b.x, x);
    assert_eq!(b.y, range(2.0 - 0.00005, 2.0 + 0.00005));
    assert_eq!(b.z, range(-1.0 - 0.00005, -0.99999 + 0.00005));
}

#[test]
fn box_combine_covers_every_point_of_both() {
    let mut state = 11u64;
    for _ in 0..300 {
        let a = random_box(&mut state);
        let b = random_box(&mut state);
        let c = AABB::combine(&a, &b);
        for bx in [a, b] {
            for i in 0..=4 {
                for j in 0..=4 {
                    for k in 0..=4 {
                        let at = |r: Interval, n: i32| {
                            let (lo, hi) = (f(r.min), f(r.max));
                            (lo + (hi - lo) * (n as f32 / 4.0)).max(lo).min(hi)
                        };
                        let p = v(at(bx.x, i), at(bx.y, j), at(bx.z, k));
                        assert!(bx.contains(p));
                        assert!(c.contains(p));
                    }
                }
            }
        }
    }
}

#[test]
fn the_empty_box_is_neutral() {
    let e = AABB::empty();
    let a = construct(v(0.0, 0.0, 0.0), v(1.0, 2.0, 3.0));
    assert_eq!(AABB::combine(&e, &a), a);
    assert_eq!(AABB::combine(&a, &e), a);
    assert!(!e.contains(v(0.0, 0.0, 0.0)));
}

#[test]
fn the_default_box_holds_the_origin_alone() {
    let d = AABB::default();
    assert_eq!(d, AABB { x: range(0.0, 0.0), y: range(0.0, 0.0), z: range(0.0, 0.0) });
    assert!(d.contains(v(0.0, 0.0, 0.0)));
    assert!(!d.contains(v(0.1, 0.0, 0.0)));
}

#[test]
fn a_ray_along_x_enters_the_unit_box_at_one() {
    let unit = construct(v(0.0, 0.0, 0.0), v(1.0, 1.0, 1.0));
    let ray_t = range(0.0, f32::INFINITY);
    let origin = [-1.0, 0.5, 0.5];
    let direction = [1.0, 0.0, 0.0];
    let inside = clip(&unit, origin, direction, ray_t);
    assert_eq!(inside, Some(range(1.0, 2.0)));
    assert_eq!(f(inside.unwrap().min), 1.0);
    assert!(AABB::hit(
        slab(unit.x, origin[0], direction[0]),
        slab(unit.y, origin[1], direction[1]),
        slab(unit.z, origin[2], direction[2]),
        ray_t,
    ));
}

#[test]
fn a_ray_beside_the_box_misses() {
    let unit = construct(v(0.0, 0.0, 0.0), v(1.0, 1.0, 1.0));
    let ray_t = range(0.0, f32::INFINITY);
    assert_eq!(clip(&unit, [-1.0, 1.5, 0.5], [1.0, 0.0, 0.0], ray_t), None);
    assert_eq!(clip(&unit, [-1.0, 0.5, 0.5], [-1.0, 0.0, 0.0], ray_t), None);
    assert_eq!(clip(&unit, [-1.0, 0.5, 0.5], [1.0, 0.0, 0.0], range(0.0, 0.5)), None);
    assert_eq!(clip(&unit, [-1.0, 0.5, 0.5], [1.0, 0.0, 0.0], range(0.0, 1.0)), None);
    assert_eq!(clip(&unit, [-1.0, 0.5, 0.5], [1.0, 0.0, 0.0], range(2.0, 9.0)), None);
    assert!(clip(&unit, [-1.0, 0.5, 0.5], [1.0, 0.0, 0.0], range(0.0, 1.0001)).is_some());
}

#[test]
fn a_ray_against_the_axis_swaps_entry_and_exit() {
    let unit = construct(v(0.0, 0.0, 0.0), v(1.0, 1.0, 1.0));
    let ray_t = range(0.0, f32::INFINITY);
    let inside = clip(&unit, [3.0, 0.5, 0.5], [-1.0, 0.0, 0.0], ray_t);
    assert_eq!(inside, Some(range(2.0, 3.0)));
    let diagonal = clip(&unit, [-1.0, -1.0, -1.0], [1.0, 1.0, 1.0], ray_t);
    assert_eq!(diagonal, Some(range(1.0, 2.0)));
}

#[test]
fn a_ray_in_a_face_plane_has_a_defined_result() {
    // the origin lies in the plane y = 0 and the ray runs along it: the
    // parameter at that plane is zero times infinity, which is no number,
    // and the other parameter of the axis becomes the entry
    let unit = construct(v(0.0, 0.0, 0.0), v(1.0, 1.0, 1.0));
    let y = slab(unit.y, 0.0, 0.0);
    assert!(f(y.t0).is_nan());
    assert_eq!(f(y.t1), f32::INFINITY);
    let ray_t = range(0.0, 10.0);
    assert_eq!(y.narrow(ray_t), range(f32::INFINITY, 10.0));
    assert_eq!(clip(&unit, [-1.0, 0.0, 0.5], [1.0, 0.0, 0.0], ray_t), None);
    // strictly between the planes both parameters are infinite and the axis
    // constrains nothing
    let between = slab(unit.y, 0.5, 0.0);
    assert_eq!(between.narrow(ray_t), ray_t);
    assert_eq!(clip(&unit, [-1.0, 0.5, 0.5], [1.0, 0.0, 0.0], ray_t), Some(range(1.0, 2.0)));
}

#[test]
fn the_longest_axis_must_win_strictly() {
    assert_eq!(AABB::get_longest_axis(s(3.0), s(2.0), s(1.0)), Axis::X);
    assert_eq!(AABB::get_longest_axis(s(1.0), s(3.0), s(2.0)), Axis::Y);
    assert_eq!(AABB::get_longest_axis(s(1.0), s(2.0), s(3.0)), Axis::Z);
    assert_eq!(AABB::get_longest_axis(s(3.0), s(3.0), s(1.0)), Axis::Z);
    assert_eq!(AABB::get_longest_axis(s(3.0), s(1.0), s(3.0)), Axis::Z);
    assert_eq!(AABB::get_longest_axis(s(1.0), s(3.0), s(3.0)), Axis::Z);
    assert_eq!(AABB::get_longest_axis(s(2.0), s(2.0), s(2.0)), Axis::Z);
    assert_eq!(AABB::get_longest_axis(s(0.0), s(0.0), s(0.0)), Axis::Z);
}

#[test]
fn flat_axes_are_padded_and_others_kept() {
    let mut b = AABB::span(v(0.0, 0.0, 5.0), v(1.0, 0.00001, 5.0));
    let before = b;
    let widened = AABB { x: range(-0.00005, 1.00005), y: range(-0.00005, 0.00006), z: range(4.99995, 5.00005) };
    b.pad_to_minimum_size(v(1.0, 0.00001, 0.0), &widened);
    assert_eq!(b.x, before.x);
    assert_eq!(b.y, widened.y);
    assert_eq!(b.z, widened.z);
    let mut c = before;
    c.pad_to_minimum_size(v(0.0001, 0.0001, 0.0001), &widened);
    assert_eq!(c, before);
}
