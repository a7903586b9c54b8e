use pathtrace::constant_medium::ConstantMedium;
use pathtrace::hit::{HitRecord, Vec2};
use pathtrace::interval::Interval;
use pathtrace::quad::{box_corners, create_box, Quad};
use pathtrace::scalar::Scalar;
use pathtrace::sphere::Sphere;
use pathtrace::vec3::Vec3;
use pathtrace::aabb::AABB;

fn s(x: f32) -> Scalar {
    Scalar::from_bits(x.to_bits())
}

fn f(x: Scalar) -> f32 {
    f32::from_bits(x.to_bits())
}

fn v(p: [f32; 3]) -> Vec3 {
    Vec3::new(s(p[0]), s(p[1]), s(p[2]))
}

/// The extents of a box and the box grown by the least extent, half of it
/// on either side: the arithmetic that padding asks for.
fn padding(span: &AABB) -> (Vec3, AABB) {
    let size = |i: Interval| s(f(i.max) - f(i.min));
    let grow = |i: Interval| Interval::new(s(f(i.min) - 0.00005), s(f(i.max) + 0.00005));
    (
        Vec3::new(size(span.x), size(span.y), size(span.z)),
        AABB { x: grow(span.x), y: grow(span.y), z: grow(span.z) },
    )
}

fn construct(a: Vec3, b: Vec3) -> AABB {
    let (sizes, widened) = padding(&AABB::span(a, b));
    AABB::construct(a, b, sizes, &widened)
}

fn dot(a: [f32; 3], b: [f32; 3]) -> f32 {
    a[0] * b[0] + a[1] * b[1] + a[2] * b[2]
}

fn cross(a: [f32; 3], b: [f32; 3]) -> [f32; 3] {
    [a[1] * b[2] - a[2] * b[1], a[2] * b[0] - a[0] * b[2], a[0] * b[1] - a[1] * b[0]]
}

fn sub(a: [f32; 3], b: [f32; 3]) -> [f32; 3] {
    [a[0] - b[0], a[1] - b[1], a[2] - b[2]]
}

fn scale(a: [f32; 3], k: f32) -> [f32; 3] {
    [a[0] * k, a[1] * k, a[2] * k]
}

fn plus(a: [f32; 3], b: [f32; 3]) -> [f32; 3] {
    [a[0] + b[0], a[1] + b[1], a[2] + b[2]]
}

fn unit(a: [f32; 3]) -> [f32; 3] {
    let len = dot(a, a).sqrt();
    [a[0] / len, a[1] / len, a[2] / len]
}

fn window() -> Interval {
    Interval::new(s(0.001), s(f32::MAX))
}

/// A ray against a sphere: the arithmetic here, the choice of the root and
/// the orientation of the normal in the library.
fn sphere_hit(center: [f32; 3], radius: f32, origin: [f32; 3], direction: [f32; 3], w: &Interval) -> Option<HitRecord> {
    let to_center = sub(center, origin);
    let a = dot(direction, direction);
    let h = dot(direction, to_center);
    let c = dot(to_center, to_center) - radius * radius;
    let discriminant = h * h - a * c;
    if !Sphere::has_root(s(discriminant)) {
        return None;
    }
    let root = discriminant.sqrt();
    let t = f(Sphere::pick_root(w, s(discriminant), s((h - root) / a), s((h + root) / a))?);
    let position = plus(origin, scale(direction, t));
    let outward = unit(sub(position, center));
    let mut record = HitRecord::new();
    record.t = s(t);
    record.position = v(position);
    record.set_face_normal(s(dot(direction, outward)), &v(outward));
    Some(record)
}

/// A ray against a quad with corner `q` and edges `u` and `v`.
fn quad_hit(q: [f32; 3], u: [f32; 3], ev: [f32; 3], origin: [f32; 3], direction: [f32; 3], w: &Interval) -> Option<HitRecord> {
    let n = cross(u, ev);
    let normal = unit(n);
    let d = dot(normal, q);
    let wv = scale(n, 1.0 / dot(n, n));
    let denom = dot(normal, direction);
    if Quad::is_parallel(s(denom)) {
        return None;
    }
    let t = (d - dot(normal, origin)) / denom;
    if !w.contains(s(t)) {
        return None;
    }
    let hit_p = plus(origin, scale(direction, t));
    let planar = sub(hit_p, q);
    let alpha = dot(wv, cross(planar, ev));
    let beta = dot(wv, cross(u, planar));
    let mut record = HitRecord::new();
    if !Quad::is_interior(s(alpha), s(beta), &mut record) {
        assert_eq!(record, HitRecord::new());
        return None;
    }
    record.t = s(t);
    record.position = v(hit_p);
    record.set_face_normal(s(denom), &v(normal));
    Some(record)
}

#[test]
fn a_ray_through_the_centre_hits_the_near_side_from_outside() {
    let center = [0.0, 0.0, -5.0];
    let direction = [0.0, 0.0, -1.0];
    let hit = sphere_hit(center, 1.0, [0.0; 3], direction, &window()).unwrap();
    assert_eq!(f(hit.t), 4.0);
    assert_eq!(hit.position, v([0.0, 0.0, -4.0]));
    assert!(hit.front_face);
    assert_eq!(hit.normal, v([0.0, 0.0, 1.0]));
    let n = [f(hit.normal.x), f(hit.normal.y), f(hit.normal.z)];
    assert_eq!(dot(n, direction), -1.0);
}

#[test]
fn rays_through_the_centre_meet_a_normal_that_faces_them() {
    let center = [1.0, -2.0, 3.0];
    let mut state = 5u64;
    let mut next = move || {
        state = state.wrapping_mul(6364136223846793005).wrapping_add(1442695040888963407);
        ((state >> 40) as f32) / ((1u64 << 24) as f32) * 2.0 - 1.0
    };
    for _ in 0..500 {
        let origin = plus(center, scale(unit([next(), next(), next()]), 3.0 + next().abs() * 10.0));
        let direction = unit(sub(center, origin));
        let hit = sphere_hit(center, 1.5, origin, direction, &window()).unwrap();
        assert!(hit.front_face);
        let n = [f(hit.normal.x), f(hit.normal.y), f(hit.normal.z)];
        assert!(dot(n, direction) <= 0.0);
        assert!(dot(n, direction) < -0.999);
        let distance = dot(sub(center, origin), sub(center, origin)).sqrt();
        assert!((f(hit.t) - (distance - 1.5)).abs() < 1e-3);
    }
}

#[test]
fn from_inside_a_sphere_the_far_root_is_the_hit_on_the_back_face() {
    let hit = sphere_hit([0.0; 3], 2.0, [0.0; 3], [1.0, 0.0, 0.0], &window()).unwrap();
    assert_eq!(f(hit.t), 2.0);
    assert!(!hit.front_face);
    assert_eq!(hit.normal, v([-1.0, -0.0, -0.0]));
}

#[test]
fn the_smaller_root_is_preferred_and_the_larger_is_the_fallback() {
    let w = Interval::new(s(1.0), s(10.0));
    assert_eq!(Sphere::pick_root(&w, s(4.0), s(2.0), s(6.0)), Some(s(2.0)));
    assert_eq!(Sphere::pick_root(&w, s(4.0), s(0.5), s(6.0)), Some(s(6.0)));
    assert_eq!(Sphere::pick_root(&w, s(4.0), s(1.0), s(6.0)), Some(s(6.0)));
    assert_eq!(Sphere::pick_root(&w, s(4.0), s(0.5), s(10.0)), None);
    assert_eq!(Sphere::pick_root(&w, s(4.0), s(11.0), s(12.0)), None);
    assert_eq!(Sphere::pick_root(&w, s(0.0), s(3.0), s(3.0)), Some(s(3.0)));
    assert_eq!(Sphere::pick_root(&w, s(-0.5), s(2.0), s(6.0)), None);
    assert_eq!(Sphere::pick_root(&w, s(f32::NAN), s(f32::NAN), s(f32::NAN)), None);
    assert!(Sphere::has_root(s(0.0)));
    assert!(Sphere::has_root(s(-0.0)));
    assert!(!Sphere::has_root(s(-1e-30)));
    assert_eq!(sphere_hit([0.0, 3.0, -5.0], 1.0, [0.0; 3], [0.0, 0.0, -1.0], &window()), None);
}

#[test]
fn a_sphere_is_bounded_by_the_box_of_its_two_corners() {
    let (low, high) = (v([0.5, 1.5, 2.5]), v([1.5, 2.5, 3.5]));
    let (sizes, widened) = padding(&AABB::span(high, low));
    let sphere = Sphere::new(v([1.0, 2.0, 3.0]), s(0.5), 7, high, low, sizes, &widened);
    assert_eq!(sphere.get_aabb(), AABB::span(low, high));
    // a sphere without radius is bounded by a box of the least extent
    let point = v([1.0, 2.0, 3.0]);
    let (sizes, widened) = padding(&AABB::span(point, point));
    let speck = Sphere::new(point, s(0.0), 7, point, point, sizes, &widened);
    assert_eq!(speck.get_aabb(), widened);
    assert_eq!(speck.get_aabb().x, Interval::new(s(1.0 - 0.00005), s(1.0 + 0.00005)));
    assert_eq!(sphere.material, 7);
    assert_eq!(sphere.radius, s(0.5));
}

#[test]
fn the_middle_of_a_quad_has_the_coordinates_one_half() {
    let q = [-1.0, -1.0, -3.0];
    let u = [2.0, 0.0, 0.0];
    let ev = [0.0, 2.0, 0.0];
    let target = plus(q, plus(scale(u, 0.5), scale(ev, 0.5)));
    let hit = quad_hit(q, u, ev, [0.0; 3], unit(target), &window()).unwrap();
    assert_eq!(hit.uv, Vec2::new(s(0.5), s(0.5)));
    assert_eq!(f(hit.t), 3.0);
    assert_eq!(hit.position, v([0.0, 0.0, -3.0]));
    let outside = plus(q, plus(scale(u, 1.5), scale(ev, 0.5)));
    assert_eq!(quad_hit(q, u, ev, [0.0; 3], unit(outside), &window()), None);
}

#[test]
fn the_middle_of_a_slanted_quad_has_the_coordinates_one_half() {
    let q = [2.0, -4.0, -8.0];
    let u = [4.0, 0.0, 4.0];
    let ev = [0.0, 8.0, 0.0];
    let origin = [1.0, 1.0, 2.0];
    let target = plus(q, plus(scale(u, 0.5), scale(ev, 0.5)));
    let hit = quad_hit(q, u, ev, origin, unit(sub(target, origin)), &window()).unwrap();
    assert_eq!(hit.uv, Vec2::new(s(0.5), s(0.5)));
    let outside = plus(q, plus(scale(u, 1.5), scale(ev, 0.5)));
    assert_eq!(quad_hit(q, u, ev, origin, unit(sub(outside, origin)), &window()), None);
}

#[test]
fn the_rim_of_a_quad_belongs_to_it() {
    let mut record = HitRecord::new();
    assert!(Quad::is_interior(s(0.0), s(1.0), &mut record));
    assert_eq!(record.uv, Vec2::new(s(0.0), s(1.0)));
    assert!(Quad::is_interior(s(1.0), s(0.0), &mut record));
    assert_eq!(record.uv, Vec2::new(s(1.0), s(0.0)));
    assert!(Quad::is_interior(s(-0.0), s(0.25), &mut record));
    let kept = record;
    assert!(!Quad::is_interior(s(1.0000001), s(0.5), &mut record));
    assert!(!Quad::is_interior(s(0.5), s(-1e-20), &mut record));
    assert!(!Quad::is_interior(s(f32::NAN), s(0.5), &mut record));
    assert_eq!(record, kept);
}

#[test]
fn a_ray_along_the_plane_misses_the_quad() {
    assert!(Quad::is_parallel(s(0.0)));
    assert!(Quad::is_parallel(s(9.9e-7)));
    assert!(Quad::is_parallel(s(-9.9e-7)));
    assert!(!Quad::is_parallel(s(1e-6)));
    assert!(!Quad::is_parallel(s(-1e-6)));
    assert!(!Quad::is_parallel(s(f32::NAN)));
    let q = [-1.0, -1.0, -3.0];
    assert_eq!(quad_hit(q, [2.0, 0.0, 0.0], [0.0, 2.0, 0.0], [0.0; 3], [1.0, 0.0, 0.0], &window()), None);
    // behind the origin of the ray
    assert_eq!(quad_hit(q, [2.0, 0.0, 0.0], [0.0, 2.0, 0.0], [0.0; 3], [0.0, 0.0, 1.0], &window()), None);
}

#[test]
fn a_quad_is_bounded_by_the_box_of_its_corners() {
    let q = [1.0, 1.0, 1.0];
    let u = [2.0, 0.0, -1.0];
    let ev = [0.0, -3.0, 0.5];
    let corners = [v(q), v(plus(q, u)), v(plus(q, ev)), v(plus(plus(q, u), ev))];
    let span = Quad::span(corners[0], corners[1], corners[2], corners[3]);
    assert_eq!(span, AABB::span(v([1.0, -2.0, 0.0]), v([3.0, 1.0, 1.5])));
    let (sizes, widened) = padding(&span);
    let bbox = Quad::compute_aabb(corners[0], corners[1], corners[2], corners[3], sizes, &widened);
    assert_eq!(bbox, span);
}

#[test]
fn a_quad_in_a_coordinate_plane_gets_a_box_that_a_ray_can_pass() {
    // the quad lies in the plane z = -3: its span is flat there
    let corners = [v([-1.0, -1.0, -3.0]), v([1.0, -1.0, -3.0]), v([-1.0, 1.0, -3.0]), v([1.0, 1.0, -3.0])];
    let span = Quad::span(corners[0], corners[1], corners[2], corners[3]);
    assert_eq!(span.z, Interval::new(s(-3.0), s(-3.0)));
    let (sizes, widened) = padding(&span);
    let bbox = Quad::compute_aabb(corners[0], corners[1], corners[2], corners[3], sizes, &widened);
    assert_eq!(bbox.x, Interval::new(s(-1.0), s(1.0)));
    assert_eq!(bbox.y, Interval::new(s(-1.0), s(1.0)));
    assert_eq!(bbox.z, Interval::new(s(-3.0 - 0.00005), s(-3.0 + 0.00005)));
    // a ray along -z from the origin passes the padded box and not the flat one
    let slab = |i: Interval, origin: f32, direction: f32| pathtrace::aabb::Slab {
        t0: s((f(i.min) - origin) * (1.0 / direction)),
        t1: s((f(i.max) - origin) * (1.0 / direction)),
    };
    let pass = |b: &AABB| AABB::hit(slab(b.x, 0.0, 0.0), slab(b.y, 0.0, 0.0), slab(b.z, 0.0, -1.0), window());
    assert!(pass(&bbox));
    assert!(!pass(&span));
}

#[test]
fn a_box_has_six_faces_that_turn_outward() {
    let (low, high) = box_corners(v([3.0, 0.0, 5.0]), v([1.0, 4.0, 2.0]));
    assert_eq!(low, v([1.0, 0.0, 2.0]));
    assert_eq!(high, v([3.0, 4.0, 5.0]));
    let faces = create_box(low, high, v([2.0, 4.0, 3.0]));
    assert_eq!(faces[0], (v([1.0, 0.0, 5.0]), v([2.0, 0.0, 0.0]), v([0.0, 4.0, 0.0])));
    assert_eq!(faces[1], (v([3.0, 0.0, 5.0]), v([-0.0, -0.0, -3.0]), v([0.0, 4.0, 0.0])));
    assert_eq!(faces[2], (v([3.0, 0.0, 2.0]), v([-2.0, -0.0, -0.0]), v([0.0, 4.0, 0.0])));
    assert_eq!(faces[3], (v([1.0, 0.0, 2.0]), v([0.0, 0.0, 3.0]), v([0.0, 4.0, 0.0])));
    assert_eq!(faces[4], (v([1.0, 4.0, 5.0]), v([2.0, 0.0, 0.0]), v([-0.0, -0.0, -3.0])));
    assert_eq!(faces[5], (v([1.0, 0.0, 2.0]), v([2.0, 0.0, 0.0]), v([0.0, 0.0, 3.0])));
}

#[test]
fn a_medium_is_seen_between_entry_and_exit_within_the_window() {
    let w = Interval::new(s(1.0), s(10.0));
    assert_eq!(ConstantMedium::span(&w, s(2.0), s(5.0)), Some((s(2.0), s(5.0))));
    assert_eq!(ConstantMedium::span(&w, s(-3.0), s(5.0)), Some((s(1.0), s(5.0))));
    assert_eq!(ConstantMedium::span(&w, s(2.0), s(50.0)), Some((s(2.0), s(10.0))));
    assert_eq!(ConstantMedium::span(&w, s(-3.0), s(50.0)), Some((s(1.0), s(10.0))));
    assert_eq!(ConstantMedium::span(&w, s(11.0), s(12.0)), None);
    assert_eq!(ConstantMedium::span(&w, s(-5.0), s(0.5)), None);
    assert_eq!(ConstantMedium::span(&w, s(4.0), s(4.0)), None);
    // a window that begins behind the origin: the stretch begins at the origin
    let behind = Interval::new(s(-4.0), s(10.0));
    assert_eq!(ConstantMedium::span(&behind, s(-2.0), s(3.0)), Some((s(0.0), s(3.0))));
    assert_eq!(ConstantMedium::span(&behind, s(-9.0), s(3.0)), Some((s(0.0), s(3.0))));
}

#[test]
fn a_ray_scatters_in_a_medium_if_it_would_not_have_left_it() {
    assert!(ConstantMedium::scatters_within(s(1.0), s(2.0)));
    assert!(ConstantMedium::scatters_within(s(2.0), s(2.0)));
    assert!(!ConstantMedium::scatters_within(s(2.5), s(2.0)));
    assert!(!ConstantMedium::scatters_within(s(f32::INFINITY), s(2.0)));
    let medium = ConstantMedium::new(s(-100.0), 9);
    assert_eq!(medium.neg_inv_density, s(-100.0));
    let record = medium.record(s(2.5), v([1.0, 2.0, 3.0]), s(-0.6));
    assert_eq!(record.t, s(2.5));
    assert_eq!(record.position, v([1.0, 2.0, 3.0]));
    assert_eq!(record.material, Some(9));
    assert!(record.front_face);
    assert_eq!(record.normal, v([1.0, 0.0, 0.0]));
    let other = medium.record(s(2.5), v([1.0, 2.0, 3.0]), s(0.6));
    assert!(other.front_face);
    assert_eq!(other.normal, v([-1.0, -0.0, -0.0]));
}

#[test]
fn the_normal_is_turned_against_the_ray() {
    let mut record = HitRecord::new();
    record.t = s(3.0);
    record.material = Some(4);
    let out = v([0.0, 1.0, 0.0]);
    record.set_face_normal(s(-0.5), &out);
    assert!(record.front_face);
    assert_eq!(record.normal, out);
    record.set_face_normal(s(0.5), &out);
    assert!(!record.front_face);
    assert_eq!(record.normal, v([-0.0, -1.0, -0.0]));
    record.set_face_normal(s(0.0), &out);
    assert!(!record.front_face);
    record.set_face_normal(s(f32::NAN), &out);
    assert!(!record.front_face);
    assert_eq!(record.t, s(3.0));
    assert_eq!(record.material, Some(4));
    let fresh = HitRecord::new();
    assert_eq!(fresh.t, s(0.0));
    assert_eq!(fresh.material, None);
    assert!(!fresh.front_face);
}

fn flat_quad() -> Quad {
    let zero = v([0.0; 3]);
    Quad {
        q: v([-1.0, -1.0, -3.0]),
        u: v([2.0, 0.0, 0.0]),
        v: v([0.0, 2.0, 0.0]),
        normal: v([0.0, 0.0, 1.0]),
        d: s(-3.0),
        w: v([0.0, 0.0, 0.25]),
        material: 5,
        aabb: AABB::span(zero, zero),
        area: s(4.0),
    }
}

#[test]
fn a_quad_reports_every_field_of_its_hit() {
    let quad = flat_quad();
    let at = v([0.0, 0.0, -3.0]);
    let hit = quad.hit(&window(), s(-1.0), s(3.0), at, s(0.5), s(0.5)).unwrap();
    assert_eq!(
        hit,
        HitRecord {
            t: s(3.0),
            position: at,
            normal: v([0.0, 0.0, 1.0]),
            uv: Vec2::new(s(0.5), s(0.5)),
            material: Some(5),
            front_face: true,
        }
    );
    // from behind, the normal is turned round
    let back = quad.hit(&window(), s(1.0), s(3.0), at, s(0.25), s(1.0)).unwrap();
    assert!(!back.front_face);
    assert_eq!(back.normal, v([-0.0, -0.0, -1.0]));
    assert_eq!(back.uv, Vec2::new(s(0.25), s(1.0)));
    // parallel, outside the interval, off the quad
    assert_eq!(quad.hit(&window(), s(1e-7), s(3.0), at, s(0.5), s(0.5)), None);
    assert_eq!(quad.hit(&window(), s(-1.0), s(0.0005), at, s(0.5), s(0.5)), None);
    assert_eq!(quad.hit(&Interval::new(s(0.0), s(2.9)), s(-1.0), s(3.0), at, s(0.5), s(0.5)), None);
    assert_eq!(quad.hit(&window(), s(-1.0), s(3.0), at, s(1.5), s(0.5)), None);
    assert_eq!(quad.hit(&window(), s(-1.0), s(3.0), at, s(0.5), s(-0.5)), None);
    // the bounds of the interval are inside
    assert!(quad.hit(&Interval::new(s(3.0), s(3.0)), s(-1.0), s(3.0), at, s(0.0), s(1.0)).is_some());
}

#[test]
fn a_sphere_reports_every_field_of_its_hit() {
    let point = v([0.0, 0.0, -5.0]);
    let (sizes, widened) = padding(&AABB::span(v([-1.0, -1.0, -6.0]), v([1.0, 1.0, -4.0])));
    let sphere = Sphere::new(point, s(1.0), 3, v([-1.0, -1.0, -6.0]), v([1.0, 1.0, -4.0]), sizes, &widened);
    let out = v([0.0, 0.0, 1.0]);
    let uv = Vec2::new(s(0.25), s(0.5));
    let front = sphere.record(s(4.0), v([0.0, 0.0, -4.0]), out, s(-1.0), uv);
    assert_eq!(
        front,
        HitRecord {
            t: s(4.0),
            position: v([0.0, 0.0, -4.0]),
            normal: out,
            uv,
            material: Some(3),
            front_face: true,
        }
    );
    let inside = sphere.record(s(6.0), v([0.0, 0.0, -6.0]), v([0.0, 0.0, -1.0]), s(1.0), uv);
    assert!(!inside.front_face);
    assert_eq!(inside.normal, v([-0.0, -0.0, 1.0]));
    assert_eq!(inside.material, Some(3));
}
