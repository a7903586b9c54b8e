use pathtrace::camera::{Bounce, Camera};
use pathtrace::hit::HitRecord;
use pathtrace::interval::Interval;
use pathtrace::material::{Dielectric, Material, Scattering};
use pathtrace::pdf::{CosinePDF, SpherePDF};
use pathtrace::quad::Quad;
use pathtrace::scalar::Scalar;
use pathtrace::vec3::Vec3;

fn s(x: f32) -> Scalar {
    Scalar::from_bits(x.to_bits())
}

fn f(x: Scalar) -> f32 {
    f32::from_bits(x.to_bits())
}

fn v(p: [f32; 3]) -> Vec3 {
    Vec3::new(s(p[0]), s(p[1]), s(p[2]))
}

fn camera(max_ray_bounces: u32, background: [f32; 3]) -> Camera {
    Camera {
        camera_position: v([0.0, 0.0, 0.0]),
        pixel_delta_x: v([0.01, 0.0, 0.0]),
        pixel_delta_y: v([0.0, -0.01, 0.0]),
        pixel_origin: v([-4.0, 3.0, -10.0]),
        samples_per_pixel: 1000,
        sqrt_spp: 31,
        recip_sqrt_spp: s(1.0 / 1000f32.sqrt()),
        pixel_samples_scale: s(0.001),
        max_ray_bounces,
        defocus_angle: s(0.0),
        defocus_disk_u: v([0.0; 3]),
        defocus_disk_v: v([0.0; 3]),
        background_color: v(background),
    }
}

#[test]
fn materials_scatter_as_their_kind_says() {
    let lambertian = Material::Lambertian { albedo: 0 };
    let metal = Material::Metal { albedo: v([0.7, 0.6, 0.5]), fuzz: s(0.0) };
    let glass = Material::Dielectric { refraction_index: s(1.5) };
    let light = Material::DiffuseLight { emit: 1 };
    let fog = Material::Isotropic { albedo: 2 };
    assert_eq!(lambertian.scattering(), Scattering::Always);
    assert_eq!(metal.scattering(), Scattering::IfOutward);
    assert_eq!(glass.scattering(), Scattering::Always);
    assert_eq!(light.scattering(), Scattering::Never);
    assert_eq!(fog.scattering(), Scattering::Always);
    for dot in [-1.0f32, 0.0, 1.0, f32::NAN] {
        assert!(lambertian.scatter(s(dot)));
        assert!(glass.scatter(s(dot)));
        assert!(fog.scatter(s(dot)));
        assert!(!light.scatter(s(dot)));
        assert_eq!(metal.scatter(s(dot)), dot > 0.0);
    }
    assert!(lambertian.same_kind(&Material::Lambertian { albedo: 9 }));
    assert!(metal.same_kind(&Material::Metal { albedo: v([0.0; 3]), fuzz: s(1.0) }));
    assert!(!metal.same_kind(&glass));
    assert!(!light.same_kind(&fog));
    assert!(metal.scatter(s(1e-30)));
    assert!(!metal.scatter(s(-0.0)));
}

#[test]
fn scattering_densities_are_those_of_the_distributions() {
    let pi = std::f32::consts::PI;
    assert_eq!(f(Material::Lambertian { albedo: 0 }.scatter_pdf()), 1.0 / (2.0 * pi));
    assert_eq!(f(Material::Isotropic { albedo: 0 }.scatter_pdf()), 1.0 / (4.0 * pi));
    assert_eq!(f(Material::DiffuseLight { emit: 0 }.scatter_pdf()), 0.0);
    assert_eq!(f(Material::Dielectric { refraction_index: s(1.5) }.scatter_pdf()), 0.0);
    assert_eq!(f(Material::Metal { albedo: v([1.0; 3]), fuzz: s(0.1) }.scatter_pdf()), 0.0);
    assert_eq!(f(SpherePDF.value()), 1.0 / (4.0 * pi));
    assert_eq!(f(CosinePDF::value(s(0.5 / pi))), 0.5 / pi);
    assert_eq!(f(CosinePDF::value(s(-0.5 / pi))), 0.0);
    assert_eq!(f(CosinePDF::value(s(0.0))), 0.0);
    assert_eq!(f(CosinePDF::value(s(f32::NAN))), 0.0);
}

#[test]
fn only_the_front_of_a_light_emits() {
    let glow = v([4.0, 4.0, 4.0]);
    let light = Material::DiffuseLight { emit: 0 };
    assert_eq!(light.emitted(true, glow), glow);
    assert_eq!(light.emitted(false, glow), Vec3::zero());
    for other in [
        Material::Lambertian { albedo: 0 },
        Material::Metal { albedo: glow, fuzz: s(0.3) },
        Material::Dielectric { refraction_index: s(1.5) },
        Material::Isotropic { albedo: 0 },
    ] {
        assert_eq!(other.emitted(true, glow), Vec3::zero());
        assert_eq!(other.emitted(false, glow), Vec3::zero());
    }
}

#[test]
fn glass_reflects_when_it_must_and_else_by_chance() {
    // beyond the critical angle
    assert!(Dielectric::cannot_refract(s(1.2)));
    assert!(Dielectric::cannot_refract(s(1.0000001)));
    assert!(!Dielectric::cannot_refract(s(1.0)));
    assert!(!Dielectric::cannot_refract(s(0.8)));
    assert!(!Dielectric::cannot_refract(s(f32::NAN)));
    assert!(Dielectric::reflects(s(1.2), s(0.0), s(0.99)));
    // below it, the draw decides
    assert!(Dielectric::reflects(s(0.8), s(0.3), s(0.2)));
    assert!(!Dielectric::reflects(s(0.8), s(0.3), s(0.3)));
    assert!(!Dielectric::reflects(s(0.8), s(0.3), s(0.7)));
    assert!(!Dielectric::reflects(s(1.0), s(0.0), s(0.0)));
    let glass = Dielectric { refraction_index: s(1.5) };
    assert_eq!(glass.refraction_ratio(true, s(1.0 / 1.5)), s(1.0 / 1.5));
    assert_eq!(glass.refraction_ratio(false, s(1.0 / 1.5)), s(1.5));
}

#[test]
fn a_path_ends_at_the_limit_on_a_miss_or_on_a_surface_that_absorbs() {
    let cam = camera(50, [0.7, 0.8, 1.0]);
    let glow = v([1.0, 2.0, 3.0]);
    assert!(cam.exhausted(50));
    assert!(!cam.exhausted(49));
    assert_eq!(cam.ray_color(50, None), Bounce::Done(Vec3::zero()));
    assert_eq!(cam.ray_color(50, Some((glow, true))), Bounce::Done(Vec3::zero()));
    // beyond the limit as at it
    assert!(cam.exhausted(51));
    assert!(cam.exhausted(u32::MAX));
    assert_eq!(cam.ray_color(51, None), Bounce::Done(Vec3::zero()));
    assert_eq!(cam.ray_color(51, Some((glow, true))), Bounce::Done(Vec3::zero()));
    assert_eq!(cam.ray_color(u32::MAX, Some((glow, false))), Bounce::Done(Vec3::zero()));
    assert_eq!(cam.ray_color(0, None), Bounce::Done(v([0.7, 0.8, 1.0])));
    assert_eq!(cam.ray_color(49, None), Bounce::Done(v([0.7, 0.8, 1.0])));
    assert_eq!(cam.ray_color(3, Some((glow, false))), Bounce::Done(glow));
    assert_eq!(cam.ray_color(3, Some((glow, true))), Bounce::Scattered { emission: glow, next: 4 });
    assert_eq!(cam.ray_color(49, Some((glow, true))), Bounce::Scattered { emission: glow, next: 50 });
}

#[test]
fn a_ray_at_a_lone_light_returns_exactly_what_the_light_emits() {
    // a light of 2 by 2 at z = -3, seen from the origin, no background,
    // one bounce allowed
    let cam = camera(1, [0.0, 0.0, 0.0]);
    let glow = v([15.0, 15.0, 15.0]);
    let light = Material::DiffuseLight { emit: 0 };
    let normal = [0.0f32, 0.0, 1.0];
    let direction = [0.0f32, 0.0, -1.0];
    let denom = normal[2] * direction[2];
    assert!(!Quad::is_parallel(s(denom)));
    let t = (-3.0 - 0.0) / denom;
    assert!(Interval::new(s(0.001), s(f32::MAX)).contains(s(t)));
    let mut record = HitRecord::new();
    assert!(Quad::is_interior(s(0.5), s(0.5), &mut record));
    record.t = s(t);
    record.material = Some(0);
    record.set_face_normal(s(denom), &v(normal));
    assert!(record.front_face);
    assert_eq!(record.material_index(), 0);
    let emission = light.emitted(record.front_face, glow);
    let scatters = light.scatter(s(0.0));
    assert_eq!(cam.ray_color(0, Some((emission, scatters))), Bounce::Done(glow));
    // seen from behind, the same light is dark
    let mut back = record;
    back.set_face_normal(s(-denom), &v(normal));
    let dark = light.emitted(back.front_face, glow);
    assert_eq!(cam.ray_color(0, Some((dark, scatters))), Bounce::Done(Vec3::zero()));
}

#[test]
fn rays_start_at_the_eye_unless_the_lens_is_open() {
    let mut cam = camera(50, [0.0; 3]);
    cam.camera_position = v([13.0, 2.0, 3.0]);
    let sample = v([13.1, 2.0, 2.9]);
    assert_eq!(cam.ray_origin(sample), v([13.0, 2.0, 3.0]));
    cam.defocus_angle = s(-1.0);
    assert_eq!(cam.ray_origin(sample), v([13.0, 2.0, 3.0]));
    cam.defocus_angle = s(0.6);
    assert_eq!(cam.ray_origin(sample), sample);
    assert_eq!(cam.stratum(0), (0, 0));
    assert_eq!(cam.stratum(30), (30, 0));
    assert_eq!(cam.stratum(31), (0, 1));
    assert_eq!(cam.stratum(960), (30, 30));
    assert_eq!(cam.stratum(961), (0, 0));
    assert_eq!(cam.stratum(999), (7, 1));
    let before = cam;
    cam.set_background_color(&v([0.7, 0.8, 1.0]));
    assert_eq!(cam.background_color, v([0.7, 0.8, 1.0]));
    assert_eq!(cam.camera_position, before.camera_position);
    assert_eq!(cam.max_ray_bounces, before.max_ray_bounces);
}

#[test]
fn a_new_camera_has_the_settings_that_every_camera_starts_with() {
    let cam = Camera::new(
        v([13.0, 2.0, 3.0]),
        v([0.01, 0.0, 0.0]),
        v([0.0, -0.01, 0.0]),
        v([-4.0, 3.0, -10.0]),
        s(1.0 / 1000f32.sqrt()),
        s(0.001),
        v([0.0; 3]),
        v([0.0; 3]),
    );
    assert_eq!(cam.camera_position, v([13.0, 2.0, 3.0]));
    assert_eq!(cam.pixel_delta_x, v([0.01, 0.0, 0.0]));
    assert_eq!(cam.pixel_delta_y, v([0.0, -0.01, 0.0]));
    assert_eq!(cam.pixel_origin, v([-4.0, 3.0, -10.0]));
    assert_eq!(cam.samples_per_pixel, 1000);
    assert_eq!(cam.sqrt_spp, 31);
    assert_eq!(cam.max_ray_bounces, 50);
    assert_eq!(cam.defocus_angle, s(0.0));
    assert_eq!(cam.background_color, Vec3::zero());
    assert_eq!(cam.pixel_samples_scale, s(0.001));
    assert_eq!(cam.ray_color(50, None), Bounce::Done(Vec3::zero()));
    assert_eq!(cam.ray_color(49, None), Bounce::Done(Vec3::zero()));
    assert_eq!(cam.ray_origin(v([1.0, 1.0, 1.0])), v([13.0, 2.0, 3.0]));
}
