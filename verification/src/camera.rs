//! The camera and the integrator: where rays start, and what a path
//! contributes at each bounce.
use vstd::prelude::*;
use crate::scalar::Scalar;
use crate::vec3::Vec3;

verus! {

/// The configuration of a render: the position of the eye, the mapping from
/// pixels to points of the viewport, the number of samples per pixel with
/// the side of the grid they are stratified on, the limit on bounces, the
/// lens, and the radiance of the background.
#[derive(Debug, Clone, Copy, PartialEq, Eq, Structural)]
pub struct Camera {
    pub camera_position: Vec3,
    pub pixel_delta_x: Vec3,
    pub pixel_delta_y: Vec3,
    pub pixel_origin: Vec3,
    pub samples_per_pixel: u32,
    pub sqrt_spp: u32,
    pub recip_sqrt_spp: Scalar,
    pub pixel_samples_scale: Scalar,
    pub max_ray_bounces: u32,
    pub defocus_angle: Scalar,
    pub defocus_disk_u: Vec3,
    pub defocus_disk_v: Vec3,
    pub background_color: Vec3,
}

/// The number of samples that a camera draws for each pixel.
pub const SAMPLES_PER_PIXEL: u32 = 1000;

/// The number of bounces after which a path gets no more radiance.
pub const MAX_RAY_BOUNCES: u32 = 50;

/// What one bounce of a path contributes.
#[derive(Debug, Clone, Copy, PartialEq, Eq, Structural)]
pub enum Bounce {
    /// The path ends here with this radiance.
    Done(Vec3),
    /// The path goes on: its radiance is `emission` plus the weighted
    /// radiance of the scattered ray, which is bounce number `next`.
    Scattered { emission: Vec3, next: u32 },
}

/// The side of the largest square grid with at most `samples` cells.
pub open spec fn is_grid_side(samples: u32, side: u32) -> bool {
    side * side <= samples < (side + 1) * (side + 1)
}

/// The side of the grid on which `samples` samples per pixel are
/// stratified: the square root, rounded down.
pub fn grid_side(samples: u32) -> (side: u32)
    ensures
        is_grid_side(samples, side),
{
    let n: u64 = samples as u64;
    let mut side: u64 = 0;
    while (side + 1) * (side + 1) <= n
        invariant
            side * side <= n,
            n == samples,
            side <= 0xffff,
            (side + 1) * (side + 1) <= 0x1_0000_0000,
        decreases n - side * side,
    {
        proof {
            assert((side + 1) * (side + 1) <= 0xffff_ffff);
            assert(side + 1 <= 0xffff) by (nonlinear_arith)
                requires
                    (side + 1) * (side + 1) <= 0xffff_ffff,
                    0 <= side,
            ;
            assert((side + 1) * (side + 1) > side * side) by (nonlinear_arith)
                requires
                    0 <= side,
            ;
            assert((side + 2) * (side + 2) <= 0x1_0000_0000) by (nonlinear_arith)
                requires
                    0 <= side + 1 <= 0xffff,
            ;
        }
        side = side + 1;
    }
    side as u32
}

impl Camera {
    /// What the path contributes at bounce `bounce_idx`. At the limit of
    /// bounces, and at every bounce beyond it, the path ends with no
    /// radiance. A ray that hits nothing ends
    /// with the radiance of the background. A ray that hits a surface, with
    /// `hit` holding what the surface emits towards it and whether it
    /// scatters, ends with the emission alone if it does not scatter, and
    /// goes on to the next bounce if it does.
    pub open spec fn spec_ray_color(self, bounce_idx: u32, hit: Option<(Vec3, bool)>) -> Bounce {
        let zero = Scalar { bits: 0 };
        if bounce_idx >= self.max_ray_bounces {
            Bounce::Done(Vec3 { x: zero, y: zero, z: zero })
        } else {
            match hit {
                None => Bounce::Done(self.background_color),
                Some((emission, scatters)) => if scatters {
                    Bounce::Scattered { emission, next: (bounce_idx + 1) as u32 }
                } else {
                    Bounce::Done(emission)
                },
            }
        }
    }

    /// The number of bounces that a path at bounce `bounce_idx` may still
    /// make.
    pub open spec fn bounces_left(self, bounce_idx: u32) -> nat {
        if bounce_idx >= self.max_ray_bounces {
            0
        } else {
            (self.max_ray_bounces - bounce_idx) as nat
        }
    }

    /// The camera with the given position and the given mapping from pixels
    /// to points of the viewport, and with the settings that every camera
    /// starts with: 1000 samples for each pixel, stratified on the largest
    /// square grid that they fill, at most 50 bounces, a lens that is a
    /// point, and a black background. `recip_sqrt_spp` is one over the square
    /// root of the number of samples and `pixel_samples_scale` one over that
    /// number; the two defocus vectors span the lens.
    pub fn new(
        camera_position: Vec3,
        pixel_delta_x: Vec3,
        pixel_delta_y: Vec3,
        pixel_origin: Vec3,
        recip_sqrt_spp: Scalar,
        pixel_samples_scale: Scalar,
        defocus_disk_u: Vec3,
        defocus_disk_v: Vec3,
    ) -> (c: Camera)
        ensures
            c.camera_position == camera_position,
            c.pixel_delta_x == pixel_delta_x,
            c.pixel_delta_y == pixel_delta_y,
            c.pixel_origin == pixel_origin,
            c.recip_sqrt_spp == recip_sqrt_spp,
            c.pixel_samples_scale == pixel_samples_scale,
            c.defocus_disk_u == defocus_disk_u,
            c.defocus_disk_v == defocus_disk_v,
            c.samples_per_pixel == 1000,
            is_grid_side(1000, c.sqrt_spp),
            c.sqrt_spp == 31,
            c.max_ray_bounces == 50,
            c.defocus_angle.bits == 0,
            c.background_color == (Vec3 {
                x: Scalar { bits: 0 },
                y: Scalar { bits: 0 },
                z: Scalar { bits: 0 },
            }),
    {
        let side = grid_side(SAMPLES_PER_PIXEL);
        proof {
            assert(side == 31) by (nonlinear_arith)
                requires
                    side * side <= 1000 < (side + 1) * (side + 1),
                    side >= 0,
            ;
        }
        Camera {
            camera_position,
            pixel_delta_x,
            pixel_delta_y,
            pixel_origin,
            samples_per_pixel: SAMPLES_PER_PIXEL,
            sqrt_spp: side,
            recip_sqrt_spp,
            pixel_samples_scale,
            max_ray_bounces: MAX_RAY_BOUNCES,
            defocus_angle: Scalar::zero(),
            defocus_disk_u,
            defocus_disk_v,
            background_color: Vec3::zero(),
        }
    }

    /// The cell of the grid in which sample number `sample` of a pixel is
    /// drawn: the cells are taken row by row, and again from the first once
    /// all were taken.
    pub fn stratum(&self, sample: u32) -> (cell: (u32, u32))
        requires
            self.sqrt_spp >= 1,
        ensures
            cell.0 == sample % self.sqrt_spp,
            cell.1 == (sample / self.sqrt_spp) % self.sqrt_spp,
            cell.0 < self.sqrt_spp,
            cell.1 < self.sqrt_spp,
    {
        (sample % self.sqrt_spp, (sample / self.sqrt_spp) % self.sqrt_spp)
    }

    /// Sets the radiance of the background.
    pub fn set_background_color(&mut self, color: &Vec3)
        ensures
            *final(self) == (Camera { background_color: *color, ..*old(self) }),
    {
        self.background_color = *color;
    }

    /// Whether a path has used up its bounces and gets no radiance: it has
    /// reached the limit or gone beyond it.
    pub fn exhausted(&self, bounce_idx: u32) -> (r: bool)
        ensures
            r == (bounce_idx >= self.max_ray_bounces),
            r == (self.bounces_left(bounce_idx) == 0),
    {
        bounce_idx >= self.max_ray_bounces
    }

    /// What the path contributes at bounce `bounce_idx`, given what its ray
    /// has hit. At or beyond the limit that is nothing, whatever was hit; a
    /// path that goes on has one bounce less left.
    pub fn ray_color(&self, bounce_idx: u32, hit: Option<(Vec3, bool)>) -> (r: Bounce)
        ensures
            r == self.spec_ray_color(bounce_idx, hit),
            bounce_idx >= self.max_ray_bounces ==> r == Bounce::Done(
                Vec3 { x: Scalar { bits: 0 }, y: Scalar { bits: 0 }, z: Scalar { bits: 0 } },
            ),
            r matches Bounce::Scattered { next, .. } ==> next == bounce_idx + 1
                && self.bounces_left(next) + 1 == self.bounces_left(bounce_idx),
    {
        if bounce_idx >= self.max_ray_bounces {
            return Bounce::Done(Vec3::zero());
        }
        match hit {
            None => Bounce::Done(self.background_color),
            Some((emission, scatters)) => {
                if scatters {
                    Bounce::Scattered { emission, next: bounce_idx + 1 }
                } else {
                    Bounce::Done(emission)
                }
            },
        }
    }

    /// Where a ray starts: at the eye while the lens is a point, else at
    /// `disk_sample`, a point sampled on the lens.
    pub fn ray_origin(&self, disk_sample: Vec3) -> (r: Vec3)
        ensures
            r == if self.defocus_angle.spec_le(Scalar { bits: 0 }) {
                self.camera_position
            } else {
                disk_sample
            },
    {
        if self.defocus_angle.le(Scalar::zero()) {
            self.camera_position
        } else {
            disk_sample
        }
    }
}

/// A path that hits a surface which does not scatter gets exactly what the
/// surface emits, at any bounce below the limit; and no path goes beyond
/// the limit.
pub proof fn lemma_emission_alone(camera: Camera, bounce_idx: u32, emission: Vec3)
    requires
        bounce_idx < camera.max_ray_bounces,
    ensures
        camera.spec_ray_color(bounce_idx, Some((emission, false))) == Bounce::Done(emission),
        camera.spec_ray_color(bounce_idx, Some((emission, true))) == (Bounce::Scattered {
            emission,
            next: (bounce_idx + 1) as u32,
        }),
        bounce_idx + 1 <= camera.max_ray_bounces,
{
}

/// At the limit of bounces and at every depth beyond it, a path gets no
/// radiance, whatever its ray has hit; and below the limit a path that goes
/// on has one bounce less left, so that no path bounces more often than the
/// limit allows.
pub proof fn lemma_paths_end(camera: Camera, bounce_idx: u32, hit: Option<(Vec3, bool)>)
    ensures
        bounce_idx >= camera.max_ray_bounces ==> camera.spec_ray_color(bounce_idx, hit)
            == Bounce::Done(
            Vec3 { x: Scalar { bits: 0 }, y: Scalar { bits: 0 }, z: Scalar { bits: 0 } },
        ),
        camera.spec_ray_color(bounce_idx, hit) matches Bounce::Scattered { next, .. }
            ==> camera.bounces_left(next) + 1 == camera.bounces_left(bounce_idx),
        camera.bounces_left(bounce_idx) <= camera.max_ray_bounces,
{
}

} // verus!
