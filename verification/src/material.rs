//! How surfaces and media answer light: which materials scatter, which
//! emit, and the choices made on the way.
use vstd::prelude::*;
use crate::scalar::{Scalar, ONE_BITS};
use crate::vec3::Vec3;

verus! {

/// The pattern of 1/(2 pi): the density with which a diffuse surface
/// scatters into any direction.
pub const LAMBERTIAN_PDF_BITS: u32 = 0x3e22_f983;

/// The pattern of 1/(4 pi): the density of the uniform distribution on the
/// sphere.
pub const SPHERE_PDF_BITS: u32 = 0x3da2_f983;

/// The kinds of material. A texture is named by its index among the
/// textures of the scene.
#[allow(inconsistent_fields)]
#[derive(Debug, Clone, Copy, PartialEq, Eq, Structural)]
pub enum Material {
    /// A diffuse surface with a textured albedo.
    Lambertian { albedo: usize },
    /// A mirror with a colour and a roughness.
    Metal { albedo: Vec3, fuzz: Scalar },
    /// Glass.
    Dielectric { refraction_index: Scalar },
    /// A light; it does not scatter.
    DiffuseLight { emit: usize },
    /// The phase function of a medium: scatters evenly into all directions.
    Isotropic { albedo: usize },
}

/// What becomes of a ray that hits a material, before any sampling: the ray
/// is absorbed, it always scatters, or it scatters unless the sampled
/// direction points into the surface.
#[derive(Debug, Clone, Copy, PartialEq, Eq, Structural)]
pub enum Scattering {
    Never,
    Always,
    IfOutward,
}

impl Material {
    /// Whether and when the material scatters.
    pub open spec fn spec_scattering(self) -> Scattering {
        match self {
            Material::Lambertian { .. } => Scattering::Always,
            Material::Metal { .. } => Scattering::IfOutward,
            Material::Dielectric { .. } => Scattering::Always,
            Material::DiffuseLight { .. } => Scattering::Never,
            Material::Isotropic { .. } => Scattering::Always,
        }
    }

    /// The density with which the material scatters into a given direction;
    /// zero for materials that keep no density of their own.
    pub open spec fn spec_scatter_pdf(self) -> Scalar {
        match self {
            Material::Lambertian { .. } => Scalar { bits: LAMBERTIAN_PDF_BITS },
            Material::Isotropic { .. } => Scalar { bits: SPHERE_PDF_BITS },
            _ => Scalar { bits: 0 },
        }
    }

    /// The texture from which the material emits, if it emits at all.
    pub open spec fn spec_emitter(self) -> Option<usize> {
        match self {
            Material::DiffuseLight { emit } => Some(emit),
            _ => None,
        }
    }

    /// Whether two materials are of the same kind, whatever their colours.
    pub open spec fn spec_same_kind(&self, other: &Material) -> bool {
        match (*self, *other) {
            (Material::Lambertian { .. }, Material::Lambertian { .. }) => true,
            (Material::Metal { .. }, Material::Metal { .. }) => true,
            (Material::Dielectric { .. }, Material::Dielectric { .. }) => true,
            (Material::DiffuseLight { .. }, Material::DiffuseLight { .. }) => true,
            (Material::Isotropic { .. }, Material::Isotropic { .. }) => true,
            _ => false,
        }
    }

    /// Whether two materials are of the same kind, whatever their colours.
    #[verifier::when_used_as_spec(spec_same_kind)]
    pub fn same_kind(&self, other: &Material) -> (r: bool)
        ensures
            r == self.spec_same_kind(other),
    {
        match (self, other) {
            (Material::Lambertian { .. }, Material::Lambertian { .. }) => true,
            (Material::Metal { .. }, Material::Metal { .. }) => true,
            (Material::Dielectric { .. }, Material::Dielectric { .. }) => true,
            (Material::DiffuseLight { .. }, Material::DiffuseLight { .. }) => true,
            (Material::Isotropic { .. }, Material::Isotropic { .. }) => true,
            _ => false,
        }
    }

    /// Whether and when the material scatters.
    pub fn scattering(&self) -> (r: Scattering)
        ensures
            r == self.spec_scattering(),
    {
        match self {
            Material::Lambertian { .. } => Scattering::Always,
            Material::Metal { .. } => Scattering::IfOutward,
            Material::Dielectric { .. } => Scattering::Always,
            Material::DiffuseLight { .. } => Scattering::Never,
            Material::Isotropic { .. } => Scattering::Always,
        }
    }

    /// Whether a ray scatters, given for a metal the dot product of the
    /// sampled direction and the surface normal: a metal scatters only where
    /// that is positive, a light never, every other material always.
    pub fn scatter(&self, scattered_dot_normal: Scalar) -> (r: bool)
        ensures
            r == match self.spec_scattering() {
                Scattering::Never => false,
                Scattering::Always => true,
                Scattering::IfOutward => (Scalar { bits: 0 }).spec_lt(scattered_dot_normal),
            },
    {
        match self.scattering() {
            Scattering::Never => false,
            Scattering::Always => true,
            Scattering::IfOutward => scattered_dot_normal.gt(Scalar::zero()),
        }
    }

    /// The density with which the material scatters into a given direction.
    pub fn scatter_pdf(&self) -> (r: Scalar)
        ensures
            r == self.spec_scatter_pdf(),
    {
        match self {
            Material::Lambertian { .. } => Scalar::from_bits(LAMBERTIAN_PDF_BITS),
            Material::Isotropic { .. } => Scalar::from_bits(SPHERE_PDF_BITS),
            _ => Scalar::zero(),
        }
    }

    /// The radiance that the material emits at a hit. Only a light emits,
    /// and only from its front face: there the result is `sampled`, the
    /// value of its texture at the hit; everywhere else it is zero.
    pub fn emitted(&self, front_face: bool, sampled: Vec3) -> (r: Vec3)
        ensures
            r == if self.spec_emitter().is_some() && front_face {
                sampled
            } else {
                Vec3 { x: Scalar { bits: 0 }, y: Scalar { bits: 0 }, z: Scalar { bits: 0 } }
            },
    {
        match self {
            Material::DiffuseLight { .. } => {
                if !front_face {
                    Vec3::zero()
                } else {
                    sampled
                }
            },
            _ => Vec3::zero(),
        }
    }
}

/// Glass.
pub struct Dielectric {
    pub refraction_index: Scalar,
}

impl Dielectric {
    /// The ratio of the refractive indices across the surface: on the front
    /// face the reciprocal of the index, handed in as `inverse`, on the back
    /// face the index itself.
    pub fn refraction_ratio(&self, front_face: bool, inverse: Scalar) -> (r: Scalar)
        ensures
            r == if front_face {
                inverse
            } else {
                self.refraction_index
            },
    {
        if front_face {
            inverse
        } else {
            self.refraction_index
        }
    }

    /// Whether the ray cannot be refracted and must be reflected: the ratio
    /// times the sine of the angle of incidence exceeds one. Where this
    /// holds, neither the reflectance nor a draw is needed.
    pub fn cannot_refract(ratio_times_sine: Scalar) -> (r: bool)
        ensures
            r == (Scalar { bits: ONE_BITS }).spec_lt(ratio_times_sine),
    {
        ratio_times_sine.gt(Scalar::one())
    }

    /// Whether the ray is reflected rather than refracted: it must be where
    /// the ratio times the sine of the angle of incidence exceeds one, and
    /// it is by chance where the reflectance exceeds a uniform draw.
    pub fn reflects(ratio_times_sine: Scalar, reflectance: Scalar, draw: Scalar) -> (r: bool)
        ensures
            r == ((Scalar { bits: ONE_BITS }).spec_lt(ratio_times_sine) || draw.spec_lt(
                reflectance,
            )),
    {
        Dielectric::cannot_refract(ratio_times_sine) || reflectance.gt(draw)
    }
}

/// A light never scatters, whatever direction is sampled, and emits nothing
/// from its back face.
pub proof fn lemma_light_only_emits(emit: usize, dot: Scalar, sampled: Vec3)
    ensures
        (Material::DiffuseLight { emit }).spec_scattering() == Scattering::Never,
        (Material::DiffuseLight { emit }).spec_emitter() == Some(emit),
        (Material::DiffuseLight { emit }).spec_scatter_pdf().bits == 0,
{
}

} // verus!
