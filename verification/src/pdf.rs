//! Densities of the directions that the integrator samples.
use vstd::prelude::*;
use crate::material::SPHERE_PDF_BITS;
use crate::scalar::Scalar;

verus! {

/// The uniform distribution on the sphere.
#[derive(Debug, Clone, Copy, PartialEq, Eq, Structural)]
pub struct SpherePDF;

/// The cosine-weighted distribution on the hemisphere about a normal.
#[derive(Debug, Clone, Copy, PartialEq, Eq, Structural)]
pub struct CosinePDF;

impl SpherePDF {
    /// The density of any direction: 1/(4 pi).
    pub fn value(&self) -> (r: Scalar)
        ensures
            r.bits == SPHERE_PDF_BITS,
    {
        Scalar::from_bits(SPHERE_PDF_BITS)
    }
}

impl CosinePDF {
    /// The density of a direction, given the cosine of its angle to the
    /// normal divided by pi: that quotient where it is positive, and zero
    /// below the horizon.
    pub fn value(cosine_over_pi: Scalar) -> (r: Scalar)
        ensures
            r == (Scalar { bits: 0 }).spec_max(cosine_over_pi),
            !cosine_over_pi.spec_is_nan() ==> (Scalar { bits: 0 }).spec_le(r),
    {
        Scalar::zero().max(cosine_over_pi)
    }
}

} // verus!
