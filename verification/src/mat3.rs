//! Matrices of three columns, as far as they are rearranged and not
//! computed with.
use vstd::prelude::*;
use crate::scalar::{Scalar, ONE_BITS};
use crate::vec3::Vec3;

verus! {

/// The pattern of 0.9: a normal that leans further than this along X gets
/// its basis from the Y axis instead.
pub const LEANING_BITS: u32 = 0x3f66_6666;

/// A matrix, held as its three columns.
#[derive(Debug, Clone, Copy)]
pub struct Mat3 {
    pub columns: [Vec3; 3],
}

impl Mat3 {
    /// The matrix whose rows are the columns of this one.
    pub open spec fn spec_transpose(self) -> [Vec3; 3] {
        [
            Vec3 { x: self.columns[0].x, y: self.columns[1].x, z: self.columns[2].x },
            Vec3 { x: self.columns[0].y, y: self.columns[1].y, z: self.columns[2].y },
            Vec3 { x: self.columns[0].z, y: self.columns[1].z, z: self.columns[2].z },
        ]
    }

    /// The matrix with ones on the diagonal and zeros elsewhere.
    pub fn identity() -> (m: Mat3)
        ensures
            m.columns[0] == (Vec3 {
                x: Scalar { bits: ONE_BITS },
                y: Scalar { bits: 0 },
                z: Scalar { bits: 0 },
            }),
            m.columns[1] == (Vec3 {
                x: Scalar { bits: 0 },
                y: Scalar { bits: ONE_BITS },
                z: Scalar { bits: 0 },
            }),
            m.columns[2] == (Vec3 {
                x: Scalar { bits: 0 },
                y: Scalar { bits: 0 },
                z: Scalar { bits: ONE_BITS },
            }),
    {
        let zero = Scalar::zero();
        let one = Scalar::one();
        Mat3 {
            columns: [Vec3::new(one, zero, zero), Vec3::new(zero, one, zero), Vec3::new(zero, zero, one)],
        }
    }

    /// The matrix of zeros.
    pub fn zero() -> (m: Mat3)
        ensures
            forall|i: int|
                0 <= i < 3 ==> (#[trigger] m.columns[i]) == (Vec3 {
                    x: Scalar { bits: 0 },
                    y: Scalar { bits: 0 },
                    z: Scalar { bits: 0 },
                }),
    {
        Mat3 { columns: [Vec3::zero(), Vec3::zero(), Vec3::zero()] }
    }

    /// The matrix whose rows are the columns of this one.
    pub fn transpose(&self) -> (m: Mat3)
        ensures
            m.columns@ == self.spec_transpose()@,
    {
        let m = Mat3 {
            columns: [
                Vec3::new(self.columns[0].x, self.columns[1].x, self.columns[2].x),
                Vec3::new(self.columns[0].y, self.columns[1].y, self.columns[2].y),
                Vec3::new(self.columns[0].z, self.columns[1].z, self.columns[2].z),
            ],
        };
        proof {
            assert(m.columns@ =~= self.spec_transpose()@);
        }
        m
    }

    /// The axis from which an orthonormal basis about a normal is begun: the
    /// Y axis where the normal leans along X by more than 0.9, else the X
    /// axis, so that the two are never parallel. `normal_x` is the X
    /// component of the normal at length one.
    pub fn basis_helper(normal_x: Scalar) -> (a: Vec3)
        ensures
            a == if (Scalar { bits: LEANING_BITS }).spec_lt(normal_x.spec_abs()) {
                Vec3 { x: Scalar { bits: 0 }, y: Scalar { bits: ONE_BITS }, z: Scalar { bits: 0 } }
            } else {
                Vec3 { x: Scalar { bits: ONE_BITS }, y: Scalar { bits: 0 }, z: Scalar { bits: 0 } }
            },
    {
        if normal_x.abs().gt(Scalar::from_bits(LEANING_BITS)) {
            Vec3::new(Scalar::zero(), Scalar::one(), Scalar::zero())
        } else {
            Vec3::new(Scalar::one(), Scalar::zero(), Scalar::zero())
        }
    }
}

} // verus!
