//! The lattice of gradient noise: three random permutations of the bytes,
//! and the gradient they select for each lattice point.
use vstd::prelude::*;
use vstd::seq_lib::*;
use rand::seq::SliceRandom;
use crate::vec3::Vec3;

verus! {

/// The number of gradients, and the length of each permutation.
pub const POINT_COUNT: usize = 256;

/// The gradients and the permutations that select among them.
#[derive(Debug)]
pub struct PerlinNoise {
    pub rand_vec: Vec<Vec3>,
    pub perm_x: Vec<u8>,
    pub perm_y: Vec<u8>,
    pub perm_z: Vec<u8>,
}

/// The bytes in ascending order.
pub open spec fn all_bytes() -> Seq<u8> {
    Seq::new(256, |i: int| i as u8)
}

/// Whether `perm` holds every byte exactly once.
pub open spec fn is_permutation(perm: Seq<u8>) -> bool {
    perm.to_multiset() == all_bytes().to_multiset()
}

/// Shuffles the bytes in place with `SliceRandom::shuffle` of the crate
/// `rand`, on the generator of the current thread. The order that results is
/// random; the contract claims what holds of every outcome: the same bytes,
/// each as often as before.
#[verifier::external_body]
fn shuffle(bytes: &mut Vec<u8>)
    ensures
        final(bytes)@.to_multiset() == old(bytes)@.to_multiset(),
{
    bytes.shuffle(&mut rand::thread_rng());
}

impl PerlinNoise {
    /// There are 256 gradients, and each permutation holds every byte once.
    pub open spec fn well_formed(&self) -> bool {
        &&& self.rand_vec@.len() == POINT_COUNT
        &&& is_permutation(self.perm_x@)
        &&& is_permutation(self.perm_y@)
        &&& is_permutation(self.perm_z@)
    }

    /// The index of the gradient at the lattice point `(i, j, k)`: the
    /// entries of the three permutations at the low eight bits of the
    /// coordinates, combined by exclusive or.
    pub open spec fn spec_gradient_index(&self, i: i32, j: i32, k: i32) -> int {
        (self.perm_x@[(i & 255) as int] ^ self.perm_y@[(j & 255) as int] ^ self.perm_z@[(k
            & 255) as int]) as int
    }

    /// A random permutation of the bytes.
    pub fn generate_permutation() -> (perm: Vec<u8>)
        ensures
            is_permutation(perm@),
            perm@.len() == POINT_COUNT,
    {
        let mut perm: Vec<u8> = Vec::new();
        let mut i: usize = 0;
        while i < POINT_COUNT
            invariant
                i <= POINT_COUNT,
                perm@.len() == i,
                forall|k: int| 0 <= k < i ==> perm@[k] == k as u8,
            decreases POINT_COUNT - i,
        {
            perm.push(i as u8);
            i = i + 1;
        }
        proof {
            assert(perm@ =~= all_bytes());
        }
        shuffle(&mut perm);
        proof {
            perm@.to_multiset_ensures();
            all_bytes().to_multiset_ensures();
        }
        perm
    }

    /// The noise with the given 256 gradients and three fresh permutations.
    pub fn new(rand_vec: Vec<Vec3>) -> (noise: PerlinNoise)
        requires
            rand_vec@.len() == POINT_COUNT,
        ensures
            noise.well_formed(),
            noise.rand_vec == rand_vec,
    {
        PerlinNoise {
            rand_vec,
            perm_x: PerlinNoise::generate_permutation(),
            perm_y: PerlinNoise::generate_permutation(),
            perm_z: PerlinNoise::generate_permutation(),
        }
    }

    /// The gradient at the lattice point `(i, j, k)`.
    pub fn gradient(&self, i: i32, j: i32, k: i32) -> (g: Vec3)
        requires
            self.well_formed(),
        ensures
            0 <= self.spec_gradient_index(i, j, k) < POINT_COUNT,
            g == self.rand_vec@[self.spec_gradient_index(i, j, k)],
    {
        proof {
            self.perm_x@.to_multiset_ensures();
            self.perm_y@.to_multiset_ensures();
            self.perm_z@.to_multiset_ensures();
            all_bytes().to_multiset_ensures();
        }
        let xi: i32 = i & 255;
        let yi: i32 = j & 255;
        let zi: i32 = k & 255;
        assert(0 <= xi < 256) by (bit_vector)
            requires
                xi == i & 255,
        ;
        assert(0 <= yi < 256) by (bit_vector)
            requires
                yi == j & 255,
        ;
        assert(0 <= zi < 256) by (bit_vector)
            requires
                zi == k & 255,
        ;
        let a: u8 = self.perm_x[xi as usize];
        let b: u8 = self.perm_y[yi as usize];
        let c: u8 = self.perm_z[zi as usize];
        let index: u8 = a ^ b ^ c;
        self.rand_vec[index as usize]
    }
}

} // verus!
