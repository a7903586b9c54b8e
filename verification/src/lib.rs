//! The exact core of a path tracer: bounding volumes, nearest-hit search,
//! scattering rules and the partition of an image among workers.
//!
//! The library decides; it does not compute. Numbers are held as the bit
//! patterns of single-precision values ([`scalar::Scalar`]), which it
//! compares, selects and negates exactly. Sums, products, roots and random
//! draws are made by the caller and handed in. Where a decision needs the
//! outcome of arithmetic in the middle, the work is a conversation: the
//! library names the next question, the caller answers it. So the search of
//! a scene ([`entity::Scan`], [`bvh::Traversal`]) asks whether a ray passes a
//! box or where it hits a primitive, and the construction of the hierarchy
//! ([`builder::BvhBuilder`]) asks for the extents of a box.
//!
//! What is proved of the decisions stands beside them: that the union of
//! boxes covers both, that the hierarchy finds the same nearest hit as the
//! flat list, that the ranges of the workers tile the framebuffer.
use vstd::prelude::*;

pub mod scalar;
pub mod vec3;
pub mod mat3;
pub mod ray;
pub mod interval;
pub mod aabb;
pub mod render;
pub mod bitmap;
pub mod hit;
pub mod search;
pub mod entity;
pub mod bvh;
pub mod builder;
pub mod sphere;
pub mod quad;
pub mod constant_medium;
pub mod material;
pub mod pdf;
pub mod camera;
pub mod rand;
pub mod texture;
pub mod perlin_noise;
