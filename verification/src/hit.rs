//! What an intersection test reports.
use vstd::prelude::*;
use crate::scalar::Scalar;
use crate::vec3::Vec3;

verus! {

/// A coordinate on a surface.
#[derive(Debug, Clone, Copy, PartialEq, Eq, Structural)]
pub struct Vec2 {
    pub x: Scalar,
    pub y: Scalar,
}

impl Vec2 {
    /// The coordinate with the given components.
    pub fn new(x: Scalar, y: Scalar) -> (v: Vec2)
        ensures
            v.x == x,
            v.y == y,
    {
        Vec2 { x, y }
    }

    /// The coordinate whose components are positive zero.
    pub fn zero() -> (v: Vec2)
        ensures
            v.x.bits == 0,
            v.y.bits == 0,
    {
        Vec2 { x: Scalar::zero(), y: Scalar::zero() }
    }
}

/// The result of one intersection test: the ray parameter of the hit, the
/// point, the surface normal turned against the ray, the surface
/// coordinate, the material of the surface as an index into the scene's
/// materials, and whether the ray came from outside.
#[derive(Debug, Clone, Copy, PartialEq, Eq, Structural)]
pub struct HitRecord {
    pub t: Scalar,
    pub position: Vec3,
    pub normal: Vec3,
    pub uv: Vec2,
    pub material: Option<usize>,
    pub front_face: bool,
}

impl HitRecord {
    /// The record before any test: all zero, no material, back face.
    pub open spec fn spec_new() -> HitRecord {
        let zero = Scalar { bits: 0 };
        let origin = Vec3 { x: zero, y: zero, z: zero };
        HitRecord {
            t: zero,
            position: origin,
            normal: origin,
            uv: Vec2 { x: zero, y: zero },
            material: None,
            front_face: false,
        }
    }

    /// The record before any test.
    pub fn new() -> (r: HitRecord)
        ensures
            r == HitRecord::spec_new(),
    {
        HitRecord {
            t: Scalar::zero(),
            position: Vec3::zero(),
            material: None,
            normal: Vec3::zero(),
            uv: Vec2::zero(),
            front_face: false,
        }
    }

    /// The material of the surface that was hit. Every hit names one: a
    /// record without a material is no hit.
    pub fn material_index(&self) -> (index: usize)
        requires
            self.material.is_some(),
        ensures
            self.material == Some(index),
    {
        match self.material {
            Some(index) => index,
            None => 0,
        }
    }

    /// Orients the normal against the ray. `direction_dot_normal` is the dot
    /// product of the ray's direction and the outward normal: where it is
    /// negative the ray comes from outside, the hit is on the front face and
    /// the outward normal is kept; elsewhere the normal is reversed.
    pub fn set_face_normal(&mut self, direction_dot_normal: Scalar, out_normal: &Vec3)
        ensures
            final(self).front_face == direction_dot_normal.spec_lt(Scalar { bits: 0 }),
            final(self).normal == if final(self).front_face {
                *out_normal
            } else {
                out_normal.spec_neg()
            },
            final(self).t == old(self).t,
            final(self).position == old(self).position,
            final(self).uv == old(self).uv,
            final(self).material == old(self).material,
    {
        self.front_face = direction_dot_normal.lt(Scalar::zero());
        self.normal = if self.front_face {
            *out_normal
        } else {
            out_normal.neg()
        };
    }
}

} // verus!
