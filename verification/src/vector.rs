//! Three-component vectors: the executable fixed-point type and its
//! unbounded mathematical model.

use vstd::prelude::*;
use crate::fixed::{fmul, fmul_spec, mag};

verus! {

/// Mathematical model of a vector: three unbounded integers, each in
/// fixed-point units of `1 / SCALE`.
pub ghost struct V3 {
    pub x: int,
    pub y: int,
    pub z: int,
}

/// The componentwise sum of two model vectors.
pub open spec fn v3_add(a: V3, b: V3) -> V3 {
    V3 { x: a.x + b.x, y: a.y + b.y, z: a.z + b.z }
}

/// The model vector with all components zero.
pub open spec fn v3_zero() -> V3 {
    V3 { x: 0, y: 0, z: 0 }
}

/// All three components of `v` have magnitude at most `b`.
pub open spec fn v3_bounded(v: V3, b: int) -> bool {
    mag(v.x) <= b && mag(v.y) <= b && mag(v.z) <= b
}

/// A vector of three fixed-point components: an `i64` component `c` stands
/// for the real value `c / SCALE`.
#[derive(Clone, Copy, Debug, PartialEq, Eq, Structural)]
pub struct Vector3D {
    pub x: i64,
    pub y: i64,
    pub z: i64,
}

impl View for Vector3D {
    type V = V3;

    open spec fn view(&self) -> V3 {
        V3 { x: self.x as int, y: self.y as int, z: self.z as int }
    }
}

impl Vector3D {
    /// The componentwise sum.
    pub fn plus(&self, other: &Vector3D) -> (r: Vector3D)
        requires
            i64::MIN <= self@.x + other@.x <= i64::MAX,
            i64::MIN <= self@.y + other@.y <= i64::MAX,
            i64::MIN <= self@.z + other@.z <= i64::MAX,
        ensures
            r@ == v3_add(self@, other@),
    {
        Vector3D { x: self.x + other.x, y: self.y + other.y, z: self.z + other.z }
    }

    /// The componentwise difference.
    pub fn minus(&self, other: &Vector3D) -> (r: Vector3D)
        requires
            i64::MIN <= self@.x - other@.x <= i64::MAX,
            i64::MIN <= self@.y - other@.y <= i64::MAX,
            i64::MIN <= self@.z - other@.z <= i64::MAX,
        ensures
            r@.x == self@.x - other@.x,
            r@.y == self@.y - other@.y,
            r@.z == self@.z - other@.z,
    {
        Vector3D { x: self.x - other.x, y: self.y - other.y, z: self.z - other.z }
    }

    /// The fixed-point scalar multiple: each component is rescaled by
    /// `s / SCALE`, truncated toward zero.
    pub fn scaled(&self, s: i64) -> (r: Vector3D)
        requires
            -(i64::MAX as int) <= fmul_spec(self@.x, s as int) <= i64::MAX as int,
            -(i64::MAX as int) <= fmul_spec(self@.y, s as int) <= i64::MAX as int,
            -(i64::MAX as int) <= fmul_spec(self@.z, s as int) <= i64::MAX as int,
        ensures
            r@.x == fmul_spec(self@.x, s as int),
            r@.y == fmul_spec(self@.y, s as int),
            r@.z == fmul_spec(self@.z, s as int),
    {
        Vector3D { x: fmul(self.x, s), y: fmul(self.y, s), z: fmul(self.z, s) }
    }
}

} // verus!
