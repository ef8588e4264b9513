//! Geometry primitives: the infinite plane and the sphere.
//!
//! Both are used as reflective boundaries for particles.  The sphere
//! exposes an inside test over the same truncated fixed-point arithmetic
//! the rest of the engine uses.

use vstd::prelude::*;
use crate::fx;
use crate::fx::tdiv;
use crate::fx::SCALE;
use crate::fx::FX_MAX;
use crate::vector::Vector3;

verus! {

/// An infinite plane; `normal` points into the permitted half-space.
#[derive(Debug, PartialEq, Eq)]
pub struct Plane<U> {
    pub position: Vector3<U>,
    pub normal: Vector3<U>,
}

impl<U> Clone for Plane<U> {
    /// An explicit fieldwise copy.
    fn clone(&self) -> (r: Self)
        ensures
            r == *self,
    {
        Plane { position: self.position, normal: self.normal }
    }
}

impl<U> Copy for Plane<U> {

}

/// A sphere of positive radius.
#[derive(Debug, PartialEq, Eq)]
pub struct Sphere<U> {
    pub center: Vector3<U>,
    pub radius: i64,
}

impl<U> Clone for Sphere<U> {
    /// An explicit fieldwise copy.
    fn clone(&self) -> (r: Self)
        ensures
            r == *self,
    {
        Sphere { center: self.center, radius: self.radius }
    }
}

impl<U> Copy for Sphere<U> {

}

impl<U> Plane<U> {
    /// A valid plane: components in range and a normal whose fixed-point
    /// squared length is positive (a zero-length normal is rejected at
    /// construction time).
    pub open spec fn wf(self) -> bool {
        &&& self.position.wf()
        &&& self.normal.wf()
        &&& self.normal.spec_dot(self.normal) matches Some(n2) && n2 >= 1
    }
}

impl<U> Sphere<U> {
    /// The exact squared distance (in raw units squared) between the
    /// center and a point.
    pub open spec fn spec_sq_dist(self, point: Vector3<U>) -> int {
        let dx = self.center.x - point.x;
        let dy = self.center.y - point.y;
        let dz = self.center.z - point.z;
        dx * dx + dy * dy + dz * dz
    }

    /// A valid sphere: center in range and a positive radius.
    pub open spec fn wf(self) -> bool {
        self.center.wf() && 1 <= self.radius <= FX_MAX
    }

    /// The point lies strictly inside the sphere: its truncated
    /// fixed-point squared distance from the center is below the
    /// truncated fixed-point square of the radius.
    pub open spec fn spec_is_inside(self, point: Vector3<U>) -> bool {
        tdiv(self.spec_sq_dist(point), SCALE as int) < tdiv(self.radius * self.radius, SCALE as int)
    }

    /// Tests whether a point lies strictly inside the sphere.
    pub fn is_inside(&self, point: &Vector3<U>) -> (r: bool)
        requires
            self.wf(),
            point.wf(),
        ensures
            r == self.spec_is_inside(*point),
    {
        let dx: i128 = self.center.x as i128 - point.x as i128;
        let dy: i128 = self.center.y as i128 - point.y as i128;
        let dz: i128 = self.center.z as i128 - point.z as i128;
        proof {
            let m: int = 2 * FX_MAX as int;
            fx::lemma_abs_mul_bound(dx as int, dx as int, m, m);
            fx::lemma_abs_mul_bound(dy as int, dy as int, m, m);
            fx::lemma_abs_mul_bound(dz as int, dz as int, m, m);
            assert(dx as int * dx as int >= 0) by (nonlinear_arith);
            assert(dy as int * dy as int >= 0) by (nonlinear_arith);
            assert(dz as int * dz as int >= 0) by (nonlinear_arith);
            fx::lemma_abs_mul_bound(self.radius as int, self.radius as int, FX_MAX as int, FX_MAX as int);
            assert(self.radius as int * self.radius as int >= 0) by (nonlinear_arith)
                requires
                    self.radius as int >= 1,
            ;
        }
        let sx: u128 = (dx * dx) as u128;
        let sy: u128 = (dy * dy) as u128;
        let sz: u128 = (dz * dz) as u128;
        let sq: u128 = sx + sy + sz;
        let q: u128 = sq / (SCALE as u128);
        let r2: u128 = (self.radius as u128) * (self.radius as u128);
        let qr: u128 = r2 / (SCALE as u128);
        q < qr
    }
}

} // verus!
