//! Unit-tagged 3-vectors of fixed-point scalars.
//!
//! `Vector3<U>` carries a phantom unit tag `U` (see [`crate::units`]), so
//! vectors of different physical quantities cannot be mixed by accident.
//! Crossing from one quantity to another is always an explicit
//! [`Vector3::cast_unit`].  All arithmetic is checked fixed-point
//! arithmetic; each operation's exact rounded value is stated in its
//! contract.

use vstd::prelude::*;
use core::marker::PhantomData;
use crate::fx;
use crate::fx::fits;
use crate::fx::tdiv;
use crate::fx::SCALE;
use crate::fx::FX_MAX;

verus! {

/// A 3-vector of fixed-point scalars, tagged with the physical unit `U`.
#[derive(Debug, PartialEq, Eq)]
pub struct Vector3<U> {
    pub x: i64,
    pub y: i64,
    pub z: i64,
    pub unit: PhantomData<U>,
}

impl<U> Clone for Vector3<U> {
    /// An explicit componentwise copy.
    fn clone(&self) -> (r: Self)
        ensures
            r == *self,
    {
        Vector3 { x: self.x, y: self.y, z: self.z, unit: PhantomData }
    }
}

impl<U> Copy for Vector3<U> {

}

impl<U> Vector3<U> {
    /// All three components are in the scalar range.
    pub open spec fn wf(self) -> bool {
        fits(self.x as int) && fits(self.y as int) && fits(self.z as int)
    }

    /// The vector with the given components.
    pub open spec fn spec_new(x: int, y: int, z: int) -> Vector3<U> {
        Vector3 { x: x as i64, y: y as i64, z: z as i64, unit: PhantomData }
    }

    /// The zero vector.
    pub fn zero() -> (r: Vector3<U>)
        ensures
            r == Self::spec_new(0, 0, 0),
    {
        Vector3 { x: 0, y: 0, z: 0, unit: PhantomData }
    }

    /// Builds a vector from raw fixed-point components.
    pub fn new(x: i64, y: i64, z: i64) -> (r: Vector3<U>)
        ensures
            r.x == x && r.y == y && r.z == z,
    {
        Vector3 { x, y, z, unit: PhantomData }
    }

    /// Componentwise sum, when all three components stay in range.
    pub open spec fn spec_plus(self, other: Vector3<U>) -> Option<Vector3<U>> {
        if fits(self.x + other.x) && fits(self.y + other.y) && fits(self.z + other.z) {
            Some(Self::spec_new(self.x + other.x, self.y + other.y, self.z + other.z))
        } else {
            None
        }
    }

    /// Checked componentwise addition.
    pub fn plus(&self, other: &Vector3<U>) -> (r: Option<Vector3<U>>)
        ensures
            r == self.spec_plus(*other),
    {
        let x = match fx::fx_add(self.x, other.x) {
            Some(v) => v,
            None => {
                return None;
            },
        };
        let y = match fx::fx_add(self.y, other.y) {
            Some(v) => v,
            None => {
                return None;
            },
        };
        let z = match fx::fx_add(self.z, other.z) {
            Some(v) => v,
            None => {
                return None;
            },
        };
        Some(Vector3 { x, y, z, unit: PhantomData })
    }

    /// Componentwise difference, when all three components stay in range.
    pub open spec fn spec_minus(self, other: Vector3<U>) -> Option<Vector3<U>> {
        if fits(self.x - other.x) && fits(self.y - other.y) && fits(self.z - other.z) {
            Some(Self::spec_new(self.x - other.x, self.y - other.y, self.z - other.z))
        } else {
            None
        }
    }

    /// Checked componentwise subtraction.
    pub fn minus(&self, other: &Vector3<U>) -> (r: Option<Vector3<U>>)
        ensures
            r == self.spec_minus(*other),
    {
        let x = match fx::fx_sub(self.x, other.x) {
            Some(v) => v,
            None => {
                return None;
            },
        };
        let y = match fx::fx_sub(self.y, other.y) {
            Some(v) => v,
            None => {
                return None;
            },
        };
        let z = match fx::fx_sub(self.z, other.z) {
            Some(v) => v,
            None => {
                return None;
            },
        };
        Some(Vector3 { x, y, z, unit: PhantomData })
    }

    /// The componentwise negation.
    pub open spec fn spec_negate(self) -> Vector3<U> {
        Self::spec_new(-self.x as int, -self.y as int, -self.z as int)
    }

    /// Negation; total on well-formed vectors.
    pub fn negate(&self) -> (r: Vector3<U>)
        requires
            self.wf(),
        ensures
            r == self.spec_negate(),
            r.wf(),
    {
        Vector3 {
            x: fx::fx_neg(self.x),
            y: fx::fx_neg(self.y),
            z: fx::fx_neg(self.z),
            unit: PhantomData,
        }
    }

    /// Componentwise fixed-point scaling, when every rounded component
    /// stays in range.
    pub open spec fn spec_scale(self, s: i64) -> Option<Vector3<U>> {
        if fits(fx::fx_mul_v(self.x as int, s as int)) && fits(
            fx::fx_mul_v(self.y as int, s as int),
        ) && fits(fx::fx_mul_v(self.z as int, s as int)) {
            Some(
                Self::spec_new(
                    fx::fx_mul_v(self.x as int, s as int),
                    fx::fx_mul_v(self.y as int, s as int),
                    fx::fx_mul_v(self.z as int, s as int),
                ),
            )
        } else {
            None
        }
    }

    /// Checked scaling by a fixed-point scalar.
    pub fn scale(&self, s: i64) -> (r: Option<Vector3<U>>)
        requires
            self.wf(),
            fits(s as int),
        ensures
            r == self.spec_scale(s),
            r matches Some(v) ==> v.wf(),
    {
        let x = match fx::fx_mul(self.x, s) {
            Some(v) => v,
            None => {
                return None;
            },
        };
        let y = match fx::fx_mul(self.y, s) {
            Some(v) => v,
            None => {
                return None;
            },
        };
        let z = match fx::fx_mul(self.z, s) {
            Some(v) => v,
            None => {
                return None;
            },
        };
        Some(Vector3 { x, y, z, unit: PhantomData })
    }

    /// Componentwise halving, truncated toward zero.
    pub open spec fn spec_halved(self) -> Vector3<U> {
        Self::spec_new(
            fx::fx_half_v(self.x as int),
            fx::fx_half_v(self.y as int),
            fx::fx_half_v(self.z as int),
        )
    }

    /// Halving; total on well-formed vectors.
    pub fn halved(&self) -> (r: Vector3<U>)
        requires
            self.wf(),
        ensures
            r == self.spec_halved(),
            r.wf(),
    {
        Vector3 {
            x: fx::fx_half(self.x),
            y: fx::fx_half(self.y),
            z: fx::fx_half(self.z),
            unit: PhantomData,
        }
    }

    /// The fixed-point dot product: the exact sum of the componentwise
    /// products, truncated toward zero once, when it stays in range.
    pub open spec fn spec_dot<W>(self, other: Vector3<W>) -> Option<i64> {
        let s = self.x * other.x + self.y * other.y + self.z * other.z;
        if fits(tdiv(s, SCALE as int)) {
            Some(tdiv(s, SCALE as int) as i64)
        } else {
            None
        }
    }

    /// Checked dot product with a vector of any unit.
    pub fn dot<W>(&self, other: &Vector3<W>) -> (r: Option<i64>)
        requires
            self.wf(),
            other.wf(),
        ensures
            r == self.spec_dot(*other),
    {
        proof {
            fx::lemma_abs_mul_bound(self.x as int, other.x as int, FX_MAX as int, FX_MAX as int);
            fx::lemma_abs_mul_bound(self.y as int, other.y as int, FX_MAX as int, FX_MAX as int);
            fx::lemma_abs_mul_bound(self.z as int, other.z as int, FX_MAX as int, FX_MAX as int);
        }
        let px: i128 = (self.x as i128) * (other.x as i128);
        let py: i128 = (self.y as i128) * (other.y as i128);
        let pz: i128 = (self.z as i128) * (other.z as i128);
        let s: i128 = px + py + pz;
        let neg: bool = s < 0;
        let mag: u128 = if neg {
            (-s) as u128
        } else {
            s as u128
        };
        let q: u128 = mag / (SCALE as u128);
        proof {
            fx::lemma_tdiv_shrinks(s as int, SCALE as int);
            if neg {
                fx::lemma_tdiv_odd(-(s as int), SCALE as int);
            }
        }
        let t: i128 = if neg {
            -(q as i128)
        } else {
            q as i128
        };
        let lo: i128 = -(FX_MAX as i128);
        let hi: i128 = FX_MAX as i128;
        if lo <= t && t <= hi {
            Some(t as i64)
        } else {
            None
        }
    }

    /// Componentwise fixed-point division by a positive scalar, when
    /// every rounded component stays in range.
    pub open spec fn spec_div_scalar(self, s: i64) -> Option<Vector3<U>> {
        if fits(fx::fx_div_v(self.x as int, s as int)) && fits(
            fx::fx_div_v(self.y as int, s as int),
        ) && fits(fx::fx_div_v(self.z as int, s as int)) {
            Some(
                Self::spec_new(
                    fx::fx_div_v(self.x as int, s as int),
                    fx::fx_div_v(self.y as int, s as int),
                    fx::fx_div_v(self.z as int, s as int),
                ),
            )
        } else {
            None
        }
    }

    /// Checked division by a positive fixed-point scalar.
    pub fn div_scalar(&self, s: i64) -> (r: Option<Vector3<U>>)
        requires
            self.wf(),
            1 <= s,
        ensures
            r == self.spec_div_scalar(s),
            r matches Some(v) ==> v.wf(),
    {
        let x = match fx::fx_div(self.x, s) {
            Some(v) => v,
            None => {
                return None;
            },
        };
        let y = match fx::fx_div(self.y, s) {
            Some(v) => v,
            None => {
                return None;
            },
        };
        let z = match fx::fx_div(self.z, s) {
            Some(v) => v,
            None => {
                return None;
            },
        };
        Some(Vector3 { x, y, z, unit: PhantomData })
    }

    /// Tests at run time that all components are in the scalar range.
    pub fn check_wf(&self) -> (b: bool)
        ensures
            b == self.wf(),
    {
        let lo: i64 = -FX_MAX;
        lo <= self.x && self.x <= FX_MAX && lo <= self.y && self.y <= FX_MAX && lo <= self.z
            && self.z <= FX_MAX
    }

    /// Scaling is odd: scaling the negation gives the negated result,
    /// and the one leaves the range exactly when the other does.
    pub proof fn lemma_scale_odd(self, s: i64)
        requires
            self.wf(),
        ensures
            self.spec_negate().spec_scale(s) == match self.spec_scale(s) {
                Some(w) => Some(w.spec_negate()),
                None => None::<Vector3<U>>,
            },
    {
        assert((-self.x) * s == -(self.x * s)) by (nonlinear_arith);
        assert((-self.y) * s == -(self.y * s)) by (nonlinear_arith);
        assert((-self.z) * s == -(self.z * s)) by (nonlinear_arith);
        fx::lemma_tdiv_odd(self.x * s, SCALE as int);
        fx::lemma_tdiv_odd(self.y * s, SCALE as int);
        fx::lemma_tdiv_odd(self.z * s, SCALE as int);
    }

    /// Division by a positive scalar is odd in the vector.
    pub proof fn lemma_div_scalar_odd(self, s: i64)
        requires
            self.wf(),
            1 <= s,
        ensures
            self.spec_negate().spec_div_scalar(s) == match self.spec_div_scalar(s) {
                Some(w) => Some(w.spec_negate()),
                None => None::<Vector3<U>>,
            },
    {
        fx::lemma_tdiv_odd(self.x * SCALE, s as int);
        fx::lemma_tdiv_odd(self.y * SCALE, s as int);
        fx::lemma_tdiv_odd(self.z * SCALE, s as int);
    }

    /// Addition is odd: the sum of two negations is the negated sum, and
    /// it leaves the range exactly when the plain sum does.
    pub proof fn lemma_plus_odd(self, other: Vector3<U>)
        requires
            self.wf(),
            other.wf(),
        ensures
            self.spec_negate().spec_plus(other.spec_negate()) == match self.spec_plus(other) {
                Some(w) => Some(w.spec_negate()),
                None => None::<Vector3<U>>,
            },
    {
    }

    /// A dot product of a vector with itself is never negative.
    pub proof fn lemma_self_dot_nonneg(self)
        ensures
            self.spec_dot(self) matches Some(d) ==> d >= 0,
    {
        let s = self.x * self.x + self.y * self.y + self.z * self.z;
        assert(self.x * self.x >= 0) by (nonlinear_arith);
        assert(self.y * self.y >= 0) by (nonlinear_arith);
        assert(self.z * self.z >= 0) by (nonlinear_arith);
        fx::lemma_tdiv_nonneg(s, SCALE as int);
    }

    /// The same components under another unit tag.
    pub open spec fn spec_cast_unit<W>(self) -> Vector3<W> {
        Vector3 { x: self.x, y: self.y, z: self.z, unit: PhantomData }
    }

    /// Re-tags the vector with another unit; the components are unchanged.
    pub fn cast_unit<W>(&self) -> (r: Vector3<W>)
        ensures
            r == self.spec_cast_unit::<W>(),
            r.x == self.x && r.y == self.y && r.z == self.z,
    {
        Vector3 { x: self.x, y: self.y, z: self.z, unit: PhantomData }
    }
}

} // verus!
