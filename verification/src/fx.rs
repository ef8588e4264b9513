//! Fixed-point scalar arithmetic.
//!
//! Every kinematic quantity in this crate is a scaled integer: an `i64`
//! holding `round(value * SCALE)` units, so that `SCALE` units stand for
//! `1.0`.  All operations truncate toward zero and report overflow
//! explicitly, which keeps every simulation step exact, deterministic and
//! fully specified.
//!
//! A scalar is kept inside `[-FX_MAX, FX_MAX]`; intermediate products are
//! formed in 128-bit integers, which the bound makes safe.

use vstd::prelude::*;
use vstd::arithmetic::div_mod::lemma_div_pos_is_pos;
use vstd::arithmetic::div_mod::lemma_div_nonincreasing;

verus! {

/// Number of fixed-point units that stand for the scalar value 1.0.
pub const SCALE: i64 = 1_000_000_000;

/// Largest magnitude (in units) a scalar may take: 2^62.
pub const FX_MAX: i64 = 4_611_686_018_427_387_904;

/// A mathematical value is representable when its magnitude stays within
/// the scalar range.
pub open spec fn fits(v: int) -> bool {
    -FX_MAX <= v <= FX_MAX
}

/// Division truncated toward zero (machine division), defined for
/// positive divisors.
pub open spec fn tdiv(a: int, b: int) -> int {
    if a >= 0 {
        a / b
    } else {
        -((-a) / b)
    }
}

/// The exact value of a fixed-point product before the range check.
pub open spec fn fx_mul_v(a: int, b: int) -> int {
    tdiv(a * b, SCALE as int)
}

/// The exact value of a fixed-point quotient before the range check.
pub open spec fn fx_div_v(a: int, b: int) -> int {
    tdiv(a * SCALE, b)
}

/// The exact value of halving, truncated toward zero.
pub open spec fn fx_half_v(a: int) -> int {
    tdiv(a, 2)
}

/// The checked sum: `None` exactly when the result leaves the range.
pub open spec fn fx_add_c(a: i64, b: i64) -> Option<i64> {
    if fits(a + b) {
        Some((a + b) as i64)
    } else {
        None
    }
}

/// The checked difference: `None` exactly when the result leaves the range.
pub open spec fn fx_sub_c(a: i64, b: i64) -> Option<i64> {
    if fits(a - b) {
        Some((a - b) as i64)
    } else {
        None
    }
}

/// The checked product: `None` exactly when the rounded result leaves the
/// range.
pub open spec fn fx_mul_c(a: i64, b: i64) -> Option<i64> {
    if fits(fx_mul_v(a as int, b as int)) {
        Some(fx_mul_v(a as int, b as int) as i64)
    } else {
        None
    }
}

/// The checked quotient: `None` exactly when the rounded result leaves the
/// range.
pub open spec fn fx_div_c(a: i64, b: i64) -> Option<i64> {
    if fits(fx_div_v(a as int, b as int)) {
        Some(fx_div_v(a as int, b as int) as i64)
    } else {
        None
    }
}

/// The value of the fixed-point square root of a scalar in `[0, FX_MAX]`.
pub open spec fn fx_sqrt_v(a: i64) -> i64 {
    isqrt(a * SCALE) as i64
}

/// Truncating division is odd in its dividend.
pub proof fn lemma_tdiv_odd(a: int, b: int)
    requires
        b >= 1,
    ensures
        tdiv(-a, b) == -tdiv(a, b),
{
    if a == 0 {
    } else if a > 0 {
        assert(tdiv(-a, b) == -((a) / b));
    } else {
        assert(tdiv(a, b) == -((-a) / b));
    }
}

/// A quotient of a nonnegative dividend by a positive divisor is nonnegative.
pub proof fn lemma_tdiv_nonneg(a: int, b: int)
    requires
        a >= 0,
        b >= 1,
    ensures
        tdiv(a, b) >= 0,
{
    if a > 0 {
        lemma_div_pos_is_pos(a, b);
    } else {
        vstd::arithmetic::div_mod::lemma_div_of0(b);
    }
}

/// Truncating division never grows the magnitude.
pub proof fn lemma_tdiv_shrinks(a: int, b: int)
    requires
        b >= 1,
    ensures
        -abs(a) <= tdiv(a, b) <= abs(a),
{
    if a >= 0 {
        lemma_tdiv_nonneg(a, b);
        lemma_div_nonincreasing(a, b);
    } else {
        lemma_tdiv_nonneg(-a, b);
        lemma_div_nonincreasing(-a, b);
    }
}

/// Division of an exact multiple is exact.
pub proof fn lemma_tdiv_exact(q: int, b: int)
    requires
        b >= 1,
    ensures
        tdiv(q * b, b) == q,
{
    if q >= 0 {
        vstd::arithmetic::div_mod::lemma_div_multiples_vanish(q, b);
        assert(q * b == b * q) by (nonlinear_arith);
        assert(q * b >= 0) by (nonlinear_arith)
            requires
                q >= 0,
                b >= 1,
        ;
    } else {
        vstd::arithmetic::div_mod::lemma_div_multiples_vanish(-q, b);
        assert(-(q * b) == b * (-q)) by (nonlinear_arith);
        assert(q * b < 0) by (nonlinear_arith)
            requires
                q < 0,
                b >= 1,
        ;
    }
}

/// Magnitude of a mathematical integer.
pub open spec fn abs(a: int) -> int {
    if a >= 0 {
        a
    } else {
        -a
    }
}

/// Bound on a product from bounds on its factors.
pub proof fn lemma_abs_mul_bound(a: int, b: int, m: int, n: int)
    requires
        -m <= a <= m,
        -n <= b <= n,
        0 <= m,
        0 <= n,
    ensures
        -(m * n) <= a * b <= m * n,
{
    assert(-(m * n) <= a * b <= m * n) by (nonlinear_arith)
        requires
            -m <= a <= m,
            -n <= b <= n,
            0 <= m,
            0 <= n,
    ;
}

/// Checked fixed-point addition.
pub fn fx_add(a: i64, b: i64) -> (r: Option<i64>)
    ensures
        fits(a + b) ==> r == Some((a + b) as i64),
        !fits(a + b) ==> r is None,
{
    let s: i128 = a as i128 + b as i128;
    let lo: i128 = -(FX_MAX as i128);
    let hi: i128 = FX_MAX as i128;
    if lo <= s && s <= hi {
        Some(s as i64)
    } else {
        None
    }
}

/// Checked fixed-point subtraction.
pub fn fx_sub(a: i64, b: i64) -> (r: Option<i64>)
    ensures
        fits(a - b) ==> r == Some((a - b) as i64),
        !fits(a - b) ==> r is None,
{
    let s: i128 = a as i128 - b as i128;
    let lo: i128 = -(FX_MAX as i128);
    let hi: i128 = FX_MAX as i128;
    if lo <= s && s <= hi {
        Some(s as i64)
    } else {
        None
    }
}

/// Negation; total on the scalar range.
pub fn fx_neg(a: i64) -> (r: i64)
    requires
        fits(a as int),
    ensures
        r == -a,
{
    -a
}

/// Halving, truncated toward zero; total on the scalar range.
pub fn fx_half(a: i64) -> (r: i64)
    requires
        fits(a as int),
    ensures
        r == fx_half_v(a as int),
        fits(r as int),
{
    if a >= 0 {
        let q: u64 = (a as u64) / 2;
        proof {
            lemma_tdiv_shrinks(a as int, 2);
        }
        q as i64
    } else {
        let m: u128 = (-(a as i128)) as u128;
        let q: u128 = m / 2;
        proof {
            lemma_tdiv_odd(-(a as int), 2);
            lemma_tdiv_shrinks(a as int, 2);
        }
        (-(q as i128)) as i64
    }
}

/// Checked fixed-point multiplication: the exact product of the two
/// scalars, truncated toward zero to the nearest unit.
pub fn fx_mul(a: i64, b: i64) -> (r: Option<i64>)
    requires
        fits(a as int),
        fits(b as int),
    ensures
        fits(fx_mul_v(a as int, b as int)) ==> r == Some(fx_mul_v(a as int, b as int) as i64),
        !fits(fx_mul_v(a as int, b as int)) ==> r is None,
{
    proof {
        lemma_abs_mul_bound(a as int, b as int, FX_MAX as int, FX_MAX as int);
    }
    let p: i128 = (a as i128) * (b as i128);
    let neg: bool = p < 0;
    let mag: u128 = if neg {
        (-p) as u128
    } else {
        p as u128
    };
    let q: u128 = mag / (SCALE as u128);
    proof {
        lemma_tdiv_shrinks(p as int, SCALE as int);
        if neg {
            lemma_tdiv_odd(-(p as int), SCALE as int);
        }
    }
    let t: i128 = if neg {
        -(q as i128)
    } else {
        q as i128
    };
    let lo: i128 = -(FX_MAX as i128);
    let hi: i128 = FX_MAX as i128;
    if lo <= t && t <= hi {
        Some(t as i64)
    } else {
        None
    }
}

/// Checked fixed-point division: the exact quotient of the two scalars,
/// truncated toward zero to the nearest unit.  The divisor must be
/// positive; callers test it first and name the degenerate case themselves.
pub fn fx_div(a: i64, b: i64) -> (r: Option<i64>)
    requires
        fits(a as int),
        1 <= b,
    ensures
        fits(fx_div_v(a as int, b as int)) ==> r == Some(fx_div_v(a as int, b as int) as i64),
        !fits(fx_div_v(a as int, b as int)) ==> r is None,
{
    proof {
        lemma_abs_mul_bound(a as int, SCALE as int, FX_MAX as int, SCALE as int);
    }
    let p: i128 = (a as i128) * (SCALE as i128);
    let neg: bool = p < 0;
    let mag: u128 = if neg {
        (-p) as u128
    } else {
        p as u128
    };
    let q: u128 = mag / (b as u128);
    proof {
        lemma_tdiv_shrinks(p as int, b as int);
        if neg {
            lemma_tdiv_odd(-(p as int), b as int);
        }
    }
    let t: i128 = if neg {
        -(q as i128)
    } else {
        q as i128
    };
    let lo: i128 = -(FX_MAX as i128);
    let hi: i128 = FX_MAX as i128;
    if lo <= t && t <= hi {
        Some(t as i64)
    } else {
        None
    }
}

/// `r` is the integer square root of `x`.
pub open spec fn is_isqrt(x: int, r: int) -> bool {
    0 <= r && r * r <= x && x < (r + 1) * (r + 1)
}

/// The integer square root: the unique `r >= 0` with
/// `r * r <= x < (r + 1) * (r + 1)`.
pub open spec fn isqrt(x: int) -> int {
    choose|r: int| is_isqrt(x, r)
}

/// Every nonnegative integer has an integer square root.
pub proof fn lemma_isqrt_exists(x: int)
    requires
        0 <= x,
    ensures
        is_isqrt(x, isqrt(x)),
    decreases x,
{
    if x == 0 {
        assert(is_isqrt(0, 0));
    } else {
        lemma_isqrt_exists(x - 1);
        let r0 = isqrt(x - 1);
        if (r0 + 1) * (r0 + 1) <= x {
            assert(x - 1 < (r0 + 1) * (r0 + 1));
            assert(x == (r0 + 1) * (r0 + 1));
            assert((r0 + 1 + 1) * (r0 + 1 + 1) > x) by (nonlinear_arith)
                requires
                    0 <= r0,
                    x == (r0 + 1) * (r0 + 1),
            ;
            assert(is_isqrt(x, r0 + 1));
        } else {
            assert(is_isqrt(x, r0));
        }
    }
    assert(exists|r: int| is_isqrt(x, r));
}

/// The integer square root is unique.
pub proof fn lemma_isqrt_is(x: int, r: int)
    requires
        0 <= x,
        is_isqrt(x, r),
    ensures
        isqrt(x) == r,
{
    lemma_isqrt_exists(x);
    let s = isqrt(x);
    if s < r {
        assert((s + 1) * (s + 1) <= r * r) by (nonlinear_arith)
            requires
                0 <= s,
                s + 1 <= r,
        ;
    } else if r < s {
        assert((r + 1) * (r + 1) <= s * s) by (nonlinear_arith)
            requires
                0 <= r,
                r + 1 <= s,
        ;
    }
}

/// The fixed-point square root of a scalar is itself in the scalar
/// range, characterized by `is_isqrt`, and positive for positive input.
pub proof fn lemma_fx_sqrt_v_bounds(a: i64)
    requires
        0 <= a <= FX_MAX,
    ensures
        0 <= fx_sqrt_v(a) <= FX_MAX,
        fx_sqrt_v(a) as int == isqrt(a * SCALE),
        is_isqrt(a * SCALE, fx_sqrt_v(a) as int),
        a >= 1 ==> fx_sqrt_v(a) >= 1,
{
    lemma_abs_mul_bound(a as int, SCALE as int, FX_MAX as int, SCALE as int);
    lemma_isqrt_exists(a * SCALE);
    let ri = isqrt(a * SCALE);
    assert(ri * ri <= a * SCALE);
    if ri > FX_MAX as int {
        assert((FX_MAX as int + 1) * (FX_MAX as int + 1) <= ri * ri) by (nonlinear_arith)
            requires
                FX_MAX as int + 1 <= ri,
        ;
        assert((FX_MAX as int + 1) * (FX_MAX as int + 1) > (FX_MAX as int) * (SCALE as int));
    }
    if a >= 1 && ri == 0 {
        assert(a * SCALE < (0 + 1) * (0 + 1));
        assert(a * SCALE >= SCALE);
    }
}

/// Integer square root of a raw 128-bit value, by bisection.
pub fn isqrt_u128(x: u128) -> (r: u128)
    requires
        (x as int) < 0x40000000000000000000000000000000,
    ensures
        r as int == isqrt(x as int),
        is_isqrt(x as int, r as int),
{
    let mut lo: u128 = 0;
    let mut hi: u128 = 0x8000000000000000;
    proof {
        assert((hi as int) * (hi as int) == 0x40000000000000000000000000000000);
    }
    while lo + 1 < hi
        invariant
            lo < hi,
            hi <= 0x8000000000000000,
            (lo as int) * (lo as int) <= x as int,
            (x as int) < (hi as int) * (hi as int),
        decreases hi - lo,
    {
        let mid: u128 = lo + (hi - lo) / 2;
        proof {
            assert(lo < mid < hi);
            assert((mid as int) * (mid as int) < 0x100000000000000000000000000000000) by (nonlinear_arith)
                requires
                    0 <= (mid as int) < 0x8000000000000001,
            ;
        }
        if mid * mid <= x {
            lo = mid;
        } else {
            hi = mid;
        }
    }
    proof {
        assert(hi == lo + 1);
        lemma_isqrt_is(x as int, lo as int);
    }
    lo
}

/// The scaled square root: `isqrt(a * SCALE)` is the fixed-point square
/// root of the scalar `a`, truncated toward zero to the nearest unit.
pub fn fx_sqrt(a: i64) -> (r: i64)
    requires
        0 <= a,
        fits(a as int),
    ensures
        r as int == isqrt(a * SCALE),
        r == fx_sqrt_v(a),
        is_isqrt(a * SCALE, r as int),
        0 <= r <= FX_MAX,
        a >= 1 ==> r >= 1,
{
    proof {
        lemma_abs_mul_bound(a as int, SCALE as int, FX_MAX as int, SCALE as int);
        assert((FX_MAX as int) * (SCALE as int) < 0x40000000000000000000000000000000);
    }
    let x: u128 = (a as u128) * (SCALE as u128);
    let r: u128 = isqrt_u128(x);
    proof {
        let ri = r as int;
        assert(ri * ri <= x as int);
        if ri > FX_MAX as int {
            assert((FX_MAX as int + 1) * (FX_MAX as int + 1) <= ri * ri) by (nonlinear_arith)
                requires
                    FX_MAX as int + 1 <= ri,
            ;
            assert((FX_MAX as int + 1) * (FX_MAX as int + 1) > (FX_MAX as int) * (SCALE as int));
        }
        if a >= 1 && ri == 0 {
            assert(a * SCALE < (0 + 1) * (0 + 1));
            assert(a * SCALE >= SCALE);
        }
    }
    r as i64
}

} // verus!
