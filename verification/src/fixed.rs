//! Exact fixed-point scalar arithmetic.
//!
//! A scalar is an `i64` holding the real value times `FX_ONE` (2^16).
//! Every operation saturates at the `i64` range, so each function is total
//! and its result is pinned down exactly by a spec function.

use vstd::prelude::*;

verus! {

/// Number of raw units per 1.0.
pub const FX_ONE: i64 = 65536;

/// Clamp an unbounded integer into the `i64` range.
pub open spec fn fx_clamp(x: int) -> int {
    if x > i64::MAX as int {
        i64::MAX as int
    } else if x < i64::MIN as int {
        i64::MIN as int
    } else {
        x
    }
}

/// Absolute value.
pub open spec fn fx_abs(x: int) -> int {
    if x >= 0 {
        x
    } else {
        -x
    }
}

/// Division truncated toward zero, as the machine division does it.
pub open spec fn fx_tdiv(p: int, d: int) -> int
    recommends
        d != 0,
{
    let q = fx_abs(p) / fx_abs(d);
    if (p >= 0) == (d >= 0) {
        q
    } else {
        -q
    }
}

/// Saturating sum of two scalars.
pub open spec fn fx_add_s(a: int, b: int) -> int {
    fx_clamp(a + b)
}

/// Saturating difference of two scalars.
pub open spec fn fx_sub_s(a: int, b: int) -> int {
    fx_clamp(a - b)
}

/// Saturating negation of a scalar.
pub open spec fn fx_neg_s(a: int) -> int {
    fx_clamp(-a)
}

/// Saturating fixed-point product: the real product, truncated toward zero
/// at the scale, clamped into range.
pub open spec fn fx_mul_s(a: int, b: int) -> int {
    fx_clamp(fx_tdiv(a * b, FX_ONE as int))
}

/// Saturating fixed-point quotient.
pub open spec fn fx_div_s(a: int, b: int) -> int
    recommends
        b != 0,
{
    fx_clamp(fx_tdiv(a * (FX_ONE as int), b))
}

/// Clamp an `i128` into the `i64` range.
fn clamp_i128(x: i128) -> (r: i64)
    ensures
        r as int == fx_clamp(x as int),
{
    if x > i64::MAX as i128 {
        i64::MAX
    } else if x < i64::MIN as i128 {
        i64::MIN
    } else {
        x as i64
    }
}

/// Saturating addition.
pub fn fx_add(a: i64, b: i64) -> (r: i64)
    ensures
        r as int == fx_add_s(a as int, b as int),
{
    let s: i128 = a as i128 + b as i128;
    clamp_i128(s)
}

/// Saturating subtraction.
pub fn fx_sub(a: i64, b: i64) -> (r: i64)
    ensures
        r as int == fx_sub_s(a as int, b as int),
{
    let s: i128 = a as i128 - b as i128;
    clamp_i128(s)
}

/// Saturating negation.
pub fn fx_neg(a: i64) -> (r: i64)
    ensures
        r as int == fx_neg_s(a as int),
{
    let s: i128 = -(a as i128);
    clamp_i128(s)
}

/// Absolute value, widened so that `i64::MIN` needs no special case.
fn abs_u128(a: i64) -> (r: u128)
    ensures
        r as int == fx_abs(a as int),
{
    if a >= 0 {
        a as u128
    } else {
        (-(a as i128)) as u128
    }
}

/// Turn a magnitude and a sign back into a clamped `i64`.
fn apply_sign(q: u128, negative: bool) -> (r: i64)
    ensures
        r as int == fx_clamp(if negative { -(q as int) } else { q as int }),
{
    if negative {
        if q > i64::MAX as u128 {
            i64::MIN
        } else {
            -(q as i64)
        }
    } else {
        if q > i64::MAX as u128 {
            i64::MAX
        } else {
            q as i64
        }
    }
}

/// Saturating fixed-point multiplication.
pub fn fx_mul(a: i64, b: i64) -> (r: i64)
    ensures
        r as int == fx_mul_s(a as int, b as int),
{
    let ua: u128 = abs_u128(a);
    let ub: u128 = abs_u128(b);
    proof {
        assert(ua * ub <= ((i64::MAX as u128) + 1) * ((i64::MAX as u128) + 1))
            by (nonlinear_arith)
            requires
                ua <= (i64::MAX as u128) + 1,
                ub <= (i64::MAX as u128) + 1,
        ;
    }
    let p: u128 = ua * ub;
    let q: u128 = p / (FX_ONE as u128);
    let negative: bool = (a < 0) != (b < 0);
    proof {
        assert(fx_abs(a as int) * fx_abs(b as int) == fx_abs((a as int) * (b as int)))
            by (nonlinear_arith);
        assert(((a as int) >= 0) != ((b as int) >= 0) && (a as int) * (b as int) != 0
            ==> (a as int) * (b as int) < 0) by (nonlinear_arith);
        assert(((a as int) >= 0) == ((b as int) >= 0) ==> (a as int) * (b as int) >= 0)
            by (nonlinear_arith);
    }
    apply_sign(q, negative && q > 0)
}

/// Saturating fixed-point division; the divisor must not be zero.
pub fn fx_div(a: i64, b: i64) -> (r: i64)
    requires
        b != 0,
    ensures
        r as int == fx_div_s(a as int, b as int),
{
    let ua: u128 = abs_u128(a);
    let ub: u128 = abs_u128(b);
    proof {
        assert(ua * (FX_ONE as u128) <= ((i64::MAX as u128) + 1) * (FX_ONE as u128))
            by (nonlinear_arith)
            requires
                ua <= (i64::MAX as u128) + 1,
        ;
    }
    let p: u128 = ua * (FX_ONE as u128);
    let q: u128 = p / ub;
    let negative: bool = (a < 0) != (b < 0);
    proof {
        assert(fx_abs(a as int) * (FX_ONE as int) == fx_abs((a as int) * (FX_ONE as int)))
            by (nonlinear_arith);
        assert(((a as int) >= 0) != ((b as int) >= 0) && (a as int) * (FX_ONE as int) != 0
            ==> ((a as int) * (FX_ONE as int) >= 0) != ((b as int) >= 0));
        assert((a as int) * (FX_ONE as int) >= 0 <==> a as int >= 0) by (nonlinear_arith);
    }
    apply_sign(q, negative && q > 0)
}

/// Saturating quotient of a scalar by a positive magnitude that may exceed
/// the `i64` range.
pub open spec fn fx_div_mag_s(a: int, m: int) -> int
    recommends
        m > 0,
{
    fx_clamp(fx_tdiv(a * (FX_ONE as int), m))
}

/// Saturating division of a scalar by a positive wide magnitude.
pub fn fx_div_mag(a: i64, m: u128) -> (r: i64)
    requires
        m > 0,
    ensures
        r as int == fx_div_mag_s(a as int, m as int),
{
    let ua: u128 = abs_u128(a);
    proof {
        assert(ua * (FX_ONE as u128) <= ((i64::MAX as u128) + 1) * (FX_ONE as u128))
            by (nonlinear_arith)
            requires
                ua <= (i64::MAX as u128) + 1,
        ;
    }
    let p: u128 = ua * (FX_ONE as u128);
    let q: u128 = p / m;
    proof {
        assert(fx_abs(a as int) * (FX_ONE as int) == fx_abs((a as int) * (FX_ONE as int)))
            by (nonlinear_arith);
        assert((a as int) * (FX_ONE as int) >= 0 <==> a as int >= 0) by (nonlinear_arith);
    }
    apply_sign(q, a < 0 && q > 0)
}

/// Floor of the square root, defined by counting up; `lemma_sqrt_floor_bounds`
/// gives the usual characterisation.
pub open spec fn sqrt_floor(n: nat) -> nat
    decreases n,
{
    if n == 0 {
        0
    } else {
        let r = sqrt_floor((n - 1) as nat);
        if (r + 1) * (r + 1) <= n {
            r + 1
        } else {
            r
        }
    }
}

pub proof fn lemma_sqrt_floor_bounds(n: nat)
    ensures
        sqrt_floor(n) * sqrt_floor(n) <= n,
        n < (sqrt_floor(n) + 1) * (sqrt_floor(n) + 1),
    decreases n,
{
    if n == 0 {
        assert(sqrt_floor(0) == 0);
        assert(0 < (0 + 1) * (0 + 1)) by (nonlinear_arith);
    } else {
        lemma_sqrt_floor_bounds((n - 1) as nat);
        let r = sqrt_floor((n - 1) as nat);
        assert(sqrt_floor(n) == if (r + 1) * (r + 1) <= n {
            r + 1
        } else {
            r
        });
        let s = sqrt_floor(n);
        if (r + 1) * (r + 1) <= n {
            assert(s == r + 1);
            assert(n - 1 < (r + 1) * (r + 1));
            assert(n == (r + 1) * (r + 1));
            assert(n < (s + 1) * (s + 1)) by (nonlinear_arith)
                requires
                    n == s * s,
            ;
        } else {
            assert(s == r);
            assert(r * r <= n - 1);
            assert(n < (s + 1) * (s + 1));
        }
    }
}

proof fn lemma_sqrt_unique(n: nat, r: nat)
    requires
        r * r <= n,
        n < (r + 1) * (r + 1),
    ensures
        r == sqrt_floor(n),
{
    lemma_sqrt_floor_bounds(n);
    let s = sqrt_floor(n);
    assert(r == s) by (nonlinear_arith)
        requires
            r * r <= n,
            n < (r + 1) * (r + 1),
            s * s <= n,
            n < (s + 1) * (s + 1),
    ;
}

/// Integer square root, rounded down.
pub fn isqrt_u128(n: u128) -> (r: u128)
    ensures
        r as nat == sqrt_floor(n as nat),
{
    if n == 0 {
        proof {
            assert(0 * 0 <= 0 && 0 < (0 + 1) * (0 + 1)) by (nonlinear_arith);
            lemma_sqrt_unique(n as nat, 0);
        }
        return 0;
    }
    let mut lo: u128 = 0;
    let mut hi: u128 = 0x1_0000_0000_0000_0000;
    proof {
        assert((n as int) < (hi as int) * (hi as int)) by (nonlinear_arith)
            requires
                n <= u128::MAX,
                hi as int == 0x1_0000_0000_0000_0000,
        ;
    }
    while lo + 1 < hi
        invariant
            (lo as int) * (lo as int) <= n as int,
            (n as int) < (hi as int) * (hi as int),
            lo < hi,
            hi <= 0x1_0000_0000_0000_0000,
        decreases hi - lo,
    {
        let mid: u128 = lo + (hi - lo) / 2;
        proof {
            assert((mid as int) * (mid as int) <= (0xffff_ffff_ffff_ffff as int) * (
            0xffff_ffff_ffff_ffff as int)) by (nonlinear_arith)
                requires
                    mid <= 0xffff_ffff_ffff_ffff,
            ;
        }
        if mid * mid <= n {
            lo = mid;
        } else {
            hi = mid;
        }
    }
    proof {
        lemma_sqrt_unique(n as nat, lo as nat);
    }
    lo
}

/// Smaller of two scalars.
pub open spec fn fx_min_s(a: int, b: int) -> int {
    if a <= b {
        a
    } else {
        b
    }
}

/// Larger of two scalars.
pub open spec fn fx_max_s(a: int, b: int) -> int {
    if a >= b {
        a
    } else {
        b
    }
}

/// Smaller of two scalars.
pub fn fx_min(a: i64, b: i64) -> (r: i64)
    ensures
        r as int == fx_min_s(a as int, b as int),
{
    if a <= b {
        a
    } else {
        b
    }
}

/// Larger of two scalars.
pub fn fx_max(a: i64, b: i64) -> (r: i64)
    ensures
        r as int == fx_max_s(a as int, b as int),
{
    if a >= b {
        a
    } else {
        b
    }
}

} // verus!
