//! Signed fixed-point arithmetic with 32 fractional bits (Q32.32).
//!
//! Every real-valued quantity of the library (genes, weights, speeds,
//! angles) is a Q32.32 number stored in an `i64`: the value `v` stands for
//! the real number `v / 2^32`. All operations saturate at the `i64` range
//! instead of overflowing.

use vstd::prelude::*;

verus! {

/// The fixed-point representation of 1.0.
pub const FX_ONE: i64 = 0x1_0000_0000;

/// `2^32` as an int, the scaling factor of the Q32.32 format.
pub open spec fn fx_scale() -> int {
    0x1_0000_0000
}

/// Saturation of an unbounded integer into the `i64` range.
pub open spec fn sat64(x: int) -> int {
    if x > i64::MAX as int {
        i64::MAX as int
    } else if x < i64::MIN as int {
        i64::MIN as int
    } else {
        x
    }
}

/// Absolute value.
pub open spec fn abs_i(x: int) -> int {
    if x >= 0 {
        x
    } else {
        -x
    }
}

/// Division by `2^32` rounding toward zero.
pub open spec fn tdiv_scale(p: int) -> int {
    if p >= 0 {
        p / 0x1_0000_0000
    } else {
        -((-p) / 0x1_0000_0000)
    }
}

/// The exact value of saturating fixed-point multiplication.
pub open spec fn fx_mul_spec(a: int, b: int) -> int {
    sat64(tdiv_scale(a * b))
}

/// The exact value of clamping into `[lo, hi]`.
pub open spec fn fx_clamp_spec(x: int, lo: int, hi: int) -> int {
    if x < lo {
        lo
    } else if x > hi {
        hi
    } else {
        x
    }
}

/// The toroidal coordinate reached from `x` by the displacement `d`,
/// both in units of `2^-32` of the world width: the sum wraps modulo 1.0,
/// so leaving one edge re-enters at the opposite edge.
pub open spec fn wrap_spec(x: u32, d: int) -> int {
    let s = x + d;
    if s >= 0x1_0000_0000 {
        s - 0x1_0000_0000
    } else if s < 0 {
        s + 0x1_0000_0000
    } else {
        s
    }
}

/// Law: the toroidal wrap stays inside `[0, 1)`; a displacement landing
/// exactly at 1.0 wraps to exactly 0.0, and one landing below 0.0
/// re-enters the same distance short of 1.0.
pub proof fn lemma_wrap_edges(x: u32, d: int)
    requires
        -0x1_0000_0000 < d < 0x1_0000_0000,
    ensures
        0 <= wrap_spec(x, d) < 0x1_0000_0000,
        x + d == 0x1_0000_0000 ==> wrap_spec(x, d) == 0,
        x + d < 0 ==> wrap_spec(x, d) == x + d + 0x1_0000_0000,
{
}

/// Advance a toroidal coordinate by a displacement of less than one
/// world width in either direction.
pub fn wrap_coord(x: u32, d: i64) -> (r: u32)
    requires
        -0x1_0000_0000 < d < 0x1_0000_0000,
    ensures
        r as int == wrap_spec(x, d as int),
{
    if d >= 0 {
        let du = d as u32;
        if x <= u32::MAX - du {
            x + du
        } else {
            x - (u32::MAX - du) - 1
        }
    } else {
        let du = (-d) as u32;
        if x >= du {
            x - du
        } else {
            x + (u32::MAX - du) + 1
        }
    }
}

/// Saturating fixed-point addition.
pub fn fx_add(a: i64, b: i64) -> (r: i64)
    ensures
        r as int == sat64(a + b),
{
    let s: i128 = a as i128 + b as i128;
    if s > i64::MAX as i128 {
        i64::MAX
    } else if s < i64::MIN as i128 {
        i64::MIN
    } else {
        s as i64
    }
}

/// Saturating fixed-point negation.
pub fn fx_neg(a: i64) -> (r: i64)
    ensures
        r as int == sat64(-a),
{
    if a == i64::MIN {
        i64::MAX
    } else {
        -a
    }
}

/// The magnitude of an `i64`, exact also for `i64::MIN`.
pub fn fx_abs_u64(a: i64) -> (r: u64)
    ensures
        r as int == abs_i(a as int),
{
    if a >= 0 {
        a as u64
    } else if a == i64::MIN {
        0x8000_0000_0000_0000u64
    } else {
        (-a) as u64
    }
}

proof fn lemma_abs_mul(a: int, b: int)
    ensures
        abs_i(a * b) == abs_i(a) * abs_i(b),
        (a >= 0 <==> b >= 0) || a * b == 0 ==> a * b == abs_i(a) * abs_i(b),
        !((a >= 0 <==> b >= 0) || a * b == 0) ==> a * b == -(abs_i(a) * abs_i(b)),
{
    assert(abs_i(a * b) == abs_i(a) * abs_i(b)) by (nonlinear_arith);
    assert((a >= 0 <==> b >= 0) || a * b == 0 ==> a * b >= 0) by (nonlinear_arith);
    assert(!((a >= 0 <==> b >= 0) || a * b == 0) ==> a * b < 0) by (nonlinear_arith);
}

/// Saturating fixed-point multiplication: the product of two Q32.32
/// numbers, rescaled by `2^32` rounding toward zero.
pub fn fx_mul(a: i64, b: i64) -> (r: i64)
    ensures
        r as int == fx_mul_spec(a as int, b as int),
{
    let neg = (a < 0) != (b < 0);
    let pa = fx_abs_u64(a);
    let pb = fx_abs_u64(b);
    proof {
        assert((pa as int) * (pb as int) < 0x1_0000_0000_0000_0000_0000_0000_0000_0000)
            by (nonlinear_arith)
            requires
                pa <= 0x8000_0000_0000_0000u64,
                pb <= 0x8000_0000_0000_0000u64,
        ;
    }
    let p: u128 = (pa as u128) * (pb as u128);
    let q: u128 = p / 0x1_0000_0000u128;
    proof {
        lemma_abs_mul(a as int, b as int);
        assert(p == abs_i((a as int) * (b as int)));
    }
    if neg {
        if q >= 0x8000_0000_0000_0000u128 {
            i64::MIN
        } else if q == 0 {
            0
        } else {
            -((q as u64) as i64)
        }
    } else {
        if q > i64::MAX as u128 {
            i64::MAX
        } else {
            q as i64
        }
    }
}

/// Clamp a fixed-point value into `[lo, hi]`.
pub fn fx_clamp(x: i64, lo: i64, hi: i64) -> (r: i64)
    requires
        lo <= hi,
    ensures
        r as int == fx_clamp_spec(x as int, lo as int, hi as int),
{
    if x < lo {
        lo
    } else if x > hi {
        hi
    } else {
        x
    }
}

} // verus!
