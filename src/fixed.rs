//! Saturating fixed-point scalars: an `i64` holding a real number scaled by `ONE`.
use vstd::prelude::*;

verus! {

/// A real-valued scalar in fixed point: the number `w as real / ONE`.
pub type Weight = i64;

/// The fixed-point representation of 1.0 (2 to the 24th).
pub const ONE: i64 = 16777216;

/// Clamps an exact integer into the range of `i64`.
pub open spec fn clamp(x: int) -> i64 {
    if x > i64::MAX {
        i64::MAX
    } else if x < i64::MIN {
        i64::MIN
    } else {
        x as i64
    }
}

/// Divides by `ONE`, rounding toward zero.
pub open spec fn unscale(p: int) -> int {
    if p >= 0 {
        p / (ONE as int)
    } else {
        -((-p) / (ONE as int))
    }
}

/// Saturating fixed-point sum.
pub open spec fn fx_add(a: i64, b: i64) -> i64 {
    clamp(a + b)
}

/// Saturating fixed-point difference.
pub open spec fn fx_sub(a: i64, b: i64) -> i64 {
    clamp(a - b)
}

/// Saturating fixed-point product, rounded toward zero.
pub open spec fn fx_mul(a: i64, b: i64) -> i64 {
    clamp(unscale(a * b))
}

fn clamp_i128(x: i128) -> (r: i64)
    ensures
        r == clamp(x as int),
{
    if x > i64::MAX as i128 {
        i64::MAX
    } else if x < i64::MIN as i128 {
        i64::MIN
    } else {
        x as i64
    }
}

/// Saturating fixed-point sum.
pub fn add_sat(a: Weight, b: Weight) -> (r: Weight)
    ensures
        r == fx_add(a, b),
{
    clamp_i128(a as i128 + b as i128)
}

/// Saturating fixed-point difference.
pub fn sub_sat(a: Weight, b: Weight) -> (r: Weight)
    ensures
        r == fx_sub(a, b),
{
    clamp_i128(a as i128 - b as i128)
}

/// Saturating fixed-point product, rounded toward zero.
pub fn mul_fixed(a: Weight, b: Weight) -> (r: Weight)
    ensures
        r == fx_mul(a, b),
{
    let ghost bound: int = 0x4000_0000_0000_0000_0000_0000_0000_0000;
    assert(-bound <= (a as int) * (b as int) <= bound) by (nonlinear_arith)
        requires
            -0x8000_0000_0000_0000 <= a <= 0x7fff_ffff_ffff_ffff,
            -0x8000_0000_0000_0000 <= b <= 0x7fff_ffff_ffff_ffff,
            bound == 0x4000_0000_0000_0000_0000_0000_0000_0000,
    ;
    let p: i128 = (a as i128) * (b as i128);
    let q: i128 = if p >= 0 {
        p / (ONE as i128)
    } else {
        let m: i128 = -p;
        -(m / (ONE as i128))
    };
    clamp_i128(q)
}

} // verus!
