//! Fixed-point scalar arithmetic.
//!
//! A scalar is an `i64` counting subunits of `1 / SCALE` world units.
//! Stored scalars (coordinates, matrix entries) are kept within
//! `[-FX_MAX, FX_MAX]`; every operation that could leave that range
//! saturates, so all operations are total and exactly specified.

use vstd::prelude::*;

verus! {

/// Number of fixed-point subunits in one world unit.
pub const SCALE: i64 = 1000;

/// Largest magnitude a stored fixed-point scalar may take (2^50).
pub const FX_MAX: i64 = 0x4_0000_0000_0000;

/// Truncating division (quotient rounded toward zero, as hardware divides).
pub open spec fn tdiv(a: int, b: int) -> int
    recommends
        b > 0,
{
    if a >= 0 {
        a / b
    } else {
        -((-a) / b)
    }
}

/// Clamp an unbounded value into the stored fixed-point range.
pub open spec fn fit(x: int) -> int {
    if x > FX_MAX {
        FX_MAX as int
    } else if x < -FX_MAX {
        -FX_MAX as int
    } else {
        x
    }
}

/// Saturating fixed-point sum.
pub open spec fn fx_add(a: int, b: int) -> int {
    fit(a + b)
}

/// Saturating fixed-point difference.
pub open spec fn fx_sub(a: int, b: int) -> int {
    fit(a - b)
}

/// Saturating fixed-point product: `a * b / SCALE`, rounded toward zero.
pub open spec fn fx_mul(a: int, b: int) -> int {
    fit(tdiv(a * b, SCALE as int))
}

/// Divide by `SCALE`, rounding toward zero.
pub fn div_scale(a: i128) -> (r: i128)
    requires
        -0x4000_0000_0000_0000_0000_0000_0000_0000 < a,
    ensures
        r == tdiv(a as int, SCALE as int),
{
    if a >= 0 {
        ((a as u128) / (SCALE as u128)) as i128
    } else {
        let q = ((-a) as u128) / (SCALE as u128);
        -(q as i128)
    }
}

/// Truncating division by an arbitrary positive divisor.
pub fn tdiv_pos(a: i128, b: i128) -> (r: i128)
    requires
        -0x4000_0000_0000_0000_0000_0000_0000_0000 < a,
        b > 0,
    ensures
        r == tdiv(a as int, b as int),
{
    if a >= 0 {
        ((a as u128) / (b as u128)) as i128
    } else {
        let q = ((-a) as u128) / (b as u128);
        -(q as i128)
    }
}

/// Clamp into the stored range.
pub fn clamp_fx(x: i128) -> (r: i64)
    ensures
        r as int == fit(x as int),
{
    if x > FX_MAX as i128 {
        FX_MAX
    } else if x < -(FX_MAX as i128) {
        -FX_MAX
    } else {
        x as i64
    }
}

/// Saturating fixed-point sum of two stored scalars.
pub fn add_fx(a: i64, b: i64) -> (r: i64)
    ensures
        r as int == fx_add(a as int, b as int),
{
    clamp_fx(a as i128 + b as i128)
}

/// Saturating fixed-point difference of two stored scalars.
pub fn sub_fx(a: i64, b: i64) -> (r: i64)
    ensures
        r as int == fx_sub(a as int, b as int),
{
    clamp_fx(a as i128 - b as i128)
}

/// Saturating fixed-point product of two stored scalars.
pub fn mul_fx(a: i64, b: i64) -> (r: i64)
    ensures
        r as int == fx_mul(a as int, b as int),
{
    assert(-0x4000_0000_0000_0000_0000_0000_0000_0000 < (a as int) * (b as int)
        <= 0x4000_0000_0000_0000_0000_0000_0000_0000) by (nonlinear_arith)
        requires
            -0x8000_0000_0000_0000 <= a <= 0x7fff_ffff_ffff_ffff,
            -0x8000_0000_0000_0000 <= b <= 0x7fff_ffff_ffff_ffff,
    ;
    let p: i128 = (a as i128) * (b as i128);
    clamp_fx(div_scale(p))
}

/// Bound on a product from bounds on its factors.
pub proof fn lemma_mul_bounds(a: int, b: int, ma: int, mb: int)
    requires
        -ma <= a <= ma,
        -mb <= b <= mb,
    ensures
        -(ma * mb) <= a * b <= ma * mb,
{
    assert(-(ma * mb) <= a * b <= ma * mb) by (nonlinear_arith)
        requires
            -ma <= a <= ma,
            -mb <= b <= mb,
    ;
}

/// The integer square root: the unique `r >= 0` with `r * r <= n < (r + 1) * (r + 1)`.
pub open spec fn sqrt_floor(n: int) -> int {
    choose|r: int| 0 <= r && #[trigger] (r * r) <= n && n < (r + 1) * (r + 1)
}

/// There is only one integer square root.
pub proof fn lemma_sqrt_floor_unique(n: int, r: int)
    requires
        0 <= r,
        r * r <= n,
        n < (r + 1) * (r + 1),
    ensures
        sqrt_floor(n) == r,
{
    assert(0 <= r && r * r <= n && n < (r + 1) * (r + 1));
    let s = sqrt_floor(n);
    assert(0 <= s && s * s <= n && n < (s + 1) * (s + 1));
    if s < r {
        assert((s + 1) * (s + 1) <= r * r) by (nonlinear_arith)
            requires
                0 <= s,
                s < r,
        ;
    } else if r < s {
        assert((r + 1) * (r + 1) <= s * s) by (nonlinear_arith)
            requires
                0 <= r,
                r < s,
        ;
    }
}

/// Floor square root by binary search.
pub fn isqrt(n: u128) -> (r: u64)
    ensures
        (r as int) * (r as int) <= n as int,
        (n as int) < (r as int + 1) * (r as int + 1),
        r as int == sqrt_floor(n as int),
{
    let mut lo: u128 = 0;
    let mut hi: u128 = 0x1_0000_0000_0000_0000;
    assert((n as int) < (hi as int) * (hi as int)) by (nonlinear_arith)
        requires
            n < 0x1_0000_0000_0000_0000_0000_0000_0000_0000,
            hi == 0x1_0000_0000_0000_0000,
    ;
    while lo + 1 < hi
        invariant
            lo < hi <= 0x1_0000_0000_0000_0000,
            (lo as int) * (lo as int) <= n as int,
            (n as int) < (hi as int) * (hi as int),
        decreases hi - lo,
    {
        let mid = lo + (hi - lo) / 2;
        assert(lo < mid < hi);
        assert((mid as int) * (mid as int) < 0x1_0000_0000_0000_0000_0000_0000_0000_0000)
            by (nonlinear_arith)
            requires
                0 <= mid < 0x1_0000_0000_0000_0000,
        ;
        if mid * mid <= n {
            lo = mid;
        } else {
            hi = mid;
        }
    }
    proof {
        lemma_sqrt_floor_unique(n as int, lo as int);
    }
    lo as u64
}

/// The length of a horizontal-plane vector, rounded down and clamped
/// into the stored range.
pub open spec fn spec_planar_length(dx: int, dz: int) -> int {
    fit(sqrt_floor(dx * dx + dz * dz))
}

/// Floor length of a horizontal-plane vector of stored scalars.
pub fn planar_length(dx: i64, dz: i64) -> (r: i64)
    requires
        -FX_MAX <= dx <= FX_MAX,
        -FX_MAX <= dz <= FX_MAX,
    ensures
        r as int == spec_planar_length(dx as int, dz as int),
        0 <= r <= FX_MAX,
{
    proof {
        lemma_mul_bounds(dx as int, dx as int, FX_MAX as int, FX_MAX as int);
        lemma_mul_bounds(dz as int, dz as int, FX_MAX as int, FX_MAX as int);
        assert(0 <= (dx as int) * (dx as int) && 0 <= (dz as int) * (dz as int))
            by (nonlinear_arith);
    }
    let sq: u128 = ((dx as i128) * (dx as i128) + (dz as i128) * (dz as i128)) as u128;
    let root = isqrt(sq);
    clamp_fx(root as i128)
}

} // verus!
