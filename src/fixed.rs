//! Fixed-point arithmetic: fractions and multipliers are stored in millionths.
use vstd::prelude::*;

verus! {

/// The fixed-point value of 1.0.
pub const ONE: u64 = 1_000_000;

/// `a * b` for two fixed-point values, rounded down and saturated at `u64::MAX`.
pub open spec fn fmul_spec(a: int, b: int) -> int {
    let p = a * b / (ONE as int);
    if p > u64::MAX as int {
        u64::MAX as int
    } else {
        p
    }
}

/// Multiplies two non-negative fixed-point values (also an amount by a multiplier).
pub fn fmul(a: u64, b: u64) -> (r: u64)
    ensures
        r == fmul_spec(a as int, b as int),
{
    assert((a as u128) * (b as u128) <= (u64::MAX as u128) * (u64::MAX as u128)) by (nonlinear_arith)
        requires
            a <= u64::MAX,
            b <= u64::MAX,
    ;
    let p: u128 = (a as u128) * (b as u128) / (ONE as u128);
    if p > u64::MAX as u128 {
        u64::MAX
    } else {
        p as u64
    }
}

/// A fraction clamped to `[0, 1]`.
pub open spec fn unit_spec(x: int) -> int {
    if x < 0 {
        0
    } else if x > ONE as int {
        ONE as int
    } else {
        x
    }
}

/// A value floored at zero.
pub open spec fn nonneg_spec(x: int) -> int {
    if x < 0 {
        0
    } else {
        x
    }
}

/// Clamps a signed fixed-point fraction to `[0, 1]`.
pub fn unit(x: i64) -> (r: u64)
    ensures
        r == unit_spec(x as int),
        r <= ONE,
{
    if x < 0 {
        0
    } else if x > ONE as i64 {
        ONE
    } else {
        x as u64
    }
}

/// Floors a signed fixed-point value at zero.
pub fn nonneg(x: i64) -> (r: u64)
    ensures
        r == nonneg_spec(x as int),
{
    if x < 0 {
        0
    } else {
        x as u64
    }
}

/// `1 - x`, floored at zero.
pub fn complement(x: i64) -> (r: u64)
    ensures
        r == nonneg_spec(ONE - x),
{
    let d: i128 = ONE as i128 - x as i128;
    if d < 0 {
        0
    } else {
        d as u64
    }
}

/// Scaling by a fraction of at most one never increases a value.
pub proof fn lemma_fmul_le(x: int, p: int)
    requires
        0 <= x <= u64::MAX,
        0 <= p <= ONE,
    ensures
        0 <= fmul_spec(x, p) <= x,
{
    assert(0 <= x * p <= x * ONE) by (nonlinear_arith)
        requires
            0 <= x,
            0 <= p <= ONE,
    ;
    assert(x * p / (ONE as int) <= x * (ONE as int) / (ONE as int)) by (nonlinear_arith)
        requires
            x * p <= x * ONE,
    ;
    assert(x * (ONE as int) / (ONE as int) == x) by (nonlinear_arith);
    assert(0 <= x * p / (ONE as int)) by (nonlinear_arith)
        requires
            0 <= x * p,
    ;
}

/// Splitting a value by a fraction and its complement loses nothing but rounding.
pub proof fn lemma_fmul_split(x: int, p: int)
    requires
        0 <= x <= u64::MAX,
        0 <= p <= ONE,
    ensures
        fmul_spec(x, ONE - p) + fmul_spec(x, p) <= x,
{
    lemma_fmul_le(x, p);
    lemma_fmul_le(x, ONE - p);
    let a = x * (ONE - p);
    let b = x * p;
    assert(a + b == x * ONE) by (nonlinear_arith)
        requires
            a == x * (ONE - p),
            b == x * p,
    ;
    assert(a >= 0 && b >= 0) by (nonlinear_arith)
        requires
            a == x * (ONE - p),
            b == x * p,
            0 <= x,
            0 <= p <= ONE,
    ;
    assert(a / (ONE as int) + b / (ONE as int) <= (a + b) / (ONE as int)) by (nonlinear_arith)
        requires
            a >= 0,
            b >= 0,
    ;
    assert(x * (ONE as int) / (ONE as int) == x) by (nonlinear_arith);
}

/// Zero and one are absorbing and neutral for fixed-point products.
pub proof fn lemma_fmul_unit(x: int)
    requires
        0 <= x <= u64::MAX,
    ensures
        fmul_spec(x, ONE as int) == x,
        fmul_spec(ONE as int, x) == x,
        fmul_spec(x, 0) == 0,
        fmul_spec(0, x) == 0,
{
    assert(x * (ONE as int) / (ONE as int) == x) by (nonlinear_arith);
    assert((ONE as int) * x / (ONE as int) == x) by (nonlinear_arith);
}

} // verus!
