use soroban_fixed_point_math::FixedPoint;
use vstd::prelude::*;

verus! {

/// Whether a mathematical integer is representable in 128 signed bits.
pub open spec fn fits_i128(v: int) -> bool {
    i128::MIN <= v <= i128::MAX
}

/// The quotient `n / d` rounded toward negative infinity, for `d != 0`.
pub open spec fn floor_div(n: int, d: int) -> int
    recommends
        d != 0,
{
    if d > 0 {
        n / d
    } else {
        (-n) / (-d)
    }
}

/// The quotient `n / d` rounded toward positive infinity, for `d != 0`.
pub open spec fn ceil_div(n: int, d: int) -> int
    recommends
        d != 0,
{
    -floor_div(-n, d)
}

/// `floor(x * y / z)` as a checked 128-bit operation: nothing when `z` is zero, when the
/// product leaves the 128-bit range, or when the quotient does.
pub open spec fn checked_mul_div_floor(x: int, y: int, z: int) -> Option<i128> {
    if z == 0 || !fits_i128(x * y) || !fits_i128(floor_div(x * y, z)) {
        None
    } else {
        Some(floor_div(x * y, z) as i128)
    }
}

/// `ceil(x * y / z)` as a checked 128-bit operation: nothing when `z` is zero, when the
/// product leaves the 128-bit range, or when the quotient does.
pub open spec fn checked_mul_div_ceil(x: int, y: int, z: int) -> Option<i128> {
    if z == 0 || !fits_i128(x * y) || !fits_i128(ceil_div(x * y, z)) {
        None
    } else {
        Some(ceil_div(x * y, z) as i128)
    }
}

/// Calls `FixedPoint::fixed_mul_floor` of soroban-fixed-point-math on `i128`.
///
/// Trusted: the call returns `floor(x * y / denominator)`, and nothing exactly when the
/// denominator is zero or the product or the quotient overflows 128 bits.
#[verifier::external_body]
pub(crate) fn fixed_mul_floor(x: i128, y: i128, denominator: i128) -> (r: Option<i128>)
    ensures
        r == checked_mul_div_floor(x as int, y as int, denominator as int),
{
    x.fixed_mul_floor(y, denominator)
}

/// Calls `FixedPoint::fixed_mul_ceil` of soroban-fixed-point-math on `i128`.
///
/// Trusted: the call returns `ceil(x * y / denominator)`, and nothing exactly when the
/// denominator is zero or the product or the quotient overflows 128 bits.
#[verifier::external_body]
pub(crate) fn fixed_mul_ceil(x: i128, y: i128, denominator: i128) -> (r: Option<i128>)
    ensures
        r == checked_mul_div_ceil(x as int, y as int, denominator as int),
{
    x.fixed_mul_ceil(y, denominator)
}

/// Calls `FixedPoint::fixed_div_floor` of soroban-fixed-point-math on `i128`.
///
/// Trusted: the call returns `floor(x * denominator / y)`, and nothing exactly when `y`
/// is zero or the product or the quotient overflows 128 bits.
#[verifier::external_body]
pub(crate) fn fixed_div_floor(x: i128, y: i128, denominator: i128) -> (r: Option<i128>)
    ensures
        r == checked_mul_div_floor(x as int, denominator as int, y as int),
{
    x.fixed_div_floor(y, denominator)
}

/// Calls `FixedPoint::fixed_div_ceil` of soroban-fixed-point-math on `i128`.
///
/// Trusted: the call returns `ceil(x * denominator / y)`, and nothing exactly when `y`
/// is zero or the product or the quotient overflows 128 bits.
#[verifier::external_body]
pub(crate) fn fixed_div_ceil(x: i128, y: i128, denominator: i128) -> (r: Option<i128>)
    ensures
        r == checked_mul_div_ceil(x as int, denominator as int, y as int),
{
    x.fixed_div_ceil(y, denominator)
}

/// `floor(a * b / d)`, or nothing on overflow or a zero `d`.
pub fn mul_floor(a: i128, b: i128, d: i128) -> (r: Option<i128>)
    ensures
        r == checked_mul_div_floor(a as int, b as int, d as int),
{
    fixed_mul_floor(a, b, d)
}

/// `ceil(a * b / d)`, or nothing on overflow or a zero `d`.
pub fn mul_ceil(a: i128, b: i128, d: i128) -> (r: Option<i128>)
    ensures
        r == checked_mul_div_ceil(a as int, b as int, d as int),
{
    fixed_mul_ceil(a, b, d)
}

/// `floor(a * d / b)`, or nothing on overflow or a zero `b`.
pub fn div_floor(a: i128, b: i128, d: i128) -> (r: Option<i128>)
    ensures
        r == checked_mul_div_floor(a as int, d as int, b as int),
{
    fixed_div_floor(a, b, d)
}

/// `ceil(a * d / b)`, or nothing on overflow or a zero `b`.
pub fn div_ceil(a: i128, b: i128, d: i128) -> (r: Option<i128>)
    ensures
        r == checked_mul_div_ceil(a as int, d as int, b as int),
{
    fixed_div_ceil(a, b, d)
}

/// The floor quotient is the largest integer whose multiple by `d` does not exceed `n`.
pub proof fn lemma_floor_div_bounds(n: int, d: int)
    requires
        d > 0,
    ensures
        floor_div(n, d) * d <= n < floor_div(n, d) * d + d,
{
    vstd::arithmetic::div_mod::lemma_fundamental_div_mod(n, d);
    vstd::arithmetic::div_mod::lemma_mod_bound(n, d);
    assert(d * (n / d) == (n / d) * d) by (nonlinear_arith);
}

/// The ceiling quotient is the smallest integer whose multiple by `d` reaches `n`.
pub proof fn lemma_ceil_div_bounds(n: int, d: int)
    requires
        d > 0,
    ensures
        ceil_div(n, d) * d - d < n <= ceil_div(n, d) * d,
{
    lemma_floor_div_bounds(-n, d);
    assert((-floor_div(-n, d)) * d == -(floor_div(-n, d) * d)) by (nonlinear_arith);
}

/// Any integer bracketed like a floor quotient is the floor quotient.
pub proof fn lemma_floor_div_unique(n: int, d: int, q: int)
    requires
        d > 0,
        q * d <= n < q * d + d,
    ensures
        floor_div(n, d) == q,
{
    lemma_floor_div_bounds(n, d);
    let f = floor_div(n, d);
    assert(f == q) by (nonlinear_arith)
        requires
            d > 0,
            q * d <= n < q * d + d,
            f * d <= n < f * d + d,
    ;
}

/// Both roundings grow with the numerator.
pub proof fn lemma_div_monotonic(n1: int, n2: int, d: int)
    requires
        d > 0,
        n1 <= n2,
    ensures
        floor_div(n1, d) <= floor_div(n2, d),
        ceil_div(n1, d) <= ceil_div(n2, d),
{
    lemma_floor_div_bounds(n1, d);
    lemma_floor_div_bounds(n2, d);
    lemma_ceil_div_bounds(n1, d);
    lemma_ceil_div_bounds(n2, d);
    let f1 = floor_div(n1, d);
    let f2 = floor_div(n2, d);
    let c1 = ceil_div(n1, d);
    let c2 = ceil_div(n2, d);
    assert(f1 <= f2) by (nonlinear_arith)
        requires
            d > 0,
            n1 <= n2,
            f1 * d <= n1,
            n2 < f2 * d + d,
    ;
    assert(c1 <= c2) by (nonlinear_arith)
        requires
            d > 0,
            n1 <= n2,
            c1 * d - d < n1,
            n2 <= c2 * d,
    ;
}

/// The ceiling is the floor or one more, and both keep the sign of a non-negative numerator.
pub proof fn lemma_div_rounding_gap(n: int, d: int)
    requires
        d > 0,
    ensures
        floor_div(n, d) <= ceil_div(n, d) <= floor_div(n, d) + 1,
        n >= 0 ==> floor_div(n, d) >= 0,
        n <= 0 ==> ceil_div(n, d) <= 0,
        n > 0 ==> ceil_div(n, d) > 0,
{
    lemma_floor_div_bounds(n, d);
    lemma_ceil_div_bounds(n, d);
    let f = floor_div(n, d);
    let c = ceil_div(n, d);
    assert(f <= c <= f + 1 && (n >= 0 ==> f >= 0) && (n <= 0 ==> c <= 0) && (n > 0 ==> c > 0))
        by (nonlinear_arith)
        requires
            d > 0,
            f * d <= n < f * d + d,
            c * d - d < n <= c * d,
    ;
}

/// Dividing by a positive integer never leaves the 128-bit range.
pub proof fn lemma_div_fits(n: int, d: int)
    requires
        d > 0,
        fits_i128(n),
    ensures
        fits_i128(floor_div(n, d)),
        fits_i128(ceil_div(n, d)),
{
    lemma_floor_div_bounds(n, d);
    lemma_ceil_div_bounds(n, d);
    let f = floor_div(n, d);
    let c = ceil_div(n, d);
    let lo = i128::MIN as int;
    let hi = i128::MAX as int;
    assert(lo <= f <= hi && lo <= c <= hi) by (nonlinear_arith)
        requires
            d > 0,
            lo <= n <= hi,
            lo < 0 < hi,
            f * d <= n < f * d + d,
            c * d - d < n <= c * d,
    ;
}

/// A product with a non-negative factor grows with the other factor, under both roundings.
pub proof fn lemma_mul_div_monotonic(x: int, y1: int, y2: int, z: int)
    requires
        x >= 0,
        y1 <= y2,
        z > 0,
    ensures
        floor_div(x * y1, z) <= floor_div(x * y2, z),
        ceil_div(x * y1, z) <= ceil_div(x * y2, z),
        floor_div(y1 * x, z) <= floor_div(y2 * x, z),
        ceil_div(y1 * x, z) <= ceil_div(y2 * x, z),
{
    assert(x * y1 <= x * y2) by (nonlinear_arith)
        requires
            x >= 0,
            y1 <= y2,
    ;
    assert(y1 * x == x * y1 && y2 * x == x * y2) by (nonlinear_arith);
    lemma_div_monotonic(x * y1, x * y2, z);
}

/// The quotient of two non-negative factors' product by a positive integer is not
/// negative, under both roundings.
pub proof fn lemma_mul_div_nonnegative(x: int, y: int, z: int)
    requires
        x >= 0,
        y >= 0,
        z > 0,
    ensures
        0 <= floor_div(x * y, z) <= ceil_div(x * y, z),
{
    assert(x * y >= 0) by (nonlinear_arith)
        requires
            x >= 0,
            y >= 0,
    ;
    lemma_div_rounding_gap(x * y, z);
}

/// A multiple of the divisor divides without remainder, under both roundings.
pub proof fn lemma_div_exact(q: int, d: int)
    requires
        d > 0,
    ensures
        floor_div(q * d, d) == q,
        ceil_div(q * d, d) == q,
{
    lemma_floor_div_unique(q * d, d, q);
    assert(-(q * d) == (-q) * d) by (nonlinear_arith);
    lemma_floor_div_unique((-q) * d, d, -q);
}

} // verus!
