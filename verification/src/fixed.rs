//! Signed fixed-point scalars with six decimal places.
//!
//! A quantity `q` is held as the `i64` count of millionths `q * SCALE`.
//! Every operation is total: a result outside the range of `i64` is
//! replaced by the nearest bound, and a product is rounded down to the
//! next millionth.

use vstd::prelude::*;

verus! {

/// The number of raw units in one whole unit.
pub const SCALE: i64 = 1_000_000;

/// The nearest `i64` to the integer `x`.
pub open spec fn saturate(x: int) -> i64 {
    if x < i64::MIN {
        i64::MIN
    } else if x > i64::MAX {
        i64::MAX
    } else {
        x as i64
    }
}

/// The saturated sum of two scalars.
pub open spec fn spec_fx_add(a: i64, b: i64) -> i64 {
    saturate(a + b)
}

/// The saturated difference of two scalars.
pub open spec fn spec_fx_sub(a: i64, b: i64) -> i64 {
    saturate(a - b)
}

/// The saturated product of two scalars, rounded down to a millionth.
pub open spec fn spec_fx_mul(a: i64, b: i64) -> i64 {
    saturate((a * b) / (SCALE as int))
}

/// Twice a scalar, saturated.
pub open spec fn spec_fx_double(a: i64) -> i64 {
    saturate(2 * a)
}

/// The product of two 64-bit integers has magnitude at most `2^126`.
proof fn lemma_wide_product_fits(a: i64, b: i64)
    ensures
        -0x4000_0000_0000_0000_0000_0000_0000_0000 <= a * b
            <= 0x4000_0000_0000_0000_0000_0000_0000_0000,
{
    assert(-0x4000_0000_0000_0000_0000_0000_0000_0000 <= a * b
        <= 0x4000_0000_0000_0000_0000_0000_0000_0000) by (nonlinear_arith)
        requires
            -0x8000_0000_0000_0000 <= a <= 0x7fff_ffff_ffff_ffff,
            -0x8000_0000_0000_0000 <= b <= 0x7fff_ffff_ffff_ffff,
    ;
}

/// Narrows a wide intermediate result to `i64`, saturating at the bounds.
fn narrow(x: i128) -> (r: i64)
    ensures
        r == saturate(x as int),
{
    if x < i64::MIN as i128 {
        i64::MIN
    } else if x > i64::MAX as i128 {
        i64::MAX
    } else {
        x as i64
    }
}

/// Adds two scalars, saturating at the bounds of `i64`.
#[verifier::when_used_as_spec(spec_fx_add)]
pub fn fx_add(a: i64, b: i64) -> (r: i64)
    ensures
        r == spec_fx_add(a, b),
{
    narrow(a as i128 + b as i128)
}

/// Subtracts `b` from `a`, saturating at the bounds of `i64`.
#[verifier::when_used_as_spec(spec_fx_sub)]
pub fn fx_sub(a: i64, b: i64) -> (r: i64)
    ensures
        r == spec_fx_sub(a, b),
{
    narrow(a as i128 - b as i128)
}

/// Doubles a scalar, saturating at the bounds of `i64`.
#[verifier::when_used_as_spec(spec_fx_double)]
pub fn fx_double(a: i64) -> (r: i64)
    ensures
        r == spec_fx_double(a),
{
    narrow(2 * (a as i128))
}

/// Multiplies two scalars, rounding down and saturating.
#[verifier::when_used_as_spec(spec_fx_mul)]
pub fn fx_mul(a: i64, b: i64) -> (r: i64)
    ensures
        r == spec_fx_mul(a, b),
{
    proof {
        lemma_wide_product_fits(a, b);
    }
    let wide: i128 = (a as i128) * (b as i128);
    let quotient: i128 = wide.checked_div_euclid(SCALE as i128).unwrap();
    narrow(quotient)
}

/// Whether the magnitude of `c` is strictly less than `threshold`.
pub open spec fn spec_magnitude_below(c: i64, threshold: i64) -> bool {
    vstd::math::abs(c as int) < threshold
}

/// Tests whether the magnitude of `c` is strictly less than `threshold`.
#[verifier::when_used_as_spec(spec_magnitude_below)]
pub fn magnitude_below(c: i64, threshold: i64) -> (b: bool)
    ensures
        b == spec_magnitude_below(c, threshold),
{
    if c >= 0 {
        c < threshold
    } else {
        threshold > 0 && c > -threshold
    }
}

/// Multiplying by zero gives zero.
pub proof fn lemma_mul_by_zero(a: i64)
    ensures
        spec_fx_mul(0, a) == 0,
        spec_fx_mul(a, 0) == 0,
{
    assert(0 * a == 0 && a * 0 == 0) by (nonlinear_arith);
}

/// Multiplying by one whole unit changes nothing; multiplying by minus one
/// whole unit negates, saturating.
pub proof fn lemma_mul_by_unit(a: i64)
    ensures
        spec_fx_mul(SCALE, a) == a,
        spec_fx_mul(a, SCALE) == a,
        spec_fx_mul((-SCALE) as i64, a) == saturate(-a),
        spec_fx_mul(a, (-SCALE) as i64) == saturate(-a),
{
    assert(SCALE * a == a * 1_000_000 && a * SCALE == a * 1_000_000) by (nonlinear_arith);
    assert(((-SCALE) as i64) * a == (-a) * 1_000_000 && a * ((-SCALE) as i64) == (-a)
        * 1_000_000) by (nonlinear_arith);
}

/// A product with a factor between zero and one whole unit lies between
/// zero and the other factor, and is the exact product rounded down.
pub proof fn lemma_mul_by_fraction(a: i64, r: i64)
    requires
        0 <= r <= SCALE,
    ensures
        a >= 0 ==> 0 <= spec_fx_mul(a, r) <= a,
        a <= 0 ==> a <= spec_fx_mul(a, r) <= 0,
        SCALE * spec_fx_mul(a, r) <= a * r < SCALE * spec_fx_mul(a, r) + SCALE,
{
    let x = a * r;
    assert(a >= 0 ==> 0 <= x <= a * 1_000_000) by (nonlinear_arith)
        requires
            x == a * r,
            0 <= r <= 1_000_000,
    ;
    assert(a <= 0 ==> a * 1_000_000 <= x <= 0) by (nonlinear_arith)
        requires
            x == a * r,
            0 <= r <= 1_000_000,
    ;
    let q = x / 1_000_000;
    assert(1_000_000 * q <= x < 1_000_000 * q + 1_000_000);
}

} // verus!
