//! Scalars of the network as IEEE 754 double bit patterns.
//!
//! A `u64` here is always the bit pattern of a double. The arithmetic the
//! network needs is named by uninterpreted spec functions (`add_bits`,
//! `mul_bits`, ...): each stands for the result of one IEEE 754 operation,
//! a pure function of its argument patterns, computed by an outside crate
//! behind a trusted wrapper. What can be stated exactly over the bits —
//! negation, the sign test against zero — is implemented and verified here
//! instead of trusted.

use vstd::prelude::*;

verus! {

use rustc_apfloat::Float;

/// Bit pattern of the double 0.0.
pub const BITS_ZERO: u64 = 0x0000_0000_0000_0000;

/// Bit pattern of the double 1.0.
pub const BITS_ONE: u64 = 0x3FF0_0000_0000_0000;

/// Bit pattern of the double -0.04, the slope of the leaky rectifier on
/// negative pre-activations.
pub const BITS_NEG_SLOPE: u64 = 0xBFA4_7AE1_47AE_147B;

/// Bit pattern of the double -0.0: only the sign bit set.
pub const BITS_MINUS_ZERO: u64 = 0x8000_0000_0000_0000;

/// The pattern of the result of adding the doubles `a` and `b`.
pub uninterp spec fn add_bits(a: u64, b: u64) -> u64;

/// The pattern of the result of subtracting the double `b` from `a`.
pub uninterp spec fn sub_bits(a: u64, b: u64) -> u64;

/// The pattern of the result of multiplying the doubles `a` and `b`.
pub uninterp spec fn mul_bits(a: u64, b: u64) -> u64;

/// The pattern of the result of dividing the double `a` by `b`.
pub uninterp spec fn div_bits(a: u64, b: u64) -> u64;

/// The pattern of e raised to the double `a`.
pub uninterp spec fn exp_bits(a: u64) -> u64;

/// The pattern of the natural logarithm of the double `a`.
pub uninterp spec fn ln_bits(a: u64) -> u64;

/// The pattern of the square root of the double `a`.
pub uninterp spec fn sqrt_bits(a: u64) -> u64;

/// The pattern of the double nearest to the integer `n`.
pub uninterp spec fn int_bits(n: usize) -> u64;

/// True when the double with pattern `a` compares `>= 0.0`: the sign bit is
/// clear and the pattern is not a NaN, or the pattern is -0.0. A NaN has all
/// eleven exponent bits set and a non-zero fraction, and compares false.
pub open spec fn is_ge_zero(a: u64) -> bool {
    if a == BITS_MINUS_ZERO {
        true
    } else {
        a >> 63 == 0 && !is_nan(a)
    }
}

/// True when the pattern `a` is a NaN: exponent bits all set, fraction not zero.
pub open spec fn is_nan(a: u64) -> bool {
    (a >> 52) & 0x7FF == 0x7FF && a & 0x000F_FFFF_FFFF_FFFF != 0
}

/// The pattern of the negated double: IEEE 754 negation flips the sign bit.
pub open spec fn neg_bits(a: u64) -> u64 {
    a ^ 0x8000_0000_0000_0000
}

/// Whether the double with pattern `a` is greater than or equal to zero,
/// decided on the bits exactly as the IEEE 754 comparison does.
pub fn ge_zero(a: u64) -> (r: bool)
    ensures
        r == is_ge_zero(a),
{
    if a == BITS_MINUS_ZERO {
        true
    } else {
        let sign_clear = a >> 63 == 0;
        let exponent = (a >> 52) & 0x7FF;
        let fraction = a & 0x000F_FFFF_FFFF_FFFF;
        sign_clear && !(exponent == 0x7FF && fraction != 0)
    }
}

/// The pattern of the negated double: the sign bit flipped.
pub fn neg(a: u64) -> (r: u64)
    ensures
        r == neg_bits(a),
{
    a ^ 0x8000_0000_0000_0000
}

/// Relies on rustc_apfloat's IEEE 754 double addition (`add_r`, rounding to
/// nearest even), a pure function of the two argument patterns.
#[verifier::external_body]
pub(crate) fn f_add(a: u64, b: u64) -> (r: u64)
    ensures
        r == add_bits(a, b),
{
    let x = rustc_apfloat::ieee::Double::from_bits(a as u128);
    let y = rustc_apfloat::ieee::Double::from_bits(b as u128);
    (x + y).value.to_bits() as u64
}

/// Relies on rustc_apfloat's IEEE 754 double subtraction (`sub_r`, rounding
/// to nearest even), a pure function of the two argument patterns.
#[verifier::external_body]
pub(crate) fn f_sub(a: u64, b: u64) -> (r: u64)
    ensures
        r == sub_bits(a, b),
{
    let x = rustc_apfloat::ieee::Double::from_bits(a as u128);
    let y = rustc_apfloat::ieee::Double::from_bits(b as u128);
    (x - y).value.to_bits() as u64
}

/// Relies on rustc_apfloat's IEEE 754 double multiplication (`mul_r`,
/// rounding to nearest even), a pure function of the two argument patterns.
#[verifier::external_body]
pub(crate) fn f_mul(a: u64, b: u64) -> (r: u64)
    ensures
        r == mul_bits(a, b),
{
    let x = rustc_apfloat::ieee::Double::from_bits(a as u128);
    let y = rustc_apfloat::ieee::Double::from_bits(b as u128);
    (x * y).value.to_bits() as u64
}

/// Relies on rustc_apfloat's IEEE 754 double division (`div_r`, rounding to
/// nearest even), a pure function of the two argument patterns.
#[verifier::external_body]
pub(crate) fn f_div(a: u64, b: u64) -> (r: u64)
    ensures
        r == div_bits(a, b),
{
    let x = rustc_apfloat::ieee::Double::from_bits(a as u128);
    let y = rustc_apfloat::ieee::Double::from_bits(b as u128);
    (x / y).value.to_bits() as u64
}

/// Relies on libm::exp: e raised to a double, a pure function of the
/// argument pattern.
#[verifier::external_body]
pub(crate) fn f_exp(a: u64) -> (r: u64)
    ensures
        r == exp_bits(a),
{
    bytemuck::cast(libm::exp(bytemuck::cast(a)))
}

/// Relies on libm::log: the natural logarithm of a double, a pure function
/// of the argument pattern.
#[verifier::external_body]
pub(crate) fn f_ln(a: u64) -> (r: u64)
    ensures
        r == ln_bits(a),
{
    bytemuck::cast(libm::log(bytemuck::cast(a)))
}

/// Relies on libm::sqrt: the square root of a double, a pure function of the
/// argument pattern.
#[verifier::external_body]
pub(crate) fn f_sqrt(a: u64) -> (r: u64)
    ensures
        r == sqrt_bits(a),
{
    bytemuck::cast(libm::sqrt(bytemuck::cast(a)))
}

/// Relies on num_traits::ToPrimitive::to_f64 for usize, which always returns
/// `Some(n as f64)`: the double nearest to `n`. The unwrap never fails.
#[verifier::external_body]
pub(crate) fn f_from_int(n: usize) -> (r: u64)
    ensures
        r == int_bits(n),
{
    bytemuck::cast(num_traits::ToPrimitive::to_f64(&n).unwrap())
}

/// Relies on rand_distr's Normal distribution, sampled with rand's thread
/// rng: a draw from a normal with mean zero and the given standard
/// deviation. The result is random, so nothing is promised of it; `None`
/// comes back exactly when rand_distr rejects the standard deviation
/// (a non-finite double).
#[verifier::external_body]
pub(crate) fn f_sample_normal(sd_bits: u64) -> (r: Option<u64>)
{
    let mean = num_traits::ToPrimitive::to_f64(&0usize).unwrap();
    let normal = match rand_distr::Normal::new(mean, bytemuck::cast(sd_bits)) {
        Ok(n) => n,
        Err(_) => {
            return None;
        },
    };
    let z = rand_distr::Distribution::sample(&normal, &mut rand::thread_rng());
    Some(bytemuck::cast(z))
}

} // verus!
