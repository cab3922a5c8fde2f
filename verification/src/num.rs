//! Scalar arithmetic for the belief engine.
//!
//! Every scalar value in the network is an IEEE-754 binary64 number carried as
//! its raw bit pattern in a `u64`.  Purely structural operations (negation,
//! absolute value, comparisons, min/max, clamping, NaN and infinity tests) are
//! fully specified over the bit pattern and verified here.  Rounded arithmetic
//! (`+`, `-`, `*`, `/`) and the transcendental functions are performed by
//! outside softfloat code behind trusted wrappers; each wrapper's result is
//! named by an uninterpreted spec function of its arguments, so that every
//! caller's contract can state exactly which value it computes.

use vstd::prelude::*;

use rustc_apfloat::Float;
use rustc_apfloat::ieee::Double;

verus! {

/// Sign bit of a binary64 bit pattern.
pub const SIGN_MASK: u64 = 0x8000_0000_0000_0000;

/// Exponent field of a binary64 bit pattern.
pub const EXP_MASK: u64 = 0x7FF0_0000_0000_0000;

/// Fraction field of a binary64 bit pattern.
pub const FRAC_MASK: u64 = 0x000F_FFFF_FFFF_FFFF;

/// Magnitude (everything but the sign) of a binary64 bit pattern.
pub const MAG_MASK: u64 = 0x7FFF_FFFF_FFFF_FFFF;

/// The bits of `0.0`.
pub const ZERO_BITS: u64 = 0x0000_0000_0000_0000;

/// The bits of `1.0`.
pub const ONE_BITS: u64 = 0x3FF0_0000_0000_0000;

/// The bits of `2.0`.
pub const TWO_BITS: u64 = 0x4000_0000_0000_0000;

/// The bits of `3.0`.
pub const THREE_BITS: u64 = 0x4008_0000_0000_0000;

/// The bits of `0.5`.
pub const HALF_BITS: u64 = 0x3FE0_0000_0000_0000;

/// The bits of `8.0`.
pub const EIGHT_BITS: u64 = 0x4020_0000_0000_0000;

/// The bits of `-4.0`.
pub const NEG_FOUR_BITS: u64 = 0xC010_0000_0000_0000;

/// The bits of `0.01`.
pub const CENT_BITS: u64 = 0x3F84_7AE1_47AE_147B;

/// The bits of `1.2`.
pub const ONE_POINT_TWO_BITS: u64 = 0x3FF3_3333_3333_3333;

/// The bits of `10^-128`, the global floor applied to precisions and
/// predicted volatilities.
pub const TINY_BITS: u64 = 0x255B_BA08_CF8C_979D;

/// The bits of `80.0`, the upper clamp applied to every exponent argument.
pub const CLAMP_HI_BITS: u64 = 0x4054_0000_0000_0000;

/// The bits of `-80.0`, the lower clamp applied to every exponent argument.
pub const CLAMP_LO_BITS: u64 = 0xC054_0000_0000_0000;

/// The bits of `-2.0`.
pub const NEG_TWO_BITS: u64 = 0xC000_0000_0000_0000;

/// The bits of `sqrt(2)`.
pub const SQRT_2_BITS: u64 = 0x3FF6_A09E_667F_3BCD;

/// The bits of `0.3275911`, the `p` of the Abramowitz-Stegun 7.1.26
/// approximation of `erfc`.
pub const ERFC_P_BITS: u64 = 0x3FD4_F740_A93D_7B8C;

/// The bits of `0.254829592`, the `a1` of the Abramowitz-Stegun 7.1.26
/// approximation of `erfc`.
pub const ERFC_A1_BITS: u64 = 0x3FD0_4F20_C6EC_5A7E;

/// The bits of `-0.284496736`, the `a2` of the Abramowitz-Stegun 7.1.26
/// approximation of `erfc`.
pub const ERFC_A2_BITS: u64 = 0xBFD2_3531_CC3C_1469;

/// The bits of `1.421413741`, the `a3` of the Abramowitz-Stegun 7.1.26
/// approximation of `erfc`.
pub const ERFC_A3_BITS: u64 = 0x3FF6_BE1C_55BA_E157;

/// The bits of `-1.453152027`, the `a4` of the Abramowitz-Stegun 7.1.26
/// approximation of `erfc`.
pub const ERFC_A4_BITS: u64 = 0xBFF7_401C_5701_4C39;

/// The bits of `1.061405429`, the `a5` of the Abramowitz-Stegun 7.1.26
/// approximation of `erfc`.
pub const ERFC_A5_BITS: u64 = 0x3FF0_FB84_4255_A12D;

/// The bits of `2*pi`.
pub const TAU_BITS: u64 = 0x4019_21FB_5444_2D18;

// ---------------------------------------------------------------------------
// Structural predicates and operations, fully specified over the bit pattern.
// ---------------------------------------------------------------------------

/// A binary64 value is NaN when its exponent field is all ones and its
/// fraction field is not zero.
pub open spec fn nan_bits(x: u64) -> bool {
    x & EXP_MASK == EXP_MASK && x & FRAC_MASK != 0
}

/// A binary64 value is an infinity when its exponent field is all ones and
/// its fraction field is zero.
pub open spec fn inf_bits(x: u64) -> bool {
    x & EXP_MASK == EXP_MASK && x & FRAC_MASK == 0
}

/// The order key of a non-NaN binary64 value: its magnitude, negated when the
/// sign bit is set.  Two non-NaN values compare (IEEE `<`) exactly as their
/// keys compare; both zeros have key 0.
pub open spec fn key_bits(x: u64) -> int {
    if x & SIGN_MASK != 0 {
        -((x & MAG_MASK) as int)
    } else {
        (x & MAG_MASK) as int
    }
}

/// IEEE `<` on two bit patterns: false when either is NaN.
pub open spec fn lt_of(a: u64, b: u64) -> bool {
    !nan_bits(a) && !nan_bits(b) && key_bits(a) < key_bits(b)
}

/// IEEE `<=` on two bit patterns: false when either is NaN.
pub open spec fn le_of(a: u64, b: u64) -> bool {
    !nan_bits(a) && !nan_bits(b) && key_bits(a) <= key_bits(b)
}

/// The maximum of two bit patterns, NaN ignored, as `f64::max` computes it:
/// a NaN operand yields the other operand; on a tie the first is kept.
pub open spec fn max_of(a: u64, b: u64) -> u64 {
    if nan_bits(a) {
        b
    } else if nan_bits(b) {
        a
    } else if key_bits(a) < key_bits(b) {
        b
    } else {
        a
    }
}

/// Clamping to `[lo, hi]` as `f64::clamp` computes it: a NaN input is
/// returned unchanged.
pub open spec fn clamp_of(x: u64, lo: u64, hi: u64) -> u64 {
    if lt_of(x, lo) {
        lo
    } else if lt_of(hi, x) {
        hi
    } else {
        x
    }
}

/// IEEE negation flips the sign bit and nothing else.
pub open spec fn neg_of(x: u64) -> u64 {
    x ^ SIGN_MASK
}

/// IEEE absolute value clears the sign bit and nothing else.
pub open spec fn abs_of(x: u64) -> u64 {
    x & MAG_MASK
}

/// Whether `x` is NaN.
pub fn is_nan(x: u64) -> (r: bool)
    ensures
        r == nan_bits(x),
{
    x & EXP_MASK == EXP_MASK && x & FRAC_MASK != 0
}

/// Whether `x` is an infinity.
pub fn is_inf(x: u64) -> (r: bool)
    ensures
        r == inf_bits(x),
{
    x & EXP_MASK == EXP_MASK && x & FRAC_MASK == 0
}

/// IEEE `<` on two bit patterns.
pub fn lt_bits(a: u64, b: u64) -> (r: bool)
    ensures
        r == lt_of(a, b),
{
    if is_nan(a) || is_nan(b) {
        return false;
    }
    let sa = a & SIGN_MASK != 0;
    let sb = b & SIGN_MASK != 0;
    let ma = a & MAG_MASK;
    let mb = b & MAG_MASK;
    if sa {
        if sb {
            mb < ma
        } else {
            ma != 0 || mb != 0
        }
    } else {
        if sb {
            false
        } else {
            ma < mb
        }
    }
}

/// IEEE `<=` on two bit patterns.
pub fn le_bits(a: u64, b: u64) -> (r: bool)
    ensures
        r == le_of(a, b),
{
    !is_nan(a) && !is_nan(b) && !lt_bits(b, a)
}

/// The maximum of two bit patterns, NaN ignored, as `f64::max`.
pub fn max_bits(a: u64, b: u64) -> (r: u64)
    ensures
        r == max_of(a, b),
{
    if is_nan(a) {
        b
    } else if is_nan(b) {
        a
    } else if lt_bits(a, b) {
        b
    } else {
        a
    }
}

/// Clamping to `[lo, hi]` as `f64::clamp`.
pub fn clamp_bits(x: u64, lo: u64, hi: u64) -> (r: u64)
    ensures
        r == clamp_of(x, lo, hi),
{
    if lt_bits(x, lo) {
        lo
    } else if lt_bits(hi, x) {
        hi
    } else {
        x
    }
}

/// IEEE negation.
pub fn neg_bits(x: u64) -> (r: u64)
    ensures
        r == neg_of(x),
{
    x ^ SIGN_MASK
}

/// IEEE absolute value.
pub fn abs_bits(x: u64) -> (r: u64)
    ensures
        r == abs_of(x),
{
    x & MAG_MASK
}

// ---------------------------------------------------------------------------
// Rounded arithmetic, performed by outside softfloat code.  Each result is
// a pure function of the argument bit patterns, named by an uninterpreted
// spec function.
// ---------------------------------------------------------------------------

/// The binary64 sum of two bit patterns, rounded to nearest even.
pub uninterp spec fn add_of(a: u64, b: u64) -> u64;

/// The binary64 difference of two bit patterns, rounded to nearest even.
pub uninterp spec fn sub_of(a: u64, b: u64) -> u64;

/// The binary64 product of two bit patterns, rounded to nearest even.
pub uninterp spec fn mul_of(a: u64, b: u64) -> u64;

/// The binary64 quotient of two bit patterns, rounded to nearest even.
pub uninterp spec fn div_of(a: u64, b: u64) -> u64;

/// The binary64 value nearest to the integer `n`.
pub uninterp spec fn count_of(n: usize) -> u64;

/// `exp` on a binary64 bit pattern.
pub uninterp spec fn exp_of(x: u64) -> u64;

/// The natural logarithm on a binary64 bit pattern.
pub uninterp spec fn ln_of(x: u64) -> u64;

/// The square root on a binary64 bit pattern.
pub uninterp spec fn sqrt_of(x: u64) -> u64;

/// The hyperbolic tangent on a binary64 bit pattern.
pub uninterp spec fn tanh_of(x: u64) -> u64;

/// Relies on rustc_apfloat's IEEE-754 binary64 addition (round to nearest
/// even), applied to the two bit patterns.
#[verifier::external_body]
pub fn add_bits(a: u64, b: u64) -> (r: u64)
    ensures
        r == add_of(a, b),
{
    (Double::from_bits(a as u128) + Double::from_bits(b as u128)).value.to_bits() as u64
}

/// Relies on rustc_apfloat's IEEE-754 binary64 subtraction (round to nearest
/// even), applied to the two bit patterns.
#[verifier::external_body]
pub fn sub_bits(a: u64, b: u64) -> (r: u64)
    ensures
        r == sub_of(a, b),
{
    (Double::from_bits(a as u128) - Double::from_bits(b as u128)).value.to_bits() as u64
}

/// Relies on rustc_apfloat's IEEE-754 binary64 multiplication (round to
/// nearest even), applied to the two bit patterns.
#[verifier::external_body]
pub fn mul_bits(a: u64, b: u64) -> (r: u64)
    ensures
        r == mul_of(a, b),
{
    (Double::from_bits(a as u128) * Double::from_bits(b as u128)).value.to_bits() as u64
}

/// Relies on rustc_apfloat's IEEE-754 binary64 division (round to nearest
/// even), applied to the two bit patterns.
#[verifier::external_body]
pub fn div_bits(a: u64, b: u64) -> (r: u64)
    ensures
        r == div_of(a, b),
{
    (Double::from_bits(a as u128) / Double::from_bits(b as u128)).value.to_bits() as u64
}

/// Relies on rustc_apfloat's integer-to-binary64 conversion (round to
/// nearest even).
#[verifier::external_body]
pub fn count_bits(n: usize) -> (r: u64)
    ensures
        r == count_of(n),
{
    Double::from_u128(n as u128).value.to_bits() as u64
}

/// Relies on libm's `exp`, a pure function of its argument's bits.
#[verifier::external_body]
pub fn exp_bits(x: u64) -> (r: u64)
    ensures
        r == exp_of(x),
{
    bytemuck::cast(libm::exp(bytemuck::cast(x)))
}

/// Relies on libm's `log` (natural logarithm), a pure function of its
/// argument's bits.
#[verifier::external_body]
pub fn ln_bits(x: u64) -> (r: u64)
    ensures
        r == ln_of(x),
{
    bytemuck::cast(libm::log(bytemuck::cast(x)))
}

/// Relies on libm's `sqrt` (correctly rounded per IEEE-754), a pure function
/// of its argument's bits.
#[verifier::external_body]
pub fn sqrt_bits(x: u64) -> (r: u64)
    ensures
        r == sqrt_of(x),
{
    bytemuck::cast(libm::sqrt(bytemuck::cast(x)))
}

/// Relies on libm's `tanh`, a pure function of its argument's bits.
#[verifier::external_body]
pub fn tanh_bits(x: u64) -> (r: u64)
    ensures
        r == tanh_of(x),
{
    bytemuck::cast(libm::tanh(bytemuck::cast(x)))
}

} // verus!
