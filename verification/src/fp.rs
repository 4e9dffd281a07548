//! Floating-point values are carried through the machine as their raw
//! IEEE-754 bit patterns (`u64` for doubles, `u32` for singles). The
//! arithmetic itself is done by rustc_apfloat, a software IEEE-754
//! implementation, behind trusted wrappers; each result is named by an
//! uninterpreted spec function of the operand bits alone, so the same bits
//! always give the same bits.

use vstd::prelude::*;
use rustc_apfloat::Float;
use rustc_apfloat::FloatConvert;
use rustc_apfloat::Round;
use rustc_apfloat::ieee::Double;
use rustc_apfloat::ieee::Single;

verus! {

/// The double-precision bit pattern of 0.0.
pub const D_ZERO_BITS: u64 = 0;

/// The double-precision bit pattern of 1.0.
pub const D_ONE_BITS: u64 = 0x3FF0000000000000;

/// A double's bits denote zero exactly when everything but the sign bit is
/// clear (positive or negative zero).
pub open spec fn spec_d_is_zero(bits: u64) -> bool {
    bits == 0 || bits == 0x8000000000000000u64
}

/// Whether the bits denote positive or negative double-precision zero.
pub fn d_is_zero(bits: u64) -> (r: bool)
    ensures
        r == spec_d_is_zero(bits),
{
    bits == 0 || bits == 0x8000000000000000u64
}

/// The bits of the IEEE-754 double sum of the operands' bits.
pub uninterp spec fn dadd_of(a: u64, b: u64) -> u64;

/// Relies on rustc_apfloat's IEEE-754 double addition: the result depends
/// on the operand bits alone.
#[verifier::external_body]
pub fn dadd_bits(a: u64, b: u64) -> (r: u64)
    ensures
        r == dadd_of(a, b),
{
    (Double::from_bits(a as u128) + Double::from_bits(b as u128)).value.to_bits() as u64
}

/// The bits of the IEEE-754 double difference of the operands' bits.
pub uninterp spec fn dsub_of(a: u64, b: u64) -> u64;

/// Relies on rustc_apfloat's IEEE-754 double subtraction: the result
/// depends on the operand bits alone.
#[verifier::external_body]
pub fn dsub_bits(a: u64, b: u64) -> (r: u64)
    ensures
        r == dsub_of(a, b),
{
    (Double::from_bits(a as u128) - Double::from_bits(b as u128)).value.to_bits() as u64
}

/// The bits of the IEEE-754 double product of the operands' bits.
pub uninterp spec fn dmul_of(a: u64, b: u64) -> u64;

/// Relies on rustc_apfloat's IEEE-754 double multiplication: the result
/// depends on the operand bits alone.
#[verifier::external_body]
pub fn dmul_bits(a: u64, b: u64) -> (r: u64)
    ensures
        r == dmul_of(a, b),
{
    (Double::from_bits(a as u128) * Double::from_bits(b as u128)).value.to_bits() as u64
}

/// The bits of the IEEE-754 double quotient of the operands' bits.
pub uninterp spec fn ddiv_of(a: u64, b: u64) -> u64;

/// Relies on rustc_apfloat's IEEE-754 double division: the result depends
/// on the operand bits alone.
#[verifier::external_body]
pub fn ddiv_bits(a: u64, b: u64) -> (r: u64)
    ensures
        r == ddiv_of(a, b),
{
    (Double::from_bits(a as u128) / Double::from_bits(b as u128)).value.to_bits() as u64
}

/// The i32 a double's bits convert to: rounded toward zero, saturated at
/// the i32 bounds, zero for NaN.
pub uninterp spec fn d2i_of(a: u64) -> i32;

/// Relies on rustc_apfloat's float-to-integer conversion, which rounds
/// toward zero and returns deterministic values on invalid operations:
/// zero for NaN, the extreme i32 for overflow.
#[verifier::external_body]
pub fn d2i_bits(a: u64) -> (r: i32)
    ensures
        r == d2i_of(a),
{
    Double::from_bits(a as u128).to_i128(32).value as i32
}

/// The i64 a double's bits convert to: rounded toward zero, saturated at
/// the i64 bounds, zero for NaN.
pub uninterp spec fn d2l_of(a: u64) -> i64;

/// Relies on rustc_apfloat's float-to-integer conversion, as `d2i_bits`
/// but with 64-bit width.
#[verifier::external_body]
pub fn d2l_bits(a: u64) -> (r: i64)
    ensures
        r == d2l_of(a),
{
    Double::from_bits(a as u128).to_i128(64).value as i64
}

/// The double bits an i32 converts to (always exact).
pub uninterp spec fn i2d_of(a: i32) -> u64;

/// Relies on rustc_apfloat's integer-to-double conversion; every i32 is
/// exactly representable.
#[verifier::external_body]
pub fn i2d_bits(a: i32) -> (r: u64)
    ensures
        r == i2d_of(a),
{
    Double::from_i128(a as i128).value.to_bits() as u64
}

/// The double bits an i64 converts to, rounded to nearest.
pub uninterp spec fn l2d_of(a: i64) -> u64;

/// Relies on rustc_apfloat's integer-to-double conversion.
#[verifier::external_body]
pub fn l2d_bits(a: i64) -> (r: u64)
    ensures
        r == l2d_of(a),
{
    Double::from_i128(a as i128).value.to_bits() as u64
}

/// The double bits a single's bits widen to (always exact).
pub uninterp spec fn f2d_of(a: u32) -> u64;

/// Relies on rustc_apfloat's single-to-double conversion.
#[verifier::external_body]
pub fn f2d_bits(a: u32) -> (r: u64)
    ensures
        r == f2d_of(a),
{
    let mut loses_info = false;
    let wide: Double = Single::from_bits(a as u128).convert(&mut loses_info).value;
    wide.to_bits() as u64
}

/// The single bits a double's bits narrow to, rounded to nearest.
pub uninterp spec fn d2f_of(a: u64) -> u32;

/// Relies on rustc_apfloat's double-to-single conversion.
#[verifier::external_body]
pub fn d2f_bits(a: u64) -> (r: u32)
    ensures
        r == d2f_of(a),
{
    let mut loses_info = false;
    let narrow: Single = Double::from_bits(a as u128).convert(&mut loses_info).value;
    narrow.to_bits() as u32
}

/// The i32 a single's bits convert to: rounded toward zero, saturated,
/// zero for NaN.
pub uninterp spec fn f2i_of(a: u32) -> i32;

/// Relies on rustc_apfloat's float-to-integer conversion, as `d2i_bits`.
#[verifier::external_body]
pub fn f2i_bits(a: u32) -> (r: i32)
    ensures
        r == f2i_of(a),
{
    Single::from_bits(a as u128).to_i128(32).value as i32
}

/// The single bits an i32 converts to, rounded to nearest.
pub uninterp spec fn i2f_of(a: i32) -> u32;

/// Relies on rustc_apfloat's integer-to-single conversion.
#[verifier::external_body]
pub fn i2f_bits(a: i32) -> (r: u32)
    ensures
        r == i2f_of(a),
{
    Single::from_i128(a as i128).value.to_bits() as u32
}

/// Whether the first double's bits compare strictly greater than the
/// second's under IEEE-754 ordering (false when either is NaN).
pub uninterp spec fn dgt_of(a: u64, b: u64) -> bool;

/// Relies on rustc_apfloat's IEEE-754 partial order on doubles.
#[verifier::external_body]
pub fn dgt_bits(a: u64, b: u64) -> (r: bool)
    ensures
        r == dgt_of(a, b),
{
    Double::from_bits(a as u128) > Double::from_bits(b as u128)
}

/// Whether the first double's bits compare strictly less than the
/// second's under IEEE-754 ordering (false when either is NaN).
pub uninterp spec fn dlt_of(a: u64, b: u64) -> bool;

/// Relies on rustc_apfloat's IEEE-754 partial order on doubles.
#[verifier::external_body]
pub fn dlt_bits(a: u64, b: u64) -> (r: bool)
    ensures
        r == dlt_of(a, b),
{
    Double::from_bits(a as u128) < Double::from_bits(b as u128)
}

/// The bits of the double rounded to an integral value toward negative
/// infinity.
pub uninterp spec fn dfloor_of(a: u64) -> u64;

/// Relies on rustc_apfloat's round-to-integral with downward rounding.
#[verifier::external_body]
pub fn dfloor_bits(a: u64) -> (r: u64)
    ensures
        r == dfloor_of(a),
{
    Double::from_bits(a as u128).round_to_integral(Round::TowardNegative).value.to_bits() as u64
}

/// The bits of the double rounded to an integral value toward positive
/// infinity.
pub uninterp spec fn dceil_of(a: u64) -> u64;

/// Relies on rustc_apfloat's round-to-integral with upward rounding.
#[verifier::external_body]
pub fn dceil_bits(a: u64) -> (r: u64)
    ensures
        r == dceil_of(a),
{
    Double::from_bits(a as u128).round_to_integral(Round::TowardPositive).value.to_bits() as u64
}

/// The bits of the double rounded to the nearest integral value, ties
/// away from zero.
pub uninterp spec fn dround_of(a: u64) -> u64;

/// Relies on rustc_apfloat's round-to-integral with ties-away rounding.
#[verifier::external_body]
pub fn dround_bits(a: u64) -> (r: u64)
    ensures
        r == dround_of(a),
{
    Double::from_bits(a as u128).round_to_integral(Round::NearestTiesToAway).value.to_bits() as u64
}

/// The decimal rendering of a double's bits.
pub uninterp spec fn double_str_of(a: u64) -> Seq<char>;

/// Relies on rustc_apfloat's decimal formatting of doubles; the text
/// depends on the bits alone. Its spelling of corner values (infinities,
/// exponents) is this formatter's own and can differ from other decimal
/// renderers of the same bits.
#[verifier::external_body]
pub fn double_text(a: u64) -> (r: String)
    ensures
        r@ == double_str_of(a),
{
    format!("{}", Double::from_bits(a as u128))
}

/// The decimal rendering of a single's bits.
pub uninterp spec fn float_str_of(a: u32) -> Seq<char>;

/// Relies on rustc_apfloat's decimal formatting of singles; the text
/// depends on the bits alone.
#[verifier::external_body]
pub fn float_text(a: u32) -> (r: String)
    ensures
        r@ == float_str_of(a),
{
    format!("{}", Single::from_bits(a as u128))
}

/// The double bits a piece of text parses to, or nothing when the text is
/// not a decimal or hexadecimal floating-point literal.
pub uninterp spec fn parse_double_of(s: Seq<char>) -> Option<u64>;

/// Relies on rustc_apfloat's floating-point literal parser; the outcome
/// depends on the text alone. Its grammar also admits hexadecimal
/// literals, and on a literal with two billion or more digits its
/// exponent bookkeeping would not return, so such text is left out.
#[verifier::external_body]
pub fn parse_double_text(s: &str) -> (r: Option<u64>)
    requires
        s@.len() < 0x80000000,
    ensures
        r == parse_double_of(s@),
{
    match s.parse::<Double>() {
        Ok(d) => Some(d.to_bits() as u64),
        Err(_) => None,
    }
}

/// Java's `Math.abs` on doubles clears the sign bit and changes nothing
/// else, so it is plain bit logic here, not a trusted call.
pub fn dabs_bits(a: u64) -> (r: u64)
    ensures
        r == a & 0x7FFFFFFFFFFFFFFFu64,
{
    a & 0x7FFFFFFFFFFFFFFFu64
}

/// A uniformly random integer below 2^53, the mantissa width that a
/// uniform double in [0, 1) is built from.
///
/// Relies on rand's `random_range`: the result is within the given range;
/// nothing else can be said of a random draw.
#[verifier::external_body]
pub fn rand_u53() -> (r: u64)
    ensures
        r < 0x20000000000000u64,
{
    rand::Rng::random_range(&mut rand::rng(), 0..0x20000000000000u64)
}

/// The bits of a uniformly random double in [0, 1): a random 53-bit
/// integer divided by 2^53. Which double comes back is unknowable; what is
/// known is that it is such a quotient.
pub fn random_double_bits() -> (r: u64)
    ensures
        exists|k: u64|
            k < 0x20000000000000u64 && r == ddiv_of(
                #[trigger] l2d_of(k as i64),
                l2d_of(0x20000000000000i64),
            ),
{
    let k = rand_u53();
    let num = l2d_bits(k as i64);
    let den = l2d_bits(0x20000000000000i64);
    ddiv_bits(num, den)
}

} // verus!
