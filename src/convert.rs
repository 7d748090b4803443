use crate::float_bits::{
    cast_to_range, cast_value, is_finite, narrow_to_single, narrowed, scale_exponent, significand,
    truncated_magnitude, truncated_value, Float32Bits, Float64Bits,
};
use vstd::arithmetic::power2::{lemma_pow2_pos, pow2};
use vstd::prelude::*;

verus! {

/// Narrowing of a raster metadata value into a pixel type: total, with no
/// failure path.
pub trait GdalFrom<T>: Sized {
    spec fn converted(t: T) -> Self;

    fn from(t: T) -> (r: Self)
        ensures
            r == Self::converted(t),
    ;
}

impl GdalFrom<Float64Bits> for u8 {
    open spec fn converted(t: Float64Bits) -> u8 {
        cast_value(t.bits, 0, 0xff) as u8
    }

    fn from(t: Float64Bits) -> (r: u8) {
        cast_to_range(t.bits, 0, 0xff) as u8
    }
}

impl GdalFrom<Float64Bits> for u16 {
    open spec fn converted(t: Float64Bits) -> u16 {
        cast_value(t.bits, 0, 0xffff) as u16
    }

    fn from(t: Float64Bits) -> (r: u16) {
        cast_to_range(t.bits, 0, 0xffff) as u16
    }
}

impl GdalFrom<Float64Bits> for u32 {
    open spec fn converted(t: Float64Bits) -> u32 {
        cast_value(t.bits, 0, 0xffff_ffff) as u32
    }

    fn from(t: Float64Bits) -> (r: u32) {
        cast_to_range(t.bits, 0, 0xffff_ffff) as u32
    }
}

impl GdalFrom<Float64Bits> for i16 {
    open spec fn converted(t: Float64Bits) -> i16 {
        cast_value(t.bits, -0x8000, 0x7fff) as i16
    }

    fn from(t: Float64Bits) -> (r: i16) {
        cast_to_range(t.bits, -0x8000, 0x7fff) as i16
    }
}

impl GdalFrom<Float64Bits> for i32 {
    open spec fn converted(t: Float64Bits) -> i32 {
        cast_value(t.bits, -0x8000_0000, 0x7fff_ffff) as i32
    }

    fn from(t: Float64Bits) -> (r: i32) {
        cast_to_range(t.bits, -0x8000_0000, 0x7fff_ffff) as i32
    }
}

/// A single-precision pixel takes the double rounded to the nearest single.
impl GdalFrom<Float64Bits> for Float32Bits {
    open spec fn converted(t: Float64Bits) -> Float32Bits {
        Float32Bits { bits: narrowed(t.bits) }
    }

    fn from(t: Float64Bits) -> (r: Float32Bits) {
        Float32Bits { bits: narrow_to_single(t.bits) }
    }
}

/// A double-precision pixel keeps the value as it is.
impl GdalFrom<Float64Bits> for Float64Bits {
    open spec fn converted(t: Float64Bits) -> Float64Bits {
        t
    }

    fn from(t: Float64Bits) -> (r: Float64Bits) {
        t
    }
}

/// The double `b` holds exactly the integer `v`: it is finite and has no
/// fractional part.
pub open spec fn holds_integer(b: u64, v: int) -> bool {
    &&& is_finite(b)
    &&& truncated_value(b) == v
    &&& (scale_exponent(b) >= 0 || significand(b) % pow2((-scale_exponent(b)) as nat) == 0)
}

/// The double `b` is finite and its value, rounded toward zero, is `v`.
pub open spec fn truncates_to(b: u64, v: int) -> bool {
    is_finite(b) && truncated_value(b) == v
}

/// A double that holds an integer representable in an integer pixel type
/// converts to exactly that integer.
pub proof fn lemma_integer_round_trip(b: Float64Bits, v: int)
    requires
        holds_integer(b.bits, v),
    ensures
        0 <= v <= u8::MAX ==> <u8 as GdalFrom<Float64Bits>>::converted(b) as int == v,
        0 <= v <= u16::MAX ==> <u16 as GdalFrom<Float64Bits>>::converted(b) as int == v,
        0 <= v <= u32::MAX ==> <u32 as GdalFrom<Float64Bits>>::converted(b) as int == v,
        i16::MIN <= v <= i16::MAX ==> <i16 as GdalFrom<Float64Bits>>::converted(b) as int == v,
        i32::MIN <= v <= i32::MAX ==> <i32 as GdalFrom<Float64Bits>>::converted(b) as int == v,
{
}

/// Converting a finite double whose truncation lies within an integer pixel
/// type's range yields that truncation, which drops less than one unit of
/// magnitude: `m * 2^k <= significand < (m + 1) * 2^k`, where `m` is the
/// result's magnitude and `2^k` the significand's divisor.
pub proof fn lemma_in_range_truncation(b: Float64Bits, v: int)
    requires
        truncates_to(b.bits, v),
    ensures
        0 <= v <= u8::MAX ==> <u8 as GdalFrom<Float64Bits>>::converted(b) as int == v,
        0 <= v <= u16::MAX ==> <u16 as GdalFrom<Float64Bits>>::converted(b) as int == v,
        0 <= v <= u32::MAX ==> <u32 as GdalFrom<Float64Bits>>::converted(b) as int == v,
        i16::MIN <= v <= i16::MAX ==> <i16 as GdalFrom<Float64Bits>>::converted(b) as int == v,
        i32::MIN <= v <= i32::MAX ==> <i32 as GdalFrom<Float64Bits>>::converted(b) as int == v,
        v == truncated_magnitude(b.bits) || v == -truncated_magnitude(b.bits),
        scale_exponent(b.bits) < 0 ==> {
            let k = pow2((-scale_exponent(b.bits)) as nat);
            truncated_magnitude(b.bits) * k <= significand(b.bits) < (truncated_magnitude(b.bits)
                + 1) * k
        },
{
    if scale_exponent(b.bits) < 0 {
        let k = pow2((-scale_exponent(b.bits)) as nat);
        lemma_pow2_pos((-scale_exponent(b.bits)) as nat);
        vstd::arithmetic::div_mod::lemma_fundamental_div_mod(significand(b.bits) as int, k as int);
        let m = truncated_magnitude(b.bits);
        let s = significand(b.bits);
        assert(m == s / k);
        assert(m * k <= s < (m + 1) * k) by (nonlinear_arith)
            requires
                s == k * (s / k) + s % k,
                0 <= s % k < k,
                m == s / k,
        ;
    }
}

} // verus!
