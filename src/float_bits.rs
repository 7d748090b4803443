use vstd::arithmetic::power2::{
    lemma2_to64, lemma2_to64_rest, lemma_pow2_pos, lemma_pow2_strictly_increases, lemma_pow2_unfold,
    pow2,
};
use vstd::bits::{lemma_u64_pow2_no_overflow, lemma_u64_shl_is_mul, lemma_u64_shr_is_div};
use vstd::prelude::*;

verus! {

/// A 64-bit IEEE-754 floating-point value, held as its bit pattern.
///
/// Raster metadata such as the no-data sentinel is stored as a double; the
/// library reads it through this type and never performs float arithmetic.
#[derive(Clone, Copy, Debug, PartialEq, Eq)]
pub struct Float64Bits {
    pub bits: u64,
}

/// A 32-bit IEEE-754 floating-point value, held as its bit pattern.
#[derive(Clone, Copy, Debug, PartialEq, Eq)]
pub struct Float32Bits {
    pub bits: u32,
}

/// 2^52: one past the largest fraction field.
pub const FRACTION_RANGE: u64 = 0x10_0000_0000_0000;

/// 2^63: the weight of the sign bit.
pub const SIGN_WEIGHT: u64 = 0x8000_0000_0000_0000;

/// The all-ones biased exponent, shared by infinities and NaNs.
pub const EXPONENT_ALL_ONES: u64 = 0x7ff;

/// Exponent bias (1023) plus the width of the fraction field (52).
pub const SCALE_BIAS: u64 = 1075;

pub open spec fn sign_bit(b: u64) -> bool {
    b / SIGN_WEIGHT == 1
}

pub open spec fn exponent_field(b: u64) -> int {
    (b / FRACTION_RANGE) as int % 0x800
}

pub open spec fn fraction_field(b: u64) -> int {
    (b % FRACTION_RANGE) as int
}

pub open spec fn is_nan(b: u64) -> bool {
    exponent_field(b) == 0x7ff && fraction_field(b) != 0
}

pub open spec fn is_infinite(b: u64) -> bool {
    exponent_field(b) == 0x7ff && fraction_field(b) == 0
}

pub open spec fn is_finite(b: u64) -> bool {
    exponent_field(b) != 0x7ff
}

/// The integer significand: the fraction field, with the hidden bit for normal numbers.
pub open spec fn significand(b: u64) -> nat {
    if exponent_field(b) == 0 {
        fraction_field(b) as nat
    } else {
        (fraction_field(b) + FRACTION_RANGE) as nat
    }
}

/// The power of two that scales the significand: a finite value is
/// `significand(b) * 2^scale_exponent(b)`, negated when the sign bit is set.
pub open spec fn scale_exponent(b: u64) -> int {
    if exponent_field(b) == 0 {
        1 - SCALE_BIAS
    } else {
        exponent_field(b) - SCALE_BIAS
    }
}

/// The magnitude of a finite value with its fractional part dropped.
pub open spec fn truncated_magnitude(b: u64) -> nat {
    if scale_exponent(b) >= 0 {
        significand(b) * pow2(scale_exponent(b) as nat)
    } else {
        significand(b) / pow2((-scale_exponent(b)) as nat)
    }
}

/// A finite value rounded toward zero.
pub open spec fn truncated_value(b: u64) -> int {
    if sign_bit(b) {
        -truncated_magnitude(b)
    } else {
        truncated_magnitude(b) as int
    }
}

pub open spec fn clamp(x: int, lo: int, hi: int) -> int {
    if x < lo {
        lo
    } else if x > hi {
        hi
    } else {
        x
    }
}

/// The numeric cast of a double into the integer range `lo..=hi`: round
/// toward zero, saturate at the bounds, infinities go to the bound of their
/// sign, and NaN becomes zero.
pub open spec fn cast_value(b: u64, lo: int, hi: int) -> int {
    if is_nan(b) {
        0
    } else if is_infinite(b) {
        if sign_bit(b) {
            lo
        } else {
            hi
        }
    } else {
        clamp(truncated_value(b), lo, hi)
    }
}

/// The bound on the target ranges that `cast_to_range` serves.
pub const RANGE_LIMIT: i64 = 0x1_0000_0000;

/// Casts the double with bit pattern `bits` into the integer range `lo..=hi`.
pub fn cast_to_range(bits: u64, lo: i64, hi: i64) -> (r: i64)
    requires
        -RANGE_LIMIT <= lo <= 0 <= hi <= RANGE_LIMIT,
    ensures
        r == cast_value(bits, lo as int, hi as int),
        lo <= r <= hi,
{
    let frac: u64 = bits % FRACTION_RANGE;
    let exp: u64 = (bits / FRACTION_RANGE) % 0x800;
    let negative: bool = bits / SIGN_WEIGHT == 1;
    if exp == EXPONENT_ALL_ONES {
        if frac != 0 {
            return 0;
        } else if negative {
            return lo;
        } else {
            return hi;
        }
    }
    proof {
        lemma2_to64();
        lemma2_to64_rest();
    }
    // `mag` is the truncated magnitude, or any value past both bounds when
    // the true magnitude is at least 2^52.
    let mag: u64 = if exp >= SCALE_BIAS {
        proof {
            let e = (scale_exponent(bits)) as nat;
            lemma_pow2_pos(e);
            assert(significand(bits) >= FRACTION_RANGE);
            assert(significand(bits) * pow2(e) >= FRACTION_RANGE) by (nonlinear_arith)
                requires
                    significand(bits) >= FRACTION_RANGE,
                    pow2(e) >= 1,
            ;
        }
        FRACTION_RANGE
    } else {
        assert(frac < FRACTION_RANGE);
        let sig: u64 = if exp == 0 {
            frac
        } else {
            frac + FRACTION_RANGE
        };
        let shift: u64 = if exp == 0 {
            SCALE_BIAS - 1
        } else {
            SCALE_BIAS - exp
        };
        assert(shift as int == -scale_exponent(bits));
        assert(sig as nat == significand(bits));
        if shift >= 64 {
            proof {
                lemma_pow2_strictly_increases(53, shift as nat);
                assert(sig < pow2(53));
                vstd::arithmetic::div_mod::lemma_basic_div(sig as int, pow2(shift as nat) as int);
            }
            0
        } else {
            proof {
                lemma_u64_shr_is_div(sig, shift);
                lemma_pow2_pos(shift as nat);
                vstd::arithmetic::div_mod::lemma_div_is_ordered_by_denominator(
                    sig as int,
                    1,
                    pow2(shift as nat) as int,
                );
            }
            sig >> shift
        }
    };
    assert(mag <= 0x20_0000_0000_0000);
    assert(mag >= FRACTION_RANGE ==> truncated_magnitude(bits) >= FRACTION_RANGE);
    assert(mag < FRACTION_RANGE ==> truncated_magnitude(bits) == mag);
    if negative {
        if mag as i64 > -lo {
            lo
        } else {
            -(mag as i64)
        }
    } else {
        if mag as i64 > hi {
            hi
        } else {
            mag as i64
        }
    }
}

/// `n / 2^k` rounded to the nearest integer, ties to the even one.
pub open spec fn round_half_even(n: nat, k: nat) -> nat {
    let q = n / pow2(k);
    let r = n % pow2(k);
    if k == 0 {
        n
    } else if r > pow2((k - 1) as nat) || (r == pow2((k - 1) as nat) && q % 2 == 1) {
        q + 1
    } else {
        q
    }
}

/// The single-precision bit pattern, sign bit excluded, nearest to the
/// magnitude of a finite double (ties to even), or infinity past the largest
/// finite single.
///
/// The double is `significand * 2^e`. A single has 24 significant bits down
/// to the quantum `2^-149`, so `k` low bits of the significand are rounded
/// off, leaving `m * 2^(e + k)`. Its pattern is `(e + k + 149) * 2^23 + m`:
/// the exponent field counts from the subnormal range, and a rounding that
/// carries into a new power of two carries into the exponent field.
pub open spec fn narrowed_magnitude(b: u64) -> int {
    let e = scale_exponent(b);
    let k: int = if e + 29 >= -149 {
        29
    } else {
        -149 - e
    };
    let m = round_half_even(significand(b), k as nat);
    let pattern = (e + k + 149) * 0x80_0000 + m;
    if pattern >= 0x7f80_0000 {
        0x7f80_0000
    } else {
        pattern
    }
}

/// The numeric cast of a double to a single: the sign is kept, a NaN stays
/// a NaN, made quiet, with the top of its payload, infinities stay infinite, and a
/// finite value is rounded to the nearest single.
pub open spec fn narrowed(b: u64) -> u32 {
    let sign: int = if sign_bit(b) {
        0x8000_0000
    } else {
        0
    };
    if is_nan(b) {
        (sign + 0x7fc0_0000 + fraction_field(b) / (pow2(29) as int) % 0x40_0000) as u32
    } else if is_infinite(b) {
        (sign + 0x7f80_0000) as u32
    } else {
        (sign + narrowed_magnitude(b)) as u32
    }
}

/// Narrows the double with bit pattern `bits` to a single's bit pattern.
pub fn narrow_to_single(bits: u64) -> (r: u32)
    ensures
        r == narrowed(bits),
{
    proof {
        lemma2_to64();
        lemma2_to64_rest();
    }
    let frac: u64 = bits % FRACTION_RANGE;
    let exp: u64 = (bits / FRACTION_RANGE) % 0x800;
    let sign: u32 = if bits / SIGN_WEIGHT == 1 {
        0x8000_0000
    } else {
        0
    };
    if exp == EXPONENT_ALL_ONES {
        if frac != 0 {
            proof {
                lemma_u64_shr_is_div(frac, 29);
                assert(frac < FRACTION_RANGE);
                assert(frac / 0x2000_0000u64 < 0x80_0000) by (nonlinear_arith)
                    requires
                        frac < 0x10_0000_0000_0000u64,
                ;
            }
            let payload: u64 = frac >> 29;
            assert(payload == frac / 0x2000_0000u64);
            return sign + 0x7fc0_0000 + (payload % 0x40_0000) as u32;
        } else {
            return sign + 0x7f80_0000;
        }
    }
    let sig: u64 = if exp == 0 {
        frac
    } else {
        frac + FRACTION_RANGE
    };
    let e: i64 = if exp == 0 {
        1 - SCALE_BIAS as i64
    } else {
        exp as i64 - SCALE_BIAS as i64
    };
    assert(sig as nat == significand(bits));
    assert(e as int == scale_exponent(bits));
    let k: u64 = if e + 29 >= -149 {
        29
    } else {
        (-149 - e) as u64
    };
    if k > 54 {
        proof {
            lemma_pow2_strictly_increases(53, (k - 1) as nat);
            lemma_pow2_unfold(k as nat);
            vstd::arithmetic::div_mod::lemma_basic_div(sig as int, pow2(k as nat) as int);
            vstd::arithmetic::div_mod::lemma_small_mod(sig as nat, pow2(k as nat));
            assert(round_half_even(sig as nat, k as nat) == 0);
        }
        return sign;
    }
    proof {
        lemma_u64_pow2_no_overflow(k as nat);
        lemma_u64_shl_is_mul(1, k);
        lemma_pow2_unfold(k as nat);
        lemma_pow2_pos(k as nat);
    }
    let p: u64 = 1u64 << k;
    let q: u64 = sig / p;
    let rem: u64 = sig % p;
    let half: u64 = p / 2;
    assert(half as nat == pow2((k - 1) as nat));
    let m: u64 = if rem > half || (rem == half && q % 2 == 1) {
        proof {
            vstd::arithmetic::div_mod::lemma_div_is_ordered_by_denominator(sig as int, 1, p as int);
        }
        q + 1
    } else {
        q
    };
    assert(m as nat == round_half_even(sig as nat, k as nat));
    let exponent: i64 = e + k as i64 + 149;
    if exponent >= 255 {
        return sign + 0x7f80_0000;
    }
    proof {
        vstd::arithmetic::div_mod::lemma_div_is_ordered_by_denominator(sig as int, 1, p as int);
    }
    let pattern: u64 = exponent as u64 * 0x80_0000 + m;
    if pattern >= 0x7f80_0000 {
        sign + 0x7f80_0000
    } else {
        sign + pattern as u32
    }
}

} // verus!
