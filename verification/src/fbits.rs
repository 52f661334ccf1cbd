//! Bit-pattern arithmetic for IEEE 754 single-precision values.
//!
//! The level formats store several quantities as 32-bit floats. This crate
//! keeps such values as their raw bit patterns (`u32`), and the codec needs a
//! handful of operations on them: taking the absolute value, testing and
//! setting the sign, converting to and from integers, and (for the
//! customizable moving platform) taking the floor and classifying the
//! fractional part. All of those are pure functions of the bit pattern and are
//! implemented here as integer algorithms, specified by spec functions of the
//! same shape.
//!
//! Layout of a bit pattern `b`: sign `b >> 31`, biased exponent
//! `(b >> 23) & 0xff`, mantissa `b & 0x7f_ffff`. A finite value with biased
//! exponent `e >= 1` is `(mantissa + 2^23) * 2^(e - 150)` (times the sign);
//! `e == 0` is a zero or subnormal, smaller than one in magnitude; `e == 255`
//! is an infinity (mantissa zero) or a NaN (mantissa nonzero).

use vstd::prelude::*;

verus! {

/// Bit pattern of positive infinity; also the magnitude threshold for NaNs.
pub const F32B_INFINITY: u32 = 0x7f80_0000;

/// The bit pattern with the sign bit cleared (the IEEE absolute value).
pub open spec fn spec_abs(b: u32) -> u32 {
    b & 0x7fff_ffff
}

/// Whether the sign bit is set (true also for negative zero and some NaNs).
pub open spec fn spec_sign(b: u32) -> bool {
    b & 0x8000_0000 != 0
}

/// Whether the pattern is a NaN.
pub open spec fn spec_is_nan(b: u32) -> bool {
    spec_abs(b) > F32B_INFINITY
}

/// Whether the value compares strictly less than zero (`v < 0.0`):
/// the sign bit is set and the value is neither a NaN nor negative zero.
pub open spec fn spec_lt_zero(b: u32) -> bool {
    spec_sign(b) && !spec_is_nan(b) && spec_abs(b) != 0
}

/// The biased exponent field.
pub open spec fn spec_exp(b: u32) -> u32 {
    (b >> 23) & 0xff
}

/// The mantissa field.
pub open spec fn spec_mant(b: u32) -> u32 {
    b & 0x7f_ffff
}

/// The mantissa with the implicit leading bit, meaningful for `e >= 1`.
pub open spec fn spec_full_mant(b: u32) -> u32 {
    spec_mant(b) | 0x80_0000
}

/// Truncation of the magnitude toward zero, saturated to `u32::MAX`
/// (meaningful for non-NaN patterns). For a finite magnitude
/// `full * 2^(e - 150)` this is the integer part.
pub open spec fn spec_trunc_abs(b: u32) -> u32 {
    let e = spec_exp(b);
    if e < 127 {
        0
    } else if e >= 159 {
        u32::MAX
    } else if e <= 150 {
        spec_full_mant(b) >> ((150 - e) as u32)
    } else {
        ((spec_full_mant(b) as u64) << ((e - 150) as u64)) as u32
    }
}

/// Whether the magnitude has a nonzero fractional part (meaningful for
/// non-NaN patterns; false for infinities).
pub open spec fn spec_has_fract(b: u32) -> bool {
    let e = spec_exp(b);
    if e >= 150 {
        false
    } else if e == 0 {
        spec_mant(b) != 0
    } else if e >= 127 {
        spec_full_mant(b) & (((1u32 << ((150 - e) as u32)) - 1) as u32) != 0
    } else {
        true
    }
}

/// The `as u32` cast of the value: NaNs and negative values give zero,
/// values at or above `2^32` saturate, otherwise truncation toward zero.
pub open spec fn spec_to_u32(b: u32) -> u32 {
    if spec_is_nan(b) || spec_sign(b) {
        0
    } else {
        spec_trunc_abs(b)
    }
}

/// The `as i32` cast of the value: NaN gives zero, out-of-range values
/// saturate, otherwise truncation toward zero.
pub open spec fn spec_to_i32(b: u32) -> i32 {
    if spec_is_nan(b) {
        0
    } else if spec_sign(b) {
        if spec_trunc_abs(b) >= 0x8000_0000 {
            i32::MIN
        } else {
            (0 - spec_trunc_abs(b)) as i32
        }
    } else {
        if spec_trunc_abs(b) >= 0x8000_0000 {
            i32::MAX
        } else {
            spec_trunc_abs(b) as i32
        }
    }
}

/// The `as u8` cast of the value: NaNs and negative values give zero,
/// values at or above 256 saturate to 255.
pub open spec fn spec_to_u8(b: u32) -> u8 {
    if spec_to_u32(b) > 255 {
        255
    } else {
        spec_to_u32(b) as u8
    }
}

/// The magnitude of the floor of the value (`v.floor().abs()`): truncation
/// for nonnegative values, truncation plus one for negative values with a
/// fractional part. Saturates to `u32::MAX`; NaNs give zero.
pub open spec fn spec_floor_abs(b: u32) -> u32 {
    if spec_is_nan(b) {
        0
    } else if spec_sign(b) && spec_has_fract(b) && spec_trunc_abs(b) != u32::MAX {
        (spec_trunc_abs(b) + 1) as u32
    } else {
        spec_trunc_abs(b)
    }
}

/// Number of bits needed to write `n` in binary; zero for `n == 0`.
pub open spec fn spec_bitlen(n: u64) -> nat
    decreases n,
{
    if n == 0 {
        0
    } else {
        1 + spec_bitlen(n / 2)
    }
}

/// The bit pattern of `q / 4` rounded to nearest (ties to even), for a
/// nonnegative magnitude given in quarters. Exact whenever `q < 2^26`.
pub open spec fn spec_of_quarters(q: u64) -> u32 {
    if q == 0 {
        0
    } else {
        let k = (spec_bitlen(q) - 1) as u64;
        if k <= 23 {
            // q * 2^(23 - k) has its top bit at position 23; the exponent of
            // q / 4 is k - 2, biased to 125 + k.
            (((125 + k) as u32) << 23u32) | ((q << ((23 - k) as u64)) as u32 & 0x7f_ffff)
        } else {
            let sh = (k - 23) as u64;
            let main = q >> sh;
            let rem = q & (((1u64 << sh) - 1) as u64);
            let half = 1u64 << ((sh - 1) as u64);
            let mant24 = if rem > half || (rem == half && main & 1 == 1) {
                (main + 1) as u64
            } else {
                main
            };
            if mant24 == 0x100_0000 {
                ((126 + k) as u32) << 23u32
            } else {
                (((125 + k) as u32) << 23u32) | ((mant24 as u32) & 0x7f_ffff)
            }
        }
    }
}

/// The bit pattern of the integer `x` (`x as f32`), rounded to nearest,
/// ties to even. Exact whenever `x < 2^24`.
pub open spec fn spec_of_u32(x: u32) -> u32 {
    spec_of_quarters(((x as u64) * 4) as u64)
}

/// Classification of the fractional part of the magnitude by the thresholds
/// the customizable moving platform uses: 0 when `fract < 0.1` or
/// `fract >= 0.6`, 1 when `0.1 <= fract < 0.3`, 2 when `0.3 <= fract < 0.6`.
pub open spec fn spec_fract_band(b: u32) -> u32 {
    if spec_is_nan(b) {
        0
    } else {
        let e = spec_exp(b);
        if e >= 150 || e < 120 {
            0
        } else {
            // The fractional part of the magnitude is fnum / 2^s.
            let s = (150 - e) as u64;
            let fnum: u64 = if e >= 127 {
                (spec_full_mant(b) & (((1u32 << ((150 - e) as u32)) - 1) as u32)) as u64
            } else if e >= 1 {
                spec_full_mant(b) as u64
            } else {
                spec_mant(b) as u64
            };
            let t = (10 * fnum) as u64;
            let p = 1u64 << s;
            if t < p {
                0
            } else if t < (3 * p) as u64 {
                1
            } else if t < (6 * p) as u64 {
                2
            } else {
                0
            }
        }
    }
}

/// Clears the sign bit.
pub fn f32b_abs(b: u32) -> (r: u32)
    ensures
        r == spec_abs(b),
{
    b & 0x7fff_ffff
}

/// Whether the value compares strictly less than zero.
pub fn f32b_lt_zero(b: u32) -> (r: bool)
    ensures
        r == spec_lt_zero(b),
{
    let a = b & 0x7fff_ffff;
    b & 0x8000_0000 != 0 && a <= F32B_INFINITY && a != 0
}

/// Sets the sign bit when `neg` holds; the pattern must be nonnegative.
/// This is how the codec folds a boolean flag into a float slot.
pub fn f32b_apply_sign(b: u32, neg: bool) -> (r: u32)
    requires
        !spec_sign(b),
    ensures
        spec_abs(r) == b,
        spec_sign(r) == neg,
        !neg ==> r == b,
        spec_is_nan(r) == spec_is_nan(b),
        spec_lt_zero(r) == (neg && !spec_is_nan(b) && b != 0),
{
    let r = if neg {
        b | 0x8000_0000
    } else {
        b
    };
    proof {
        assert(spec_abs(r) == b && spec_sign(r) == neg && spec_abs(b) == b) by (bit_vector)
            requires
                b & 0x8000_0000 == 0,
                r == if neg {
                    b | 0x8000_0000u32
                } else {
                    b
                },
        ;
    }
    r
}

/// Truncation of the magnitude toward zero.
fn trunc_abs(b: u32) -> (r: u32)
    ensures
        r == spec_trunc_abs(b),
{
    let a = b & 0x7fff_ffff;
    let e = a >> 23;
    let m = a & 0x7f_ffff;
    proof {
        assert(e == (b >> 23) & 0xff && m == b & 0x7f_ffff && e < 256 && m < 0x80_0000)
            by (bit_vector)
            requires
                a == b & 0x7fff_ffff,
                e == a >> 23,
                m == a & 0x7f_ffff,
        ;
    }
    if e < 127 {
        0
    } else if e >= 159 {
        u32::MAX
    } else if e <= 150 {
        (m | 0x80_0000) >> (150 - e)
    } else {
        (((m | 0x80_0000) as u64) << ((e - 150) as u64)) as u32
    }
}

/// Whether the magnitude has a nonzero fractional part.
fn has_fract(b: u32) -> (r: bool)
    ensures
        r == spec_has_fract(b),
{
    let a = b & 0x7fff_ffff;
    let e = a >> 23;
    let m = a & 0x7f_ffff;
    proof {
        assert(e == (b >> 23) & 0xff && m == b & 0x7f_ffff && e < 256 && m < 0x80_0000)
            by (bit_vector)
            requires
                a == b & 0x7fff_ffff,
                e == a >> 23,
                m == a & 0x7f_ffff,
        ;
    }
    if e >= 150 {
        false
    } else if e == 0 {
        m != 0
    } else if e >= 127 {
        let s = 150 - e;
        proof {
            assert(1u32 << s >= 1) by (bit_vector)
                requires
                    1 <= s <= 23,
            ;
        }
        (m | 0x80_0000) & ((1u32 << s) - 1) != 0
    } else {
        true
    }
}

/// The `as u32` cast of the value.
pub fn f32b_to_u32(b: u32) -> (r: u32)
    ensures
        r == spec_to_u32(b),
{
    let a = b & 0x7fff_ffff;
    if a > F32B_INFINITY || b & 0x8000_0000 != 0 {
        return 0;
    }
    trunc_abs(b)
}

/// The `as i32` cast of the value.
pub fn f32b_to_i32(b: u32) -> (r: i32)
    ensures
        r == spec_to_i32(b),
{
    let a = b & 0x7fff_ffff;
    if a > F32B_INFINITY {
        return 0;
    }
    let t = trunc_abs(b);
    if b & 0x8000_0000 != 0 {
        if t >= 0x8000_0000 {
            i32::MIN
        } else {
            -(t as i32)
        }
    } else {
        if t >= 0x8000_0000 {
            i32::MAX
        } else {
            t as i32
        }
    }
}

/// The `as u8` cast of the value.
pub fn f32b_to_u8(b: u32) -> (r: u8)
    ensures
        r == spec_to_u8(b),
{
    let t = f32b_to_u32(b);
    if t > 255 {
        255
    } else {
        t as u8
    }
}

/// The magnitude of the floor of the value.
pub fn f32b_floor_abs(b: u32) -> (r: u32)
    ensures
        r == spec_floor_abs(b),
{
    let a = b & 0x7fff_ffff;
    if a > F32B_INFINITY {
        return 0;
    }
    let t = trunc_abs(b);
    if b & 0x8000_0000 != 0 && has_fract(b) && t != u32::MAX {
        t + 1
    } else {
        t
    }
}

/// The position of the highest set bit of `n`, which must be nonzero.
fn bit_length_minus_one(n: u64) -> (k: u64)
    requires
        n != 0,
    ensures
        k == (spec_bitlen(n) - 1) as u64,
        k < 64,
        n >> k == 1,
{
    let mut k: u64 = 0;
    let mut v: u64 = n;
    assert(n >> 0u64 == n) by (bit_vector);
    while v >= 2
        invariant
            v == n >> k,
            v >= 1,
            k < 64,
            spec_bitlen(n) == spec_bitlen(v) + k,
        decreases v,
    {
        proof {
            assert(k <= 62) by {
                assert(n >> k >= 2 ==> k <= 62) by (bit_vector);
            }
            assert(n >> (k + 1) as u64 == (n >> k) / 2) by (bit_vector)
                requires
                    k <= 62,
            ;
        }
        v = v / 2;
        k = k + 1;
    }
    proof {
        reveal_with_fuel(spec_bitlen, 3);
        assert(spec_bitlen(1) == 1);
    }
    k
}

/// The bit pattern of `q / 4`, rounded to nearest, ties to even.
pub fn f32b_of_quarters(q: u64) -> (r: u32)
    ensures
        r == spec_of_quarters(q),
{
    if q == 0 {
        return 0;
    }
    let k = bit_length_minus_one(q);
    if k <= 23 {
        proof {
            assert((q << ((23 - k) as u64)) <= u32::MAX && (125 + k) < 256) by (bit_vector)
                requires
                    k <= 23 && q >> k == 1,
            ;
        }
        (((125 + k) as u32) << 23u32) | ((q << (23 - k)) as u32 & 0x7f_ffff)
    } else {
        let sh = k - 23;
        proof {
            assert(1u64 << sh >= 2 && q >> sh <= 0xff_ffff) by (bit_vector)
                requires
                    sh == (k - 23) as u64 && 23 < k < 64 && q >> k == 1,
            ;
        }
        let main = q >> sh;
        let rem = q & ((1u64 << sh) - 1);
        let half = 1u64 << (sh - 1);
        let mant24 = if rem > half || (rem == half && main & 1 == 1) {
            main + 1
        } else {
            main
        };
        if mant24 == 0x100_0000 {
            ((126 + k) as u32) << 23u32
        } else {
            (((125 + k) as u32) << 23u32) | ((mant24 as u32) & 0x7f_ffff)
        }
    }
}

/// The bit pattern of `x as f32`.
pub fn f32b_of_u32(x: u32) -> (r: u32)
    ensures
        r == spec_of_u32(x),
{
    f32b_of_quarters((x as u64) * 4)
}

/// Classification of the fractional part of the magnitude: 0 below one
/// tenth or at three fifths and above, 1 up to three tenths, 2 up to three
/// fifths.
pub fn f32b_fract_band(b: u32) -> (r: u32)
    ensures
        r == spec_fract_band(b),
        r <= 2,
{
    let a = b & 0x7fff_ffff;
    if a > F32B_INFINITY {
        return 0;
    }
    let e = a >> 23;
    let m = a & 0x7f_ffff;
    proof {
        assert(e == (b >> 23) & 0xff && m == b & 0x7f_ffff && e < 256 && m < 0x80_0000)
            by (bit_vector)
            requires
                a == b & 0x7fff_ffff,
                e == a >> 23,
                m == a & 0x7f_ffff,
        ;
    }
    if e >= 150 || e < 120 {
        return 0;
    }
    let s = (150 - e) as u64;
    let fnum: u64 = if e >= 127 {
        let sm = 150 - e;
        proof {
            assert(1u32 << sm >= 1) by (bit_vector)
                requires
                    1 <= sm <= 23,
            ;
        }
        ((m | 0x80_0000) & ((1u32 << sm) - 1)) as u64
    } else if e >= 1 {
        (m | 0x80_0000) as u64
    } else {
        m as u64
    };
    let t = 10 * fnum;
    let p = 1u64 << s;
    if t < p {
        0
    } else if t < 3 * p {
        1
    } else if t < 6 * p {
        2
    } else {
        0
    }
}

} // verus!

