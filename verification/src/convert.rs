//! Conversions between normalized integer channel encodings.
//!
//! A unorm channel with `n` bits stores the value `x / (2^n - 1)` in `[0, 1]`. A snorm channel
//! stores the two's complement integer `s` as the value `max(s / (2^(n-1) - 1), -1)` in `[-1, 1]`.
//! Converting between signed and unsigned channels remaps `[-1, 1]` to `[0, 1]`.
//! Every conversion rounds to the nearest representable value, with ties away from zero.
use vstd::prelude::*;
use vstd::arithmetic::power2::pow2;

verus! {

/// `n / d` rounded to the nearest integer, with ties rounded up.
pub open spec fn round_half_up(n: int, d: int) -> int {
    (2 * n + d) / (2 * d)
}

/// `n / d` rounded to the nearest integer, with ties rounded away from zero.
pub open spec fn round_half_away(n: int, d: int) -> int {
    if n >= 0 {
        round_half_up(n, d)
    } else {
        -round_half_up(-n, d)
    }
}

/// The signed value of the byte `x` read as two's complement.
pub open spec fn snorm8_int(x: u8) -> int {
    if x < 128 {
        x as int
    } else {
        x - 256
    }
}

/// The signed value of `x` read as two's complement.
pub open spec fn snorm16_int(x: u16) -> int {
    if x < 32768 {
        x as int
    } else {
        x - 65536
    }
}

/// The unorm8 value closest to the snorm8 value `s`, remapping `[-1, 1]` to `[0, 1]`.
/// The two smallest values `-128` and `-127` both stand for `-1`.
pub open spec fn spec_snorm8_to_unorm8(s: int) -> int {
    let c = if s < -127 { -127 } else { s };
    round_half_up((c + 127) * 255, 254)
}

/// The snorm8 value closest to the unorm8 value `x`, remapping `[0, 1]` to `[-1, 1]`.
pub open spec fn spec_unorm8_to_snorm8(x: int) -> int {
    round_half_away((2 * x - 255) * 127, 255)
}

/// The unorm8 value closest to the snorm16 value `s`, remapping `[-1, 1]` to `[0, 1]`.
pub open spec fn spec_snorm16_to_unorm8(s: int) -> int {
    let c = if s < -32767 { -32767 } else { s };
    round_half_up((c + 32767) * 255, 65534)
}

/// The snorm16 value closest to the unorm8 value `x`, remapping `[0, 1]` to `[-1, 1]`.
pub open spec fn spec_unorm8_to_snorm16(x: int) -> int {
    round_half_away((2 * x - 255) * 32767, 255)
}

/// Convert a snorm8 byte to the unorm8 value that represents the same point after
/// remapping `[-1, 1]` to `[0, 1]`.
pub fn snorm8_to_unorm8(x: u8) -> (r: u8)
    ensures
        r == spec_snorm8_to_unorm8(snorm8_int(x)),
{
    // Validated against decoding R8Snorm DDS with GPU and paint.net (DirectXTex).
    let r = if x < 128 {
        x + 128
    } else if x == 128 {
        0
    } else {
        x - 129
    };
    assert(r == spec_snorm8_to_unorm8(snorm8_int(x))) by (nonlinear_arith)
        requires
            r == (if x < 128 { x + 128 } else if x == 128 { 0 } else { x - 129 }),
    ;
    r
}

/// Convert a unorm8 value to the snorm8 byte that represents the same point after
/// remapping `[0, 1]` to `[-1, 1]`.
pub fn unorm8_to_snorm8(x: u8) -> (r: u8)
    ensures
        snorm8_int(r) == spec_unorm8_to_snorm8(x as int),
{
    // Inverse of snorm_to_unorm.
    let r = if x >= 128 {
        x - 128
    } else if x == 127 {
        0
    } else {
        x + 129
    };
    assert(snorm8_int(r) == spec_unorm8_to_snorm8(x as int)) by (nonlinear_arith)
        requires
            r == (if x >= 128 { x - 128 } else if x == 127 { 0 } else { x + 129 }),
    ;
    r
}

/// Expand a 4 bit unorm value to 8 bits.
pub fn unorm4_to_unorm8(x: u8) -> (r: u8)
    requires
        x < 16,
    ensures
        r == round_half_up(x * 255, 15),
        r == x * 17,
{
    assert(x * 17 == round_half_up(x * 255, 15)) by (nonlinear_arith)
        requires
            x < 16,
    ;
    x * 17
}

/// Reduce an 8 bit unorm value to the nearest 4 bit value.
pub fn unorm8_to_unorm4(x: u8) -> (r: u8)
    ensures
        r == round_half_up(x * 15, 255),
        r < 16,
{
    let y = x as u16;
    assert(((y * 15 + 135) as u16) >> 8u16 == (2 * y + 17) / 34 && (2 * y + 17) / 34 < 16) by (bit_vector)
        requires
            y < 256,
    ;
    assert((2 * x + 17) / 34 == round_half_up(x * 15, 255)) by (nonlinear_arith);
    ((y * 15 + 135) >> 8) as u8
}

/// Reduce a 16 bit unorm value to the nearest 8 bit value.
pub fn unorm16_to_unorm8(x: u16) -> (r: u8)
    ensures
        r == round_half_up(x * 255, 65535),
{
    let y = x as u32;
    assert(((y * 255 + 32895) as u32) >> 16u32 == (2 * y + 257) / 514 && (2 * y + 257) / 514 < 256) by (bit_vector)
        requires
            y < 65536,
    ;
    assert((2 * x + 257) / 514 == round_half_up(x * 255, 65535)) by (nonlinear_arith);
    ((y * 255 + 32895) >> 16) as u8
}

/// Expand an 8 bit unorm value to 16 bits.
pub fn unorm8_to_unorm16(x: u8) -> (r: u16)
    ensures
        r == round_half_up(x * 65535, 255),
        r == x * 257,
{
    assert(x * 257 == round_half_up(x * 65535, 255)) by (nonlinear_arith);
    x as u16 * 257
}

/// Convert a snorm16 value to the unorm8 value that represents the closest point after
/// remapping `[-1, 1]` to `[0, 1]`.
pub fn snorm16_to_unorm8(x: u16) -> (r: u8)
    ensures
        r == spec_snorm16_to_unorm8(snorm16_int(x)),
{
    // The offset value s + 32767 of the clamped signed value s, in 0..=65534.
    let c: u64 = if x < 32768 {
        x as u64 + 32767
    } else if x == 32768 {
        0
    } else {
        x as u64 - 32769
    };
    let n = c * 255;
    let r = (2 * n + 65534) / 131068;
    assert(r == spec_snorm16_to_unorm8(snorm16_int(x)) && r < 256) by (nonlinear_arith)
        requires
            c == (if x < 32768 { x + 32767 } else if x == 32768 { 0 } else { x - 32769 }),
            n == c * 255,
            r == (2 * n + 65534) / 131068,
    ;
    r as u8
}

/// Convert a unorm8 value to the snorm16 value that represents the closest point after
/// remapping `[0, 1]` to `[-1, 1]`.
pub fn unorm8_to_snorm16(x: u8) -> (r: i16)
    ensures
        r == spec_unorm8_to_snorm16(x as int),
{
    let r = if x >= 128 {
        let n = (2 * x as u32 - 255) * 32767;
        ((2 * n + 255) / 510) as i16
    } else {
        let n = (255 - 2 * x as u32) * 32767;
        -(((2 * n + 255) / 510) as i16)
    };
    assert(r == spec_unorm8_to_snorm16(x as int)) by (nonlinear_arith)
        requires
            x >= 128 ==> r == (2 * ((2 * x - 255) * 32767) + 255) / 510,
            x < 128 ==> r == -((2 * ((255 - 2 * x) * 32767) + 255) / 510),
    ;
    r
}

/// The significand of the finite half-precision float with bits `h`, as an integer.
pub open spec fn half_significand(h: u16) -> int {
    let e = (h / 1024) % 32;
    let m = h % 1024;
    if e == 0 { m as int } else { m + 1024 }
}

/// The power of two by which the significand of the finite half-precision float with bits
/// `h` is scaled, after the common factor `2^-24`.
pub open spec fn half_scale(h: u16) -> nat {
    let e = (h / 1024) % 32;
    if e == 0 { 0 } else { (e - 1) as nat }
}

/// The unorm8 value of the half-precision float with bits `h` scaled by 255 and truncated
/// toward zero, saturating at `0` and `255`: negative values and NaN give 0,
/// positive infinity gives 255.
pub open spec fn spec_half_to_unorm8(h: u16) -> int {
    let e = (h / 1024) % 32;
    let m = h % 1024;
    if h >= 32768 || (e == 31 && m != 0) {
        0
    } else if e == 31 {
        255
    } else {
        let v = half_significand(h) * 255 * (pow2(half_scale(h)) as int) / (pow2(24) as int);
        if v > 255 { 255 } else { v }
    }
}

/// Convert the half-precision float with bits `h` to a unorm8 channel: the value scaled
/// by 255 and truncated, saturating at `0` and `255`.
///
/// Every half-precision value scaled by 255 is exact in single precision, so this is the
/// value of the single-precision product converted with `as u8`.
pub fn half_to_unorm8(h: u16) -> (r: u8)
    ensures
        r == spec_half_to_unorm8(h),
{
    let e = (h >> 10) & 31;
    let m = h & 1023;
    assert(e == (h / 1024) % 32 && m == h % 1024) by (bit_vector)
        requires
            e == (h >> 10u16) & 31,
            m == h & 1023,
    ;
    if h >= 32768 || (e == 31 && m != 0) {
        return 0;
    }
    if e == 31 {
        return 255;
    }
    let sig: u64 = if e == 0 { m as u64 } else { m as u64 + 1024 };
    let scale: u64 = if e == 0 { 0 } else { e as u64 - 1 };
    let p = sig * 255;
    proof {
        vstd::arithmetic::power2::lemma2_to64();
        vstd::arithmetic::power2::lemma_pow2_strictly_increases(48, 64);
        if scale < 29 {
            vstd::arithmetic::power2::lemma_pow2_strictly_increases(scale as nat, 29);
        }
        vstd::arithmetic::power2::lemma_pow2_pos(scale as nat);
        vstd::arithmetic::power2::lemma_pow2_adds(19, 29);
        assert(p * pow2(scale as nat) <= pow2(19) * pow2(29)) by (nonlinear_arith)
            requires
                p < pow2(19),
                0 < pow2(scale as nat) <= pow2(29),
        ;
        vstd::bits::lemma_u64_shl_is_mul(p, scale);
    }
    let shifted = p << scale;
    proof {
        vstd::bits::lemma_u64_shr_is_div(shifted, 24);
    }
    let v = shifted >> 24;
    if v > 255 {
        255
    } else {
        v as u8
    }
}

/// Converting a snorm8 value to unorm8 and back gives the value back, except for `-128`,
/// which stands for `-1` as `-127` does.
pub proof fn lemma_snorm8_unorm8_roundtrip(x: u8)
    requires
        x != 128,
    ensures
        snorm8_int(x) == spec_unorm8_to_snorm8(spec_snorm8_to_unorm8(snorm8_int(x))),
{
    assert(snorm8_int(x) == spec_unorm8_to_snorm8(spec_snorm8_to_unorm8(snorm8_int(x))))
        by (nonlinear_arith)
        requires
            x != 128,
    ;
}

/// Converting a unorm8 value to snorm8 and back gives the value back, except for `127`,
/// which lies as close to `0` as `128` does.
pub proof fn lemma_unorm8_snorm8_roundtrip(x: u8)
    requires
        x != 127,
    ensures
        x == spec_snorm8_to_unorm8(spec_unorm8_to_snorm8(x as int)),
{
    assert(x == spec_snorm8_to_unorm8(spec_unorm8_to_snorm8(x as int))) by (nonlinear_arith)
        requires
            x != 127,
    ;
}

/// Expanding a 4 bit or 8 bit unorm value and reducing it again gives the value back.
pub proof fn lemma_unorm_expand_roundtrip(x: u8)
    ensures
        x < 16 ==> round_half_up(round_half_up(x * 255, 15) * 15, 255) == x,
        round_half_up(round_half_up(x * 65535, 255) * 255, 65535) == x,
{
    assert(x < 16 ==> round_half_up(round_half_up(x * 255, 15) * 15, 255) == x) by (nonlinear_arith);
    assert(round_half_up(round_half_up(x * 65535, 255) * 255, 65535) == x) by (nonlinear_arith);
}

/// Converting a unorm8 value to snorm16 and back gives the value back.
pub proof fn lemma_unorm8_snorm16_roundtrip(x: u8)
    ensures
        spec_snorm16_to_unorm8(spec_unorm8_to_snorm16(x as int)) == x,
{
    assert(spec_snorm16_to_unorm8(spec_unorm8_to_snorm16(x as int)) == x) by (nonlinear_arith);
}

} // verus!
