//! Conversions between unorm8 channels and the bits of single and half-precision floats.
//!
//! A unorm8 value `u` stands for `u / 255`. Converting to a float rounds `u / 255` to the
//! nearest single-precision value (and that to the nearest half-precision value), with ties to
//! even. Converting from a single-precision float scales the value by 255 in single precision
//! and truncates the product toward zero, saturating at `0` and `255`.
use vstd::prelude::*;
use vstd::arithmetic::power2::pow2;
use crate::rounding::{rne24, sig_shift, spec_rne24};

verus! {

/// `n / d` rounded to the nearest integer, with ties to even.
pub open spec fn round_half_even(n: int, d: int) -> int {
    let q = n / d;
    let r = n % d;
    if 2 * r > d || (2 * r == d && q % 2 == 1) {
        q + 1
    } else {
        q
    }
}

/// The exponent `s` for which `u * 2^s / 255` lies in `[1, 2)`, for `u` in `1..=255`.
pub open spec fn unorm8_shift(u: int) -> nat {
    if u >= 255 {
        0
    } else if u >= 128 {
        1
    } else if u >= 64 {
        2
    } else if u >= 32 {
        3
    } else if u >= 16 {
        4
    } else if u >= 8 {
        5
    } else if u >= 4 {
        6
    } else if u >= 2 {
        7
    } else {
        8
    }
}

/// The 24 bit significand of the single-precision value nearest to `u / 255`.
pub open spec fn unorm8_f32_significand(u: int) -> int {
    round_half_even(u * pow2(unorm8_shift(u) + 23), 255)
}

/// The bits of the single-precision float nearest to `u / 255`.
pub open spec fn spec_unorm8_to_f32_bits(u: u8) -> int {
    if u == 0 {
        0
    } else {
        (127 - unorm8_shift(u as int)) * 0x80_0000 + (unorm8_f32_significand(u as int) - 0x80_0000)
    }
}

/// The bits of the half-precision float nearest to the single-precision value nearest to `u / 255`.
pub open spec fn spec_unorm8_to_f16_bits(u: u8) -> int {
    if u == 0 {
        0
    } else {
        (15 - unorm8_shift(u as int)) * 0x400 + (round_half_even(unorm8_f32_significand(u as int), 0x2000)
            - 0x400)
    }
}

/// The unorm8 value of the single-precision float with bits `b` scaled by 255 in single
/// precision and truncated toward zero, saturating at `0` and `255`: negative values and NaN
/// give 0, positive infinity gives 255.
pub open spec fn spec_f32_to_unorm8(b: u32) -> int {
    let e = (b / 0x80_0000) % 256;
    let m = b % 0x80_0000;
    if b >= 0x8000_0000 || (e == 255 && m != 0) {
        0
    } else if e == 255 {
        255
    } else {
        let sig = if e == 0 { m as int } else { m + 0x80_0000 };
        let ee = if e == 0 { 1int } else { e as int };
        // The product of the value and 255, rounded to single precision, is
        // rne24(sig * 255) * 2^(ee - 150).
        let p = spec_rne24((sig * 255) as nat);
        let v = if ee >= 150 { p * pow2((ee - 150) as nat) } else { p / pow2((150 - ee) as nat) };
        if v > 255 { 255 } else { v as int }
    }
}

/// The shift `s` for which `u * 2^s / 255` lies in `[1, 2)`.
fn unorm8_shift_exec(u: u8) -> (s: u64)
    requires
        u >= 1,
    ensures
        s == unorm8_shift(u as int),
        s <= 8,
{
    if u >= 255 {
        0
    } else if u >= 128 {
        1
    } else if u >= 64 {
        2
    } else if u >= 32 {
        3
    } else if u >= 16 {
        4
    } else if u >= 8 {
        5
    } else if u >= 4 {
        6
    } else if u >= 2 {
        7
    } else {
        8
    }
}

/// The 24 bit significand of the single-precision value nearest to `u / 255`.
pub(crate) fn unorm8_significand(u: u8) -> (sig: u64)
    requires
        u >= 1,
    ensures
        sig == unorm8_f32_significand(u as int),
        0x80_0000 <= sig < 0x100_0000,
{
    let s = unorm8_shift_exec(u);
    proof {
        vstd::arithmetic::power2::lemma2_to64();
        vstd::arithmetic::power2::lemma2_to64_rest();
        vstd::bits::lemma_u64_pow2_no_overflow((s + 23) as nat);
        vstd::bits::lemma_u64_shl_is_mul(1u64, (s + 23) as u64);
        vstd::arithmetic::power2::lemma_pow2_adds(s as nat, 23);
    }
    let scale: u64 = 1 << (s + 23);
    proof {
        lemma_unorm8_shift(u as int);
    }
    assert(u * scale == u * pow2(s as nat) * 0x80_0000) by (nonlinear_arith)
        requires
            scale == pow2(s as nat) * pow2(23),
            pow2(23) == 0x80_0000,
    ;
    let n = u as u64 * scale;
    let q = n / 255;
    let r = n % 255;
    assert(0x80_0000 <= q < 0x100_0000 - 1) by (nonlinear_arith)
        requires
            255 * 0x80_0000 <= n <= 509 * 0x80_0000,
            q == n / 255,
    ;
    if 2 * r > 255 || (2 * r == 255 && q % 2 == 1) {
        q + 1
    } else {
        q
    }
}

/// The bits of the single-precision float nearest to `u / 255`.
pub fn unorm8_to_f32_bits(u: u8) -> (b: u32)
    ensures
        b == spec_unorm8_to_f32_bits(u),
{
    if u == 0 {
        return 0;
    }
    let s = unorm8_shift_exec(u);
    let sig = unorm8_significand(u);
    ((127 - s) * 0x80_0000 + (sig - 0x80_0000)) as u32
}

/// The bits of the half-precision float nearest to the single-precision value nearest to `u / 255`.
pub fn unorm8_to_f16_bits(u: u8) -> (b: u16)
    ensures
        b == spec_unorm8_to_f16_bits(u),
{
    if u == 0 {
        return 0;
    }
    let s = unorm8_shift_exec(u);
    let sig = unorm8_significand(u);
    let q = sig / 0x2000;
    let r = sig % 0x2000;
    let h = if 2 * r > 0x2000 || (2 * r == 0x2000 && q % 2 == 1) { q + 1 } else { q };
    assert(0x400 <= h <= 0x800);
    ((15 - s) * 0x400 + (h - 0x400)) as u16
}

/// The unorm8 value of the single-precision float with bits `b` scaled by 255 and truncated,
/// saturating at `0` and `255`.
pub fn f32_to_unorm8(b: u32) -> (r: u8)
    ensures
        r == spec_f32_to_unorm8(b),
{
    let e = (b / 0x80_0000) % 256;
    let m = b % 0x80_0000;
    if b >= 0x8000_0000 || (e == 255 && m != 0) {
        return 0;
    }
    if e == 255 {
        return 255;
    }
    let sig: u64 = if e == 0 { m as u64 } else { m as u64 + 0x80_0000 };
    let ee: u64 = if e == 0 { 1 } else { e as u64 };
    let p = rne24(sig * 255);
    proof {
        vstd::arithmetic::power2::lemma2_to64();
        vstd::arithmetic::power2::lemma2_to64_rest();
    }
    if ee >= 150 {
        // The value is at least 2^23, so its product with 255 is far above 255.
        proof {
            vstd::arithmetic::power2::lemma_pow2_pos((ee - 150) as nat);
            lemma_rne24_lower_bound((sig * 255) as nat);
            assert(p * pow2((ee - 150) as nat) >= p) by (nonlinear_arith)
                requires
                    pow2((ee - 150) as nat) >= 1,
                    p >= 0,
            ;
        }
        return 255;
    }
    let k = 150 - ee;
    if k >= 64 {
        proof {
            vstd::arithmetic::power2::lemma_pow2_strictly_increases(34, k as nat);
            vstd::arithmetic::div_mod::lemma_basic_div(p as int, pow2(k as nat) as int);
        }
        return 0;
    }
    proof {
        vstd::bits::lemma_u64_shr_is_div(p, k);
    }
    let v = p >> k;
    if v > 255 {
        255
    } else {
        v as u8
    }
}

/// Rounding a value of at least 2^23 to 24 significant bits keeps it at least 2^23.
proof fn lemma_rne24_lower_bound(n: nat)
    requires
        n >= 0x80_0000,
    ensures
        spec_rne24(n) >= 0x80_0000,
{
    let p = pow2(crate::rounding::sig_shift(n));
    vstd::arithmetic::power2::lemma_pow2_pos(crate::rounding::sig_shift(n));
    lemma_rne24_quotient(n);
    let q = n / p;
    assert(q * p >= q && (q + 1) * p >= q) by (nonlinear_arith)
        requires
            p >= 1,
            q >= 0,
    ;
}

/// `u * 2^s` for the shift `s` of `u` lies in `255..=509`.
proof fn lemma_unorm8_shift(u: int)
    requires
        1 <= u <= 255,
    ensures
        255 <= u * pow2(unorm8_shift(u)) <= 509,
{
    vstd::arithmetic::power2::lemma2_to64();
    let s = unorm8_shift(u);
    if u >= 255 {
        assert(255 <= u * pow2(s) <= 509) by (nonlinear_arith)
            requires
                pow2(s) == 1,
                255 <= u <= 255,
        ;
    } else if u >= 128 {
        assert(255 <= u * pow2(s) <= 509) by (nonlinear_arith)
            requires
                pow2(s) == 2,
                128 <= u <= 254,
        ;
    } else if u >= 64 {
        assert(255 <= u * pow2(s) <= 509) by (nonlinear_arith)
            requires
                pow2(s) == 4,
                64 <= u <= 127,
        ;
    } else if u >= 32 {
        assert(255 <= u * pow2(s) <= 509) by (nonlinear_arith)
            requires
                pow2(s) == 8,
                32 <= u <= 63,
        ;
    } else if u >= 16 {
        assert(255 <= u * pow2(s) <= 509) by (nonlinear_arith)
            requires
                pow2(s) == 16,
                16 <= u <= 31,
        ;
    } else if u >= 8 {
        assert(255 <= u * pow2(s) <= 509) by (nonlinear_arith)
            requires
                pow2(s) == 32,
                8 <= u <= 15,
        ;
    } else if u >= 4 {
        assert(255 <= u * pow2(s) <= 509) by (nonlinear_arith)
            requires
                pow2(s) == 64,
                4 <= u <= 7,
        ;
    } else if u >= 2 {
        assert(255 <= u * pow2(s) <= 509) by (nonlinear_arith)
            requires
                pow2(s) == 128,
                2 <= u <= 3,
        ;
    } else {
        assert(255 <= u * pow2(s) <= 509) by (nonlinear_arith)
            requires
                pow2(s) == 256,
                1 <= u <= 1,
        ;
    }
}

/// After shifting out the bits beyond the 24 most significant ones, at least 2^23 remains
/// of a value of at least 2^23.
proof fn lemma_rne24_quotient(n: nat)
    requires
        n >= 0x80_0000,
    ensures
        n / pow2(crate::rounding::sig_shift(n)) >= 0x80_0000,
    decreases n,
{
    vstd::arithmetic::power2::lemma2_to64();
    if n < 0x100_0000 {
        assert(n / pow2(0) == n);
    } else {
        lemma_rne24_quotient(n / 2);
        let k = crate::rounding::sig_shift(n / 2);
        assert(crate::rounding::sig_shift(n) == k + 1);
        vstd::arithmetic::power2::lemma_pow2_unfold(k + 1);
        vstd::arithmetic::power2::lemma_pow2_pos(k);
        vstd::arithmetic::div_mod::lemma_div_denominator(n as int, 2, pow2(k) as int);
        let pk = pow2(k);
        assert(pow2(k + 1) == 2 * pk);
        assert((n as int / 2) / (pk as int) == n as int / (2 * pk as int));
        assert(n / pow2(crate::rounding::sig_shift(n)) == (n / 2) / pk);
    }
}

/// The significand of the single-precision value nearest to `u / 255` exceeds the exact
/// scaled value by less than 1.
pub proof fn lemma_unorm8_significand_bound(u: u8)
    requires
        u >= 1,
    ensures
        255 * unorm8_f32_significand(u as int) <= u * pow2(unorm8_shift(u as int) + 23) + 255,
{
    let n = u * pow2(unorm8_shift(u as int) + 23);
    vstd::arithmetic::div_mod::lemma_fundamental_div_mod(n as int, 255);
    vstd::arithmetic::div_mod::lemma_mod_bound(n as int, 255);
}

/// Values from `2^30` up to `2^32` have 7 or 8 bits beyond their 24 most significant bits.
proof fn lemma_sig_shift_32(n: nat)
    requires
        0x4000_0000 <= n < 0x1_0000_0000,
    ensures
        n < 0x8000_0000 ==> sig_shift(n) == 7,
        n >= 0x8000_0000 ==> sig_shift(n) == 8,
{
    reveal_with_fuel(sig_shift, 10);
}

/// A value within 127 of a multiple of 256 in `[2^31, 2^32)` rounds to that multiple.
proof fn lemma_rne24_near(x: nat, n: nat)
    requires
        0x8000_0000 <= x < 0x1_0000_0000,
        n % 256 == 0,
        x <= n + 127,
        n <= x + 127,
    ensures
        spec_rne24(x) == n,
{
    lemma_sig_shift_32(x);
    vstd::arithmetic::power2::lemma2_to64();
}

/// The significand of the single-precision value nearest to `k / 255` scaled by `2^23`,
/// for `k` in `[255, 510)`, has 24 bits, and multiplied by 255 in single precision gives
/// `k` scaled by `2^23` back.
proof fn lemma_f32_significand_product(k: int, f: int)
    requires
        255 <= k <= 509,
        f == round_half_even(k * 0x80_0000, 255),
    ensures
        0x80_0000 <= f < 0x100_0000,
        spec_rne24((f * 255) as nat) == k * 0x80_0000,
{
    let n = k * 0x80_0000;
    let q = n / 255;
    let r = n % 255;
    assert(n == 255 * q + r && 0 <= r < 255);
    // The rounding error of the significand is below half of 255.
    assert(n - 127 <= f * 255 <= n + 127);
    assert(0x80_0000 <= f < 0x100_0000);
    if k == 255 {
        assert(f == 0x80_0000);
        assert(f * 255 == n);
        lemma_sig_shift_32((f * 255) as nat);
        vstd::arithmetic::power2::lemma2_to64();
        assert(n % 128 == 0);
        assert(sig_shift((f * 255) as nat) == 7);
        assert(pow2(7) == 128);
        assert(spec_rne24((f * 255) as nat) == n);
    } else {
        assert(n >= 256 * 0x80_0000);
        assert(n == 256 * (k * 0x8000));
        vstd::arithmetic::div_mod::lemma_mod_multiples_basic(k * 0x8000, 256);
        assert(f * 255 >= 0x8000_0000) by {
            if k == 256 {
                assert(f == q + 1);
            }
        }
        lemma_rne24_near((f * 255) as nat, n as nat);
        assert(spec_rne24((f * 255) as nat) == n);
    }
}

/// Converting a unorm8 value to a single-precision float and back gives the value back.
pub proof fn lemma_unorm8_f32_roundtrip(u: u8)
    ensures
        spec_f32_to_unorm8(spec_unorm8_to_f32_bits(u) as u32) == u,
{
    vstd::arithmetic::power2::lemma2_to64();
    if u != 0 {
        let s = unorm8_shift(u as int);
        let k = u * pow2(s);
        assert(255 <= k <= 509) by {
            if u >= 255 {
            } else if u >= 128 {
                assert(k == u * 2);
            } else if u >= 64 {
                assert(k == u * 4);
            } else if u >= 32 {
                assert(k == u * 8);
            } else if u >= 16 {
                assert(k == u * 16);
            } else if u >= 8 {
                assert(k == u * 32);
            } else if u >= 4 {
                assert(k == u * 64);
            } else if u >= 2 {
                assert(k == u * 128);
            } else {
                assert(k == u * 256);
            }
        }
        vstd::arithmetic::power2::lemma_pow2_adds(s, 23);
        assert(u * pow2(s + 23) == k * 0x80_0000) by (nonlinear_arith)
            requires
                pow2(s + 23) == pow2(s) * pow2(23),
                pow2(23) == 0x80_0000,
                k == u * pow2(s),
        ;
        let f = unorm8_f32_significand(u as int);
        lemma_f32_significand_product(k, f);
        let b = spec_unorm8_to_f32_bits(u) as u32;
        assert(b == (127 - s) * 0x80_0000 + (f - 0x80_0000));
        assert((b / 0x80_0000) % 256 == 127 - s);
        assert(b % 0x80_0000 == f - 0x80_0000);
        vstd::arithmetic::power2::lemma_pow2_adds(23, s);
        assert((k * 0x80_0000) / (pow2((150 - (127 - s)) as nat) as int) == u as int) by (nonlinear_arith)
            requires
                pow2((150 - (127 - s)) as nat) == pow2(23) * pow2(s),
                pow2(23) == 0x80_0000,
                pow2(s) > 0,
                k == u * pow2(s),
        ;
        let e = (b / 0x80_0000) % 256;
        let m = b % 0x80_0000;
        assert(!(b >= 0x8000_0000 || (e == 255 && m != 0)));
        assert(e != 255);
        let sig = m + 0x80_0000;
        assert(sig == f);
        let ee = e as int;
        assert(ee < 150);
        let p = spec_rne24((sig * 255) as nat);
        assert(p == k * 0x80_0000);
        let v = p / pow2((150 - ee) as nat);
        assert(v == u);
    } else {
        vstd::arithmetic::power2::lemma_pow2_pos(149);
        assert(sig_shift(0) == 0);
    }
}

} // verus!
