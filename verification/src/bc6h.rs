//! Decoding of BC6H blocks, which store RGB half precision floating point texels.
//!
//! A block starts with a mode of 2 or 5 bits. Ten modes have two regions with a
//! partition shape and 3 bit indices, four modes have a single region with 4 bit
//! indices, and four mode numbers are reserved and decode to zero.
use vstd::prelude::*;
use vstd::arithmetic::power2::pow2;
use crate::bcdec::{block_extent, paint, put_values, splice, texel_index};
use crate::bitstream::{block128, field, reverse_bits, Bitstream};

verus! {

/// The number of bits of the base endpoint (row 0) and of the red, green and blue
/// endpoint deltas (rows 1 to 3) of each mode.
pub const BC6H_ACTUAL_BITS_COUNT: [[u8; 14]; 4] = [
    [10, 7, 11, 11, 11, 9, 8, 8, 8, 6, 10, 11, 12, 16],
    [5, 6, 5, 4, 4, 5, 6, 5, 5, 6, 10, 9, 8, 4],
    [5, 6, 4, 5, 4, 5, 5, 6, 5, 6, 10, 9, 8, 4],
    [5, 6, 4, 4, 5, 5, 5, 5, 6, 6, 10, 9, 8, 4],
];

/// The 32 partition shapes of two region blocks: the region of each texel, with the
/// most significant bit set for the texels whose index has one bit less.
pub const BC6H_PARTITION_SETS: [[[u8; 4]; 4]; 32] = [
        [[128, 0, 1, 1], [0, 0, 1, 1], [0, 0, 1, 1], [0, 0, 1, 129]], //  0
        [[128, 0, 0, 1], [0, 0, 0, 1], [0, 0, 0, 1], [0, 0, 0, 129]], //  1
        [[128, 1, 1, 1], [0, 1, 1, 1], [0, 1, 1, 1], [0, 1, 1, 129]], //  2
        [[128, 0, 0, 1], [0, 0, 1, 1], [0, 0, 1, 1], [0, 1, 1, 129]], //  3
        [[128, 0, 0, 0], [0, 0, 0, 1], [0, 0, 0, 1], [0, 0, 1, 129]], //  4
        [[128, 0, 1, 1], [0, 1, 1, 1], [0, 1, 1, 1], [1, 1, 1, 129]], //  5
        [[128, 0, 0, 1], [0, 0, 1, 1], [0, 1, 1, 1], [1, 1, 1, 129]], //  6
        [[128, 0, 0, 0], [0, 0, 0, 1], [0, 0, 1, 1], [0, 1, 1, 129]], //  7
        [[128, 0, 0, 0], [0, 0, 0, 0], [0, 0, 0, 1], [0, 0, 1, 129]], //  8
        [[128, 0, 1, 1], [0, 1, 1, 1], [1, 1, 1, 1], [1, 1, 1, 129]], //  9
        [[128, 0, 0, 0], [0, 0, 0, 1], [0, 1, 1, 1], [1, 1, 1, 129]], // 10
        [[128, 0, 0, 0], [0, 0, 0, 0], [0, 0, 0, 1], [0, 1, 1, 129]], // 11
        [[128, 0, 0, 1], [0, 1, 1, 1], [1, 1, 1, 1], [1, 1, 1, 129]], // 12
        [[128, 0, 0, 0], [0, 0, 0, 0], [1, 1, 1, 1], [1, 1, 1, 129]], // 13
        [[128, 0, 0, 0], [1, 1, 1, 1], [1, 1, 1, 1], [1, 1, 1, 129]], // 14
        [[128, 0, 0, 0], [0, 0, 0, 0], [0, 0, 0, 0], [1, 1, 1, 129]], // 15
        [[128, 0, 0, 0], [1, 0, 0, 0], [1, 1, 1, 0], [1, 1, 1, 129]], // 16
        [[128, 1, 129, 1], [0, 0, 0, 1], [0, 0, 0, 0], [0, 0, 0, 0]], // 17
        [[128, 0, 0, 0], [0, 0, 0, 0], [129, 0, 0, 0], [1, 1, 1, 0]], // 18
        [[128, 1, 129, 1], [0, 0, 1, 1], [0, 0, 0, 1], [0, 0, 0, 0]], // 19
        [[128, 0, 129, 1], [0, 0, 0, 1], [0, 0, 0, 0], [0, 0, 0, 0]], // 20
        [[128, 0, 0, 0], [1, 0, 0, 0], [129, 1, 0, 0], [1, 1, 1, 0]], // 21
        [[128, 0, 0, 0], [0, 0, 0, 0], [129, 0, 0, 0], [1, 1, 0, 0]], // 22
        [[128, 1, 1, 1], [0, 0, 1, 1], [0, 0, 1, 1], [0, 0, 0, 129]], // 23
        [[128, 0, 129, 1], [0, 0, 0, 1], [0, 0, 0, 1], [0, 0, 0, 0]], // 24
        [[128, 0, 0, 0], [1, 0, 0, 0], [129, 0, 0, 0], [1, 1, 0, 0]], // 25
        [[128, 1, 129, 0], [0, 1, 1, 0], [0, 1, 1, 0], [0, 1, 1, 0]], // 26
        [[128, 0, 129, 1], [0, 1, 1, 0], [0, 1, 1, 0], [1, 1, 0, 0]], // 27
        [[128, 0, 0, 1], [0, 1, 1, 1], [129, 1, 1, 0], [1, 0, 0, 0]], // 28
        [[128, 0, 0, 0], [1, 1, 1, 1], [129, 1, 1, 1], [0, 0, 0, 0]], // 29
        [[128, 1, 129, 1], [0, 0, 0, 1], [1, 0, 0, 0], [1, 1, 1, 0]], // 30
        [[128, 0, 129, 1], [1, 0, 0, 1], [1, 0, 0, 1], [1, 1, 0, 0]], // 31
    ];

/// Interpolation weights out of 64 for 3 bit indices.
pub const BC6H_WEIGHTS3: [i32; 8] = [0, 9, 18, 27, 37, 46, 55, 64];

/// Interpolation weights out of 64 for 4 bit indices.
pub const BC6H_WEIGHTS4: [i32; 16] = [0, 4, 9, 13, 17, 21, 26, 30, 34, 38, 43, 47, 51, 55, 60, 64];

/// The raw endpoint fields of a BC6H block in one of the modes 0 to 13.
#[derive(Clone, Copy)]
pub struct Bc6hFields {
    pub mode: u32,
    pub r: [u16; 4],
    pub g: [u16; 4],
    pub b: [u16; 4],
    pub partition: u32,
}

/// A value of at most `w` bits with `n` more bits placed at `shift` has at most `w2` bits.
proof fn lemma_or_field(acc: u16, x: u32, shift: u16, n: u32, w: nat, w2: nat)
    requires
        (acc as nat) < pow2(w),
        (x as nat) < pow2(n as nat),
        shift + n <= w2,
        w <= w2 <= 16,
    ensures
        ((acc | ((x as u16) << shift)) as nat) < pow2(w2),
{
    vstd::arithmetic::power2::lemma2_to64();
    let ww = w as u32;
    let ww2 = w2 as u32;
    vstd::bits::lemma_u32_pow2_no_overflow(w);
    vstd::bits::lemma_u32_pow2_no_overflow(w2);
    vstd::bits::lemma_u32_pow2_no_overflow(n as nat);
    vstd::bits::lemma_u32_shl_is_mul(1u32, ww);
    vstd::bits::lemma_u32_shl_is_mul(1u32, ww2);
    vstd::bits::lemma_u32_shl_is_mul(1u32, n);
    assert(((acc | ((x as u16) << shift)) as u32) < (1u32 << ww2)) by (bit_vector)
        requires
            (acc as u32) < (1u32 << ww),
            x < (1u32 << n),
            shift + n <= ww2,
            ww <= ww2 <= 16,
    ;
}

/// The 5 bit mode code of a BC6H block: 2 bits, extended by 3 more bits when above 1.
pub open spec fn bc6h_mode_code(v: u128) -> u32 {
    let m = field(v, 0, 2);
    if m > 1 {
        m | (field(v, 2, 3) << 2u32)
    } else {
        m
    }
}

/// The endpoint fields of a BC6H block in mode 0.
pub open spec fn bc6h_header_mode0(v: u128) -> Bc6hFields {
    let r0 = 0u16;
    let r1 = 0u16;
    let r2 = 0u16;
    let r3 = 0u16;
    let g0 = 0u16;
    let g1 = 0u16;
    let g2 = 0u16;
    let g3 = 0u16;
    let b0 = 0u16;
    let b1 = 0u16;
    let b2 = 0u16;
    let b3 = 0u16;
    let partition = 0u32;
    let g2 = g2 | ((field(v, 2, 1) as u16) << 4u16);
    let b2 = b2 | ((field(v, 3, 1) as u16) << 4u16);
    let b3 = b3 | ((field(v, 4, 1) as u16) << 4u16);
    let r0 = r0 | ((field(v, 5, 10) as u16) << 0u16);
    let g0 = g0 | ((field(v, 15, 10) as u16) << 0u16);
    let b0 = b0 | ((field(v, 25, 10) as u16) << 0u16);
    let r1 = r1 | ((field(v, 35, 5) as u16) << 0u16);
    let g3 = g3 | ((field(v, 40, 1) as u16) << 4u16);
    let g2 = g2 | ((field(v, 41, 4) as u16) << 0u16);
    let g1 = g1 | ((field(v, 45, 5) as u16) << 0u16);
    let b3 = b3 | ((field(v, 50, 1) as u16) << 0u16);
    let g3 = g3 | ((field(v, 51, 4) as u16) << 0u16);
    let b1 = b1 | ((field(v, 55, 5) as u16) << 0u16);
    let b3 = b3 | ((field(v, 60, 1) as u16) << 1u16);
    let b2 = b2 | ((field(v, 61, 4) as u16) << 0u16);
    let r2 = r2 | ((field(v, 65, 5) as u16) << 0u16);
    let b3 = b3 | ((field(v, 70, 1) as u16) << 2u16);
    let r3 = r3 | ((field(v, 71, 5) as u16) << 0u16);
    let b3 = b3 | ((field(v, 76, 1) as u16) << 3u16);
    let partition = field(v, 77, 5);
    Bc6hFields { mode: 0, r: [r0, r1, r2, r3], g: [g0, g1, g2, g3], b: [b0, b1, b2, b3], partition }
}

/// The endpoint fields of a BC6H block in mode 1.
pub open spec fn bc6h_header_mode1(v: u128) -> Bc6hFields {
    let r0 = 0u16;
    let r1 = 0u16;
    let r2 = 0u16;
    let r3 = 0u16;
    let g0 = 0u16;
    let g1 = 0u16;
    let g2 = 0u16;
    let g3 = 0u16;
    let b0 = 0u16;
    let b1 = 0u16;
    let b2 = 0u16;
    let b3 = 0u16;
    let partition = 0u32;
    let g2 = g2 | ((field(v, 2, 1) as u16) << 5u16);
    let g3 = g3 | ((field(v, 3, 1) as u16) << 4u16);
    let g3 = g3 | ((field(v, 4, 1) as u16) << 5u16);
    let r0 = r0 | ((field(v, 5, 7) as u16) << 0u16);
    let b3 = b3 | ((field(v, 12, 1) as u16) << 0u16);
    let b3 = b3 | ((field(v, 13, 1) as u16) << 1u16);
    let b2 = b2 | ((field(v, 14, 1) as u16) << 4u16);
    let g0 = g0 | ((field(v, 15, 7) as u16) << 0u16);
    let b2 = b2 | ((field(v, 22, 1) as u16) << 5u16);
    let b3 = b3 | ((field(v, 23, 1) as u16) << 2u16);
    let g2 = g2 | ((field(v, 24, 1) as u16) << 4u16);
    let b0 = b0 | ((field(v, 25, 7) as u16) << 0u16);
    let b3 = b3 | ((field(v, 32, 1) as u16) << 3u16);
    let b3 = b3 | ((field(v, 33, 1) as u16) << 5u16);
    let b3 = b3 | ((field(v, 34, 1) as u16) << 4u16);
    let r1 = r1 | ((field(v, 35, 6) as u16) << 0u16);
    let g2 = g2 | ((field(v, 41, 4) as u16) << 0u16);
    let g1 = g1 | ((field(v, 45, 6) as u16) << 0u16);
    let g3 = g3 | ((field(v, 51, 4) as u16) << 0u16);
    let b1 = b1 | ((field(v, 55, 6) as u16) << 0u16);
    let b2 = b2 | ((field(v, 61, 4) as u16) << 0u16);
    let r2 = r2 | ((field(v, 65, 6) as u16) << 0u16);
    let r3 = r3 | ((field(v, 71, 6) as u16) << 0u16);
    let partition = field(v, 77, 5);
    Bc6hFields { mode: 1, r: [r0, r1, r2, r3], g: [g0, g1, g2, g3], b: [b0, b1, b2, b3], partition }
}

/// The endpoint fields of a BC6H block in mode 2.
pub open spec fn bc6h_header_mode2(v: u128) -> Bc6hFields {
    let r0 = 0u16;
    let r1 = 0u16;
    let r2 = 0u16;
    let r3 = 0u16;
    let g0 = 0u16;
    let g1 = 0u16;
    let g2 = 0u16;
    let g3 = 0u16;
    let b0 = 0u16;
    let b1 = 0u16;
    let b2 = 0u16;
    let b3 = 0u16;
    let partition = 0u32;
    let r0 = r0 | ((field(v, 5, 10) as u16) << 0u16);
    let g0 = g0 | ((field(v, 15, 10) as u16) << 0u16);
    let b0 = b0 | ((field(v, 25, 10) as u16) << 0u16);
    let r1 = r1 | ((field(v, 35, 5) as u16) << 0u16);
    let r0 = r0 | ((field(v, 40, 1) as u16) << 10u16);
    let g2 = g2 | ((field(v, 41, 4) as u16) << 0u16);
    let g1 = g1 | ((field(v, 45, 4) as u16) << 0u16);
    let g0 = g0 | ((field(v, 49, 1) as u16) << 10u16);
    let b3 = b3 | ((field(v, 50, 1) as u16) << 0u16);
    let g3 = g3 | ((field(v, 51, 4) as u16) << 0u16);
    let b1 = b1 | ((field(v, 55, 4) as u16) << 0u16);
    let b0 = b0 | ((field(v, 59, 1) as u16) << 10u16);
    let b3 = b3 | ((field(v, 60, 1) as u16) << 1u16);
    let b2 = b2 | ((field(v, 61, 4) as u16) << 0u16);
    let r2 = r2 | ((field(v, 65, 5) as u16) << 0u16);
    let b3 = b3 | ((field(v, 70, 1) as u16) << 2u16);
    let r3 = r3 | ((field(v, 71, 5) as u16) << 0u16);
    let b3 = b3 | ((field(v, 76, 1) as u16) << 3u16);
    let partition = field(v, 77, 5);
    Bc6hFields { mode: 2, r: [r0, r1, r2, r3], g: [g0, g1, g2, g3], b: [b0, b1, b2, b3], partition }
}

/// The endpoint fields of a BC6H block in mode 3.
pub open spec fn bc6h_header_mode3(v: u128) -> Bc6hFields {
    let r0 = 0u16;
    let r1 = 0u16;
    let r2 = 0u16;
    let r3 = 0u16;
    let g0 = 0u16;
    let g1 = 0u16;
    let g2 = 0u16;
    let g3 = 0u16;
    let b0 = 0u16;
    let b1 = 0u16;
    let b2 = 0u16;
    let b3 = 0u16;
    let partition = 0u32;
    let r0 = r0 | ((field(v, 5, 10) as u16) << 0u16);
    let g0 = g0 | ((field(v, 15, 10) as u16) << 0u16);
    let b0 = b0 | ((field(v, 25, 10) as u16) << 0u16);
    let r1 = r1 | ((field(v, 35, 4) as u16) << 0u16);
    let r0 = r0 | ((field(v, 39, 1) as u16) << 10u16);
    let g3 = g3 | ((field(v, 40, 1) as u16) << 4u16);
    let g2 = g2 | ((field(v, 41, 4) as u16) << 0u16);
    let g1 = g1 | ((field(v, 45, 5) as u16) << 0u16);
    let g0 = g0 | ((field(v, 50, 1) as u16) << 10u16);
    let g3 = g3 | ((field(v, 51, 4) as u16) << 0u16);
    let b1 = b1 | ((field(v, 55, 4) as u16) << 0u16);
    let b0 = b0 | ((field(v, 59, 1) as u16) << 10u16);
    let b3 = b3 | ((field(v, 60, 1) as u16) << 1u16);
    let b2 = b2 | ((field(v, 61, 4) as u16) << 0u16);
    let r2 = r2 | ((field(v, 65, 4) as u16) << 0u16);
    let b3 = b3 | ((field(v, 69, 1) as u16) << 0u16);
    let b3 = b3 | ((field(v, 70, 1) as u16) << 2u16);
    let r3 = r3 | ((field(v, 71, 4) as u16) << 0u16);
    let g2 = g2 | ((field(v, 75, 1) as u16) << 4u16);
    let b3 = b3 | ((field(v, 76, 1) as u16) << 3u16);
    let partition = field(v, 77, 5);
    Bc6hFields { mode: 3, r: [r0, r1, r2, r3], g: [g0, g1, g2, g3], b: [b0, b1, b2, b3], partition }
}

/// The endpoint fields of a BC6H block in mode 4.
pub open spec fn bc6h_header_mode4(v: u128) -> Bc6hFields {
    let r0 = 0u16;
    let r1 = 0u16;
    let r2 = 0u16;
    let r3 = 0u16;
    let g0 = 0u16;
    let g1 = 0u16;
    let g2 = 0u16;
    let g3 = 0u16;
    let b0 = 0u16;
    let b1 = 0u16;
    let b2 = 0u16;
    let b3 = 0u16;
    let partition = 0u32;
    let r0 = r0 | ((field(v, 5, 10) as u16) << 0u16);
    let g0 = g0 | ((field(v, 15, 10) as u16) << 0u16);
    let b0 = b0 | ((field(v, 25, 10) as u16) << 0u16);
    let r1 = r1 | ((field(v, 35, 4) as u16) << 0u16);
    let r0 = r0 | ((field(v, 39, 1) as u16) << 10u16);
    let b2 = b2 | ((field(v, 40, 1) as u16) << 4u16);
    let g2 = g2 | ((field(v, 41, 4) as u16) << 0u16);
    let g1 = g1 | ((field(v, 45, 4) as u16) << 0u16);
    let g0 = g0 | ((field(v, 49, 1) as u16) << 10u16);
    let b3 = b3 | ((field(v, 50, 1) as u16) << 0u16);
    let g3 = g3 | ((field(v, 51, 4) as u16) << 0u16);
    let b1 = b1 | ((field(v, 55, 5) as u16) << 0u16);
    let b0 = b0 | ((field(v, 60, 1) as u16) << 10u16);
    let b2 = b2 | ((field(v, 61, 4) as u16) << 0u16);
    let r2 = r2 | ((field(v, 65, 4) as u16) << 0u16);
    let b3 = b3 | ((field(v, 69, 1) as u16) << 1u16);
    let b3 = b3 | ((field(v, 70, 1) as u16) << 2u16);
    let r3 = r3 | ((field(v, 71, 4) as u16) << 0u16);
    let b3 = b3 | ((field(v, 75, 1) as u16) << 4u16);
    let b3 = b3 | ((field(v, 76, 1) as u16) << 3u16);
    let partition = field(v, 77, 5);
    Bc6hFields { mode: 4, r: [r0, r1, r2, r3], g: [g0, g1, g2, g3], b: [b0, b1, b2, b3], partition }
}

/// The endpoint fields of a BC6H block in mode 5.
pub open spec fn bc6h_header_mode5(v: u128) -> Bc6hFields {
    let r0 = 0u16;
    let r1 = 0u16;
    let r2 = 0u16;
    let r3 = 0u16;
    let g0 = 0u16;
    let g1 = 0u16;
    let g2 = 0u16;
    let g3 = 0u16;
    let b0 = 0u16;
    let b1 = 0u16;
    let b2 = 0u16;
    let b3 = 0u16;
    let partition = 0u32;
    let r0 = r0 | ((field(v, 5, 9) as u16) << 0u16);
    let b2 = b2 | ((field(v, 14, 1) as u16) << 4u16);
    let g0 = g0 | ((field(v, 15, 9) as u16) << 0u16);
    let g2 = g2 | ((field(v, 24, 1) as u16) << 4u16);
    let b0 = b0 | ((field(v, 25, 9) as u16) << 0u16);
    let b3 = b3 | ((field(v, 34, 1) as u16) << 4u16);
    let r1 = r1 | ((field(v, 35, 5) as u16) << 0u16);
    let g3 = g3 | ((field(v, 40, 1) as u16) << 4u16);
    let g2 = g2 | ((field(v, 41, 4) as u16) << 0u16);
    let g1 = g1 | ((field(v, 45, 5) as u16) << 0u16);
    let b3 = b3 | ((field(v, 50, 1) as u16) << 0u16);
    let g3 = g3 | ((field(v, 51, 4) as u16) << 0u16);
    let b1 = b1 | ((field(v, 55, 5) as u16) << 0u16);
    let b3 = b3 | ((field(v, 60, 1) as u16) << 1u16);
    let b2 = b2 | ((field(v, 61, 4) as u16) << 0u16);
    let r2 = r2 | ((field(v, 65, 5) as u16) << 0u16);
    let b3 = b3 | ((field(v, 70, 1) as u16) << 2u16);
    let r3 = r3 | ((field(v, 71, 5) as u16) << 0u16);
    let b3 = b3 | ((field(v, 76, 1) as u16) << 3u16);
    let partition = field(v, 77, 5);
    Bc6hFields { mode: 5, r: [r0, r1, r2, r3], g: [g0, g1, g2, g3], b: [b0, b1, b2, b3], partition }
}

/// The endpoint fields of a BC6H block in mode 6.
pub open spec fn bc6h_header_mode6(v: u128) -> Bc6hFields {
    let r0 = 0u16;
    let r1 = 0u16;
    let r2 = 0u16;
    let r3 = 0u16;
    let g0 = 0u16;
    let g1 = 0u16;
    let g2 = 0u16;
    let g3 = 0u16;
    let b0 = 0u16;
    let b1 = 0u16;
    let b2 = 0u16;
    let b3 = 0u16;
    let partition = 0u32;
    let r0 = r0 | ((field(v, 5, 8) as u16) << 0u16);
    let g3 = g3 | ((field(v, 13, 1) as u16) << 4u16);
    let b2 = b2 | ((field(v, 14, 1) as u16) << 4u16);
    let g0 = g0 | ((field(v, 15, 8) as u16) << 0u16);
    let b3 = b3 | ((field(v, 23, 1) as u16) << 2u16);
    let g2 = g2 | ((field(v, 24, 1) as u16) << 4u16);
    let b0 = b0 | ((field(v, 25, 8) as u16) << 0u16);
    let b3 = b3 | ((field(v, 33, 1) as u16) << 3u16);
    let b3 = b3 | ((field(v, 34, 1) as u16) << 4u16);
    let r1 = r1 | ((field(v, 35, 6) as u16) << 0u16);
    let g2 = g2 | ((field(v, 41, 4) as u16) << 0u16);
    let g1 = g1 | ((field(v, 45, 5) as u16) << 0u16);
    let b3 = b3 | ((field(v, 50, 1) as u16) << 0u16);
    let g3 = g3 | ((field(v, 51, 4) as u16) << 0u16);
    let b1 = b1 | ((field(v, 55, 5) as u16) << 0u16);
    let b3 = b3 | ((field(v, 60, 1) as u16) << 1u16);
    let b2 = b2 | ((field(v, 61, 4) as u16) << 0u16);
    let r2 = r2 | ((field(v, 65, 6) as u16) << 0u16);
    let r3 = r3 | ((field(v, 71, 6) as u16) << 0u16);
    let partition = field(v, 77, 5);
    Bc6hFields { mode: 6, r: [r0, r1, r2, r3], g: [g0, g1, g2, g3], b: [b0, b1, b2, b3], partition }
}

/// The endpoint fields of a BC6H block in mode 7.
pub open spec fn bc6h_header_mode7(v: u128) -> Bc6hFields {
    let r0 = 0u16;
    let r1 = 0u16;
    let r2 = 0u16;
    let r3 = 0u16;
    let g0 = 0u16;
    let g1 = 0u16;
    let g2 = 0u16;
    let g3 = 0u16;
    let b0 = 0u16;
    let b1 = 0u16;
    let b2 = 0u16;
    let b3 = 0u16;
    let partition = 0u32;
    let r0 = r0 | ((field(v, 5, 8) as u16) << 0u16);
    let b3 = b3 | ((field(v, 13, 1) as u16) << 0u16);
    let b2 = b2 | ((field(v, 14, 1) as u16) << 4u16);
    let g0 = g0 | ((field(v, 15, 8) as u16) << 0u16);
    let g2 = g2 | ((field(v, 23, 1) as u16) << 5u16);
    let g2 = g2 | ((field(v, 24, 1) as u16) << 4u16);
    let b0 = b0 | ((field(v, 25, 8) as u16) << 0u16);
    let g3 = g3 | ((field(v, 33, 1) as u16) << 5u16);
    let b3 = b3 | ((field(v, 34, 1) as u16) << 4u16);
    let r1 = r1 | ((field(v, 35, 5) as u16) << 0u16);
    let g3 = g3 | ((field(v, 40, 1) as u16) << 4u16);
    let g2 = g2 | ((field(v, 41, 4) as u16) << 0u16);
    let g1 = g1 | ((field(v, 45, 6) as u16) << 0u16);
    let g3 = g3 | ((field(v, 51, 4) as u16) << 0u16);
    let b1 = b1 | ((field(v, 55, 5) as u16) << 0u16);
    let b3 = b3 | ((field(v, 60, 1) as u16) << 1u16);
    let b2 = b2 | ((field(v, 61, 4) as u16) << 0u16);
    let r2 = r2 | ((field(v, 65, 5) as u16) << 0u16);
    let b3 = b3 | ((field(v, 70, 1) as u16) << 2u16);
    let r3 = r3 | ((field(v, 71, 5) as u16) << 0u16);
    let b3 = b3 | ((field(v, 76, 1) as u16) << 3u16);
    let partition = field(v, 77, 5);
    Bc6hFields { mode: 7, r: [r0, r1, r2, r3], g: [g0, g1, g2, g3], b: [b0, b1, b2, b3], partition }
}

/// The endpoint fields of a BC6H block in mode 8.
pub open spec fn bc6h_header_mode8(v: u128) -> Bc6hFields {
    let r0 = 0u16;
    let r1 = 0u16;
    let r2 = 0u16;
    let r3 = 0u16;
    let g0 = 0u16;
    let g1 = 0u16;
    let g2 = 0u16;
    let g3 = 0u16;
    let b0 = 0u16;
    let b1 = 0u16;
    let b2 = 0u16;
    let b3 = 0u16;
    let partition = 0u32;
    let r0 = r0 | ((field(v, 5, 8) as u16) << 0u16);
    let b3 = b3 | ((field(v, 13, 1) as u16) << 1u16);
    let b2 = b2 | ((field(v, 14, 1) as u16) << 4u16);
    let g0 = g0 | ((field(v, 15, 8) as u16) << 0u16);
    let b2 = b2 | ((field(v, 23, 1) as u16) << 5u16);
    let g2 = g2 | ((field(v, 24, 1) as u16) << 4u16);
    let b0 = b0 | ((field(v, 25, 8) as u16) << 0u16);
    let b3 = b3 | ((field(v, 33, 1) as u16) << 5u16);
    let b3 = b3 | ((field(v, 34, 1) as u16) << 4u16);
    let r1 = r1 | ((field(v, 35, 5) as u16) << 0u16);
    let g3 = g3 | ((field(v, 40, 1) as u16) << 4u16);
    let g2 = g2 | ((field(v, 41, 4) as u16) << 0u16);
    let g1 = g1 | ((field(v, 45, 5) as u16) << 0u16);
    let b3 = b3 | ((field(v, 50, 1) as u16) << 0u16);
    let g3 = g3 | ((field(v, 51, 4) as u16) << 0u16);
    let b1 = b1 | ((field(v, 55, 6) as u16) << 0u16);
    let b2 = b2 | ((field(v, 61, 4) as u16) << 0u16);
    let r2 = r2 | ((field(v, 65, 5) as u16) << 0u16);
    let b3 = b3 | ((field(v, 70, 1) as u16) << 2u16);
    let r3 = r3 | ((field(v, 71, 5) as u16) << 0u16);
    let b3 = b3 | ((field(v, 76, 1) as u16) << 3u16);
    let partition = field(v, 77, 5);
    Bc6hFields { mode: 8, r: [r0, r1, r2, r3], g: [g0, g1, g2, g3], b: [b0, b1, b2, b3], partition }
}

/// The endpoint fields of a BC6H block in mode 9.
pub open spec fn bc6h_header_mode9(v: u128) -> Bc6hFields {
    let r0 = 0u16;
    let r1 = 0u16;
    let r2 = 0u16;
    let r3 = 0u16;
    let g0 = 0u16;
    let g1 = 0u16;
    let g2 = 0u16;
    let g3 = 0u16;
    let b0 = 0u16;
    let b1 = 0u16;
    let b2 = 0u16;
    let b3 = 0u16;
    let partition = 0u32;
    let r0 = r0 | ((field(v, 5, 6) as u16) << 0u16);
    let g3 = g3 | ((field(v, 11, 1) as u16) << 4u16);
    let b3 = b3 | ((field(v, 12, 1) as u16) << 0u16);
    let b3 = b3 | ((field(v, 13, 1) as u16) << 1u16);
    let b2 = b2 | ((field(v, 14, 1) as u16) << 4u16);
    let g0 = g0 | ((field(v, 15, 6) as u16) << 0u16);
    let g2 = g2 | ((field(v, 21, 1) as u16) << 5u16);
    let b2 = b2 | ((field(v, 22, 1) as u16) << 5u16);
    let b3 = b3 | ((field(v, 23, 1) as u16) << 2u16);
    let g2 = g2 | ((field(v, 24, 1) as u16) << 4u16);
    let b0 = b0 | ((field(v, 25, 6) as u16) << 0u16);
    let g3 = g3 | ((field(v, 31, 1) as u16) << 5u16);
    let b3 = b3 | ((field(v, 32, 1) as u16) << 3u16);
    let b3 = b3 | ((field(v, 33, 1) as u16) << 5u16);
    let b3 = b3 | ((field(v, 34, 1) as u16) << 4u16);
    let r1 = r1 | ((field(v, 35, 6) as u16) << 0u16);
    let g2 = g2 | ((field(v, 41, 4) as u16) << 0u16);
    let g1 = g1 | ((field(v, 45, 6) as u16) << 0u16);
    let g3 = g3 | ((field(v, 51, 4) as u16) << 0u16);
    let b1 = b1 | ((field(v, 55, 6) as u16) << 0u16);
    let b2 = b2 | ((field(v, 61, 4) as u16) << 0u16);
    let r2 = r2 | ((field(v, 65, 6) as u16) << 0u16);
    let r3 = r3 | ((field(v, 71, 6) as u16) << 0u16);
    let partition = field(v, 77, 5);
    Bc6hFields { mode: 9, r: [r0, r1, r2, r3], g: [g0, g1, g2, g3], b: [b0, b1, b2, b3], partition }
}

/// The endpoint fields of a BC6H block in mode 10.
pub open spec fn bc6h_header_mode10(v: u128) -> Bc6hFields {
    let r0 = 0u16;
    let r1 = 0u16;
    let r2 = 0u16;
    let r3 = 0u16;
    let g0 = 0u16;
    let g1 = 0u16;
    let g2 = 0u16;
    let g3 = 0u16;
    let b0 = 0u16;
    let b1 = 0u16;
    let b2 = 0u16;
    let b3 = 0u16;
    let partition = 0u32;
    let r0 = r0 | ((field(v, 5, 10) as u16) << 0u16);
    let g0 = g0 | ((field(v, 15, 10) as u16) << 0u16);
    let b0 = b0 | ((field(v, 25, 10) as u16) << 0u16);
    let r1 = r1 | ((field(v, 35, 10) as u16) << 0u16);
    let g1 = g1 | ((field(v, 45, 10) as u16) << 0u16);
    let b1 = b1 | ((field(v, 55, 10) as u16) << 0u16);
    Bc6hFields { mode: 10, r: [r0, r1, r2, r3], g: [g0, g1, g2, g3], b: [b0, b1, b2, b3], partition }
}

/// The endpoint fields of a BC6H block in mode 11.
pub open spec fn bc6h_header_mode11(v: u128) -> Bc6hFields {
    let r0 = 0u16;
    let r1 = 0u16;
    let r2 = 0u16;
    let r3 = 0u16;
    let g0 = 0u16;
    let g1 = 0u16;
    let g2 = 0u16;
    let g3 = 0u16;
    let b0 = 0u16;
    let b1 = 0u16;
    let b2 = 0u16;
    let b3 = 0u16;
    let partition = 0u32;
    let r0 = r0 | ((field(v, 5, 10) as u16) << 0u16);
    let g0 = g0 | ((field(v, 15, 10) as u16) << 0u16);
    let b0 = b0 | ((field(v, 25, 10) as u16) << 0u16);
    let r1 = r1 | ((field(v, 35, 9) as u16) << 0u16);
    let r0 = r0 | ((field(v, 44, 1) as u16) << 10u16);
    let g1 = g1 | ((field(v, 45, 9) as u16) << 0u16);
    let g0 = g0 | ((field(v, 54, 1) as u16) << 10u16);
    let b1 = b1 | ((field(v, 55, 9) as u16) << 0u16);
    let b0 = b0 | ((field(v, 64, 1) as u16) << 10u16);
    Bc6hFields { mode: 11, r: [r0, r1, r2, r3], g: [g0, g1, g2, g3], b: [b0, b1, b2, b3], partition }
}

/// The endpoint fields of a BC6H block in mode 12.
pub open spec fn bc6h_header_mode12(v: u128) -> Bc6hFields {
    let r0 = 0u16;
    let r1 = 0u16;
    let r2 = 0u16;
    let r3 = 0u16;
    let g0 = 0u16;
    let g1 = 0u16;
    let g2 = 0u16;
    let g3 = 0u16;
    let b0 = 0u16;
    let b1 = 0u16;
    let b2 = 0u16;
    let b3 = 0u16;
    let partition = 0u32;
    let r0 = r0 | ((field(v, 5, 10) as u16) << 0u16);
    let g0 = g0 | ((field(v, 15, 10) as u16) << 0u16);
    let b0 = b0 | ((field(v, 25, 10) as u16) << 0u16);
    let r1 = r1 | ((field(v, 35, 8) as u16) << 0u16);
    let r0 = r0 | ((reverse_bits(0, field(v, 43, 2), 2) as u16) << 10u16);
    let g1 = g1 | ((field(v, 45, 8) as u16) << 0u16);
    let g0 = g0 | ((reverse_bits(0, field(v, 53, 2), 2) as u16) << 10u16);
    let b1 = b1 | ((field(v, 55, 8) as u16) << 0u16);
    let b0 = b0 | ((reverse_bits(0, field(v, 63, 2), 2) as u16) << 10u16);
    Bc6hFields { mode: 12, r: [r0, r1, r2, r3], g: [g0, g1, g2, g3], b: [b0, b1, b2, b3], partition }
}

/// The endpoint fields of a BC6H block in mode 13.
pub open spec fn bc6h_header_mode13(v: u128) -> Bc6hFields {
    let r0 = 0u16;
    let r1 = 0u16;
    let r2 = 0u16;
    let r3 = 0u16;
    let g0 = 0u16;
    let g1 = 0u16;
    let g2 = 0u16;
    let g3 = 0u16;
    let b0 = 0u16;
    let b1 = 0u16;
    let b2 = 0u16;
    let b3 = 0u16;
    let partition = 0u32;
    let r0 = r0 | ((field(v, 5, 10) as u16) << 0u16);
    let g0 = g0 | ((field(v, 15, 10) as u16) << 0u16);
    let b0 = b0 | ((field(v, 25, 10) as u16) << 0u16);
    let r1 = r1 | ((field(v, 35, 4) as u16) << 0u16);
    let r0 = r0 | ((reverse_bits(0, field(v, 39, 6), 6) as u16) << 10u16);
    let g1 = g1 | ((field(v, 45, 4) as u16) << 0u16);
    let g0 = g0 | ((reverse_bits(0, field(v, 49, 6), 6) as u16) << 10u16);
    let b1 = b1 | ((field(v, 55, 4) as u16) << 0u16);
    let b0 = b0 | ((reverse_bits(0, field(v, 59, 6), 6) as u16) << 10u16);
    Bc6hFields { mode: 13, r: [r0, r1, r2, r3], g: [g0, g1, g2, g3], b: [b0, b1, b2, b3], partition }
}

/// The endpoint fields of the BC6H block `v`, or `None` for a reserved mode.
pub open spec fn bc6h_header(v: u128) -> Option<Bc6hFields> {
    let code = bc6h_mode_code(v);
    if code == 0 {
        Some(bc6h_header_mode0(v))
    } else if code == 1 {
        Some(bc6h_header_mode1(v))
    } else if code == 2 {
        Some(bc6h_header_mode2(v))
    } else if code == 6 {
        Some(bc6h_header_mode3(v))
    } else if code == 10 {
        Some(bc6h_header_mode4(v))
    } else if code == 14 {
        Some(bc6h_header_mode5(v))
    } else if code == 18 {
        Some(bc6h_header_mode6(v))
    } else if code == 22 {
        Some(bc6h_header_mode7(v))
    } else if code == 26 {
        Some(bc6h_header_mode8(v))
    } else if code == 30 {
        Some(bc6h_header_mode9(v))
    } else if code == 3 {
        Some(bc6h_header_mode10(v))
    } else if code == 7 {
        Some(bc6h_header_mode11(v))
    } else if code == 11 {
        Some(bc6h_header_mode12(v))
    } else if code == 15 {
        Some(bc6h_header_mode13(v))
    } else {
        None
    }
}

/// Read the mode and endpoint fields of a BC6H block.
fn bc6h_read_header(bs: &mut Bitstream) -> (r: Option<Bc6hFields>)
    requires
        old(bs).wf(),
        old(bs).pos@ == 0,
    ensures
        final(bs).wf(),
        final(bs).block@ == old(bs).block@,
        r == bc6h_header(old(bs).block@),
        r matches Some(h) ==> {
            &&& h.mode < 14
            &&& h.partition < 32
            &&& final(bs).pos@ == if h.mode >= 10 { 65nat } else { 82nat }
            &&& (h.r[0] as nat) < pow2(BC6H_ACTUAL_BITS_COUNT[0][h.mode as int] as nat)
            &&& (h.g[0] as nat) < pow2(BC6H_ACTUAL_BITS_COUNT[0][h.mode as int] as nat)
            &&& (h.b[0] as nat) < pow2(BC6H_ACTUAL_BITS_COUNT[0][h.mode as int] as nat)
            &&& forall|i: int|
                0 <= i < 4 && (h.mode == 9 || (h.mode == 10 && i < 2)) ==> {
                    &&& (#[trigger] h.r[i] as nat) < pow2(BC6H_ACTUAL_BITS_COUNT[0][h.mode as int] as nat)
                    &&& (h.g[i] as nat) < pow2(BC6H_ACTUAL_BITS_COUNT[0][h.mode as int] as nat)
                    &&& (h.b[i] as nat) < pow2(BC6H_ACTUAL_BITS_COUNT[0][h.mode as int] as nat)
                }
        },
{
    proof {
        vstd::arithmetic::power2::lemma2_to64();
    }
    let ghost v = bs.block@;
    let mut code = bs.read_bits(2);
    // Modes with the two low bits above 1 use 3 more bits.
    if code > 1 {
        let high = bs.read_bits(3);
        assert((code | (high << 2u32)) >= 2) by (bit_vector)
            requires
                code >= 2,
        ;
        code = code | (high << 2);
    }
    if code == 0 {
        Some(bc6h_read_mode0(bs))
    } else if code == 1 {
        Some(bc6h_read_mode1(bs))
    } else if code == 2 {
        Some(bc6h_read_mode2(bs))
    } else if code == 6 {
        Some(bc6h_read_mode3(bs))
    } else if code == 10 {
        Some(bc6h_read_mode4(bs))
    } else if code == 14 {
        Some(bc6h_read_mode5(bs))
    } else if code == 18 {
        Some(bc6h_read_mode6(bs))
    } else if code == 22 {
        Some(bc6h_read_mode7(bs))
    } else if code == 26 {
        Some(bc6h_read_mode8(bs))
    } else if code == 30 {
        Some(bc6h_read_mode9(bs))
    } else if code == 3 {
        Some(bc6h_read_mode10(bs))
    } else if code == 7 {
        Some(bc6h_read_mode11(bs))
    } else if code == 11 {
        Some(bc6h_read_mode12(bs))
    } else if code == 15 {
        Some(bc6h_read_mode13(bs))
    } else {
        // Modes 10011, 10111, 11011, and 11111 are reserved.
        None
    }
}

/// Read the endpoint fields of a block in mode 0.
fn bc6h_read_mode0(bs: &mut Bitstream) -> (r: Bc6hFields)
    requires
        old(bs).wf(),
        old(bs).pos@ == 2,
    ensures
        final(bs).wf(),
        final(bs).block@ == old(bs).block@,
        final(bs).pos@ == 82,
        r == bc6h_header_mode0(old(bs).block@),
        (r.r[0] as nat) < pow2(10),
        (r.g[0] as nat) < pow2(10),
        (r.b[0] as nat) < pow2(10),
        r.partition < 32,
{
    proof {
        vstd::arithmetic::power2::lemma2_to64();
    }
    let mut r0: u16 = 0;
    let mut r1: u16 = 0;
    let mut r2: u16 = 0;
    let mut r3: u16 = 0;
    let mut g0: u16 = 0;
    let mut g1: u16 = 0;
    let mut g2: u16 = 0;
    let mut g3: u16 = 0;
    let mut b0: u16 = 0;
    let mut b1: u16 = 0;
    let mut b2: u16 = 0;
    let mut b3: u16 = 0;
    let mut partition: u32 = 0;
    let x = bs.read_bit();
    g2 = g2 | ((x as u16) << 4u16);
    let x = bs.read_bit();
    b2 = b2 | ((x as u16) << 4u16);
    let x = bs.read_bit();
    b3 = b3 | ((x as u16) << 4u16);
    let x = bs.read_bits(10);
    proof {
        lemma_or_field(r0, x, 0, 10, 0, 10);
    }
    r0 = r0 | ((x as u16) << 0u16);
    let x = bs.read_bits(10);
    proof {
        lemma_or_field(g0, x, 0, 10, 0, 10);
    }
    g0 = g0 | ((x as u16) << 0u16);
    let x = bs.read_bits(10);
    proof {
        lemma_or_field(b0, x, 0, 10, 0, 10);
    }
    b0 = b0 | ((x as u16) << 0u16);
    let x = bs.read_bits(5);
    r1 = r1 | ((x as u16) << 0u16);
    let x = bs.read_bit();
    g3 = g3 | ((x as u16) << 4u16);
    let x = bs.read_bits(4);
    g2 = g2 | ((x as u16) << 0u16);
    let x = bs.read_bits(5);
    g1 = g1 | ((x as u16) << 0u16);
    let x = bs.read_bit();
    b3 = b3 | ((x as u16) << 0u16);
    let x = bs.read_bits(4);
    g3 = g3 | ((x as u16) << 0u16);
    let x = bs.read_bits(5);
    b1 = b1 | ((x as u16) << 0u16);
    let x = bs.read_bit();
    b3 = b3 | ((x as u16) << 1u16);
    let x = bs.read_bits(4);
    b2 = b2 | ((x as u16) << 0u16);
    let x = bs.read_bits(5);
    r2 = r2 | ((x as u16) << 0u16);
    let x = bs.read_bit();
    b3 = b3 | ((x as u16) << 2u16);
    let x = bs.read_bits(5);
    r3 = r3 | ((x as u16) << 0u16);
    let x = bs.read_bit();
    b3 = b3 | ((x as u16) << 3u16);
    partition = bs.read_bits(5);
    Bc6hFields {
        mode: 0,
        r: [r0, r1, r2, r3],
        g: [g0, g1, g2, g3],
        b: [b0, b1, b2, b3],
        partition,
    }
}

/// Read the endpoint fields of a block in mode 1.
fn bc6h_read_mode1(bs: &mut Bitstream) -> (r: Bc6hFields)
    requires
        old(bs).wf(),
        old(bs).pos@ == 2,
    ensures
        final(bs).wf(),
        final(bs).block@ == old(bs).block@,
        final(bs).pos@ == 82,
        r == bc6h_header_mode1(old(bs).block@),
        (r.r[0] as nat) < pow2(7),
        (r.g[0] as nat) < pow2(7),
        (r.b[0] as nat) < pow2(7),
        r.partition < 32,
{
    proof {
        vstd::arithmetic::power2::lemma2_to64();
    }
    let mut r0: u16 = 0;
    let mut r1: u16 = 0;
    let mut r2: u16 = 0;
    let mut r3: u16 = 0;
    let mut g0: u16 = 0;
    let mut g1: u16 = 0;
    let mut g2: u16 = 0;
    let mut g3: u16 = 0;
    let mut b0: u16 = 0;
    let mut b1: u16 = 0;
    let mut b2: u16 = 0;
    let mut b3: u16 = 0;
    let mut partition: u32 = 0;
    let x = bs.read_bit();
    g2 = g2 | ((x as u16) << 5u16);
    let x = bs.read_bit();
    g3 = g3 | ((x as u16) << 4u16);
    let x = bs.read_bit();
    g3 = g3 | ((x as u16) << 5u16);
    let x = bs.read_bits(7);
    proof {
        lemma_or_field(r0, x, 0, 7, 0, 7);
    }
    r0 = r0 | ((x as u16) << 0u16);
    let x = bs.read_bit();
    b3 = b3 | ((x as u16) << 0u16);
    let x = bs.read_bit();
    b3 = b3 | ((x as u16) << 1u16);
    let x = bs.read_bit();
    b2 = b2 | ((x as u16) << 4u16);
    let x = bs.read_bits(7);
    proof {
        lemma_or_field(g0, x, 0, 7, 0, 7);
    }
    g0 = g0 | ((x as u16) << 0u16);
    let x = bs.read_bit();
    b2 = b2 | ((x as u16) << 5u16);
    let x = bs.read_bit();
    b3 = b3 | ((x as u16) << 2u16);
    let x = bs.read_bit();
    g2 = g2 | ((x as u16) << 4u16);
    let x = bs.read_bits(7);
    proof {
        lemma_or_field(b0, x, 0, 7, 0, 7);
    }
    b0 = b0 | ((x as u16) << 0u16);
    let x = bs.read_bit();
    b3 = b3 | ((x as u16) << 3u16);
    let x = bs.read_bit();
    b3 = b3 | ((x as u16) << 5u16);
    let x = bs.read_bit();
    b3 = b3 | ((x as u16) << 4u16);
    let x = bs.read_bits(6);
    r1 = r1 | ((x as u16) << 0u16);
    let x = bs.read_bits(4);
    g2 = g2 | ((x as u16) << 0u16);
    let x = bs.read_bits(6);
    g1 = g1 | ((x as u16) << 0u16);
    let x = bs.read_bits(4);
    g3 = g3 | ((x as u16) << 0u16);
    let x = bs.read_bits(6);
    b1 = b1 | ((x as u16) << 0u16);
    let x = bs.read_bits(4);
    b2 = b2 | ((x as u16) << 0u16);
    let x = bs.read_bits(6);
    r2 = r2 | ((x as u16) << 0u16);
    let x = bs.read_bits(6);
    r3 = r3 | ((x as u16) << 0u16);
    partition = bs.read_bits(5);
    Bc6hFields {
        mode: 1,
        r: [r0, r1, r2, r3],
        g: [g0, g1, g2, g3],
        b: [b0, b1, b2, b3],
        partition,
    }
}

/// Read the endpoint fields of a block in mode 2.
fn bc6h_read_mode2(bs: &mut Bitstream) -> (r: Bc6hFields)
    requires
        old(bs).wf(),
        old(bs).pos@ == 5,
    ensures
        final(bs).wf(),
        final(bs).block@ == old(bs).block@,
        final(bs).pos@ == 82,
        r == bc6h_header_mode2(old(bs).block@),
        (r.r[0] as nat) < pow2(11),
        (r.g[0] as nat) < pow2(11),
        (r.b[0] as nat) < pow2(11),
        r.partition < 32,
{
    proof {
        vstd::arithmetic::power2::lemma2_to64();
    }
    let mut r0: u16 = 0;
    let mut r1: u16 = 0;
    let mut r2: u16 = 0;
    let mut r3: u16 = 0;
    let mut g0: u16 = 0;
    let mut g1: u16 = 0;
    let mut g2: u16 = 0;
    let mut g3: u16 = 0;
    let mut b0: u16 = 0;
    let mut b1: u16 = 0;
    let mut b2: u16 = 0;
    let mut b3: u16 = 0;
    let mut partition: u32 = 0;
    let x = bs.read_bits(10);
    proof {
        lemma_or_field(r0, x, 0, 10, 0, 10);
    }
    r0 = r0 | ((x as u16) << 0u16);
    let x = bs.read_bits(10);
    proof {
        lemma_or_field(g0, x, 0, 10, 0, 10);
    }
    g0 = g0 | ((x as u16) << 0u16);
    let x = bs.read_bits(10);
    proof {
        lemma_or_field(b0, x, 0, 10, 0, 10);
    }
    b0 = b0 | ((x as u16) << 0u16);
    let x = bs.read_bits(5);
    r1 = r1 | ((x as u16) << 0u16);
    let x = bs.read_bit();
    proof {
        lemma_or_field(r0, x, 10, 1, 10, 11);
    }
    r0 = r0 | ((x as u16) << 10u16);
    let x = bs.read_bits(4);
    g2 = g2 | ((x as u16) << 0u16);
    let x = bs.read_bits(4);
    g1 = g1 | ((x as u16) << 0u16);
    let x = bs.read_bit();
    proof {
        lemma_or_field(g0, x, 10, 1, 10, 11);
    }
    g0 = g0 | ((x as u16) << 10u16);
    let x = bs.read_bit();
    b3 = b3 | ((x as u16) << 0u16);
    let x = bs.read_bits(4);
    g3 = g3 | ((x as u16) << 0u16);
    let x = bs.read_bits(4);
    b1 = b1 | ((x as u16) << 0u16);
    let x = bs.read_bit();
    proof {
        lemma_or_field(b0, x, 10, 1, 10, 11);
    }
    b0 = b0 | ((x as u16) << 10u16);
    let x = bs.read_bit();
    b3 = b3 | ((x as u16) << 1u16);
    let x = bs.read_bits(4);
    b2 = b2 | ((x as u16) << 0u16);
    let x = bs.read_bits(5);
    r2 = r2 | ((x as u16) << 0u16);
    let x = bs.read_bit();
    b3 = b3 | ((x as u16) << 2u16);
    let x = bs.read_bits(5);
    r3 = r3 | ((x as u16) << 0u16);
    let x = bs.read_bit();
    b3 = b3 | ((x as u16) << 3u16);
    partition = bs.read_bits(5);
    Bc6hFields {
        mode: 2,
        r: [r0, r1, r2, r3],
        g: [g0, g1, g2, g3],
        b: [b0, b1, b2, b3],
        partition,
    }
}

/// Read the endpoint fields of a block in mode 3.
fn bc6h_read_mode3(bs: &mut Bitstream) -> (r: Bc6hFields)
    requires
        old(bs).wf(),
        old(bs).pos@ == 5,
    ensures
        final(bs).wf(),
        final(bs).block@ == old(bs).block@,
        final(bs).pos@ == 82,
        r == bc6h_header_mode3(old(bs).block@),
        (r.r[0] as nat) < pow2(11),
        (r.g[0] as nat) < pow2(11),
        (r.b[0] as nat) < pow2(11),
        r.partition < 32,
{
    proof {
        vstd::arithmetic::power2::lemma2_to64();
    }
    let mut r0: u16 = 0;
    let mut r1: u16 = 0;
    let mut r2: u16 = 0;
    let mut r3: u16 = 0;
    let mut g0: u16 = 0;
    let mut g1: u16 = 0;
    let mut g2: u16 = 0;
    let mut g3: u16 = 0;
    let mut b0: u16 = 0;
    let mut b1: u16 = 0;
    let mut b2: u16 = 0;
    let mut b3: u16 = 0;
    let mut partition: u32 = 0;
    let x = bs.read_bits(10);
    proof {
        lemma_or_field(r0, x, 0, 10, 0, 10);
    }
    r0 = r0 | ((x as u16) << 0u16);
    let x = bs.read_bits(10);
    proof {
        lemma_or_field(g0, x, 0, 10, 0, 10);
    }
    g0 = g0 | ((x as u16) << 0u16);
    let x = bs.read_bits(10);
    proof {
        lemma_or_field(b0, x, 0, 10, 0, 10);
    }
    b0 = b0 | ((x as u16) << 0u16);
    let x = bs.read_bits(4);
    r1 = r1 | ((x as u16) << 0u16);
    let x = bs.read_bit();
    proof {
        lemma_or_field(r0, x, 10, 1, 10, 11);
    }
    r0 = r0 | ((x as u16) << 10u16);
    let x = bs.read_bit();
    g3 = g3 | ((x as u16) << 4u16);
    let x = bs.read_bits(4);
    g2 = g2 | ((x as u16) << 0u16);
    let x = bs.read_bits(5);
    g1 = g1 | ((x as u16) << 0u16);
    let x = bs.read_bit();
    proof {
        lemma_or_field(g0, x, 10, 1, 10, 11);
    }
    g0 = g0 | ((x as u16) << 10u16);
    let x = bs.read_bits(4);
    g3 = g3 | ((x as u16) << 0u16);
    let x = bs.read_bits(4);
    b1 = b1 | ((x as u16) << 0u16);
    let x = bs.read_bit();
    proof {
        lemma_or_field(b0, x, 10, 1, 10, 11);
    }
    b0 = b0 | ((x as u16) << 10u16);
    let x = bs.read_bit();
    b3 = b3 | ((x as u16) << 1u16);
    let x = bs.read_bits(4);
    b2 = b2 | ((x as u16) << 0u16);
    let x = bs.read_bits(4);
    r2 = r2 | ((x as u16) << 0u16);
    let x = bs.read_bit();
    b3 = b3 | ((x as u16) << 0u16);
    let x = bs.read_bit();
    b3 = b3 | ((x as u16) << 2u16);
    let x = bs.read_bits(4);
    r3 = r3 | ((x as u16) << 0u16);
    let x = bs.read_bit();
    g2 = g2 | ((x as u16) << 4u16);
    let x = bs.read_bit();
    b3 = b3 | ((x as u16) << 3u16);
    partition = bs.read_bits(5);
    Bc6hFields {
        mode: 3,
        r: [r0, r1, r2, r3],
        g: [g0, g1, g2, g3],
        b: [b0, b1, b2, b3],
        partition,
    }
}

/// Read the endpoint fields of a block in mode 4.
fn bc6h_read_mode4(bs: &mut Bitstream) -> (r: Bc6hFields)
    requires
        old(bs).wf(),
        old(bs).pos@ == 5,
    ensures
        final(bs).wf(),
        final(bs).block@ == old(bs).block@,
        final(bs).pos@ == 82,
        r == bc6h_header_mode4(old(bs).block@),
        (r.r[0] as nat) < pow2(11),
        (r.g[0] as nat) < pow2(11),
        (r.b[0] as nat) < pow2(11),
        r.partition < 32,
{
    proof {
        vstd::arithmetic::power2::lemma2_to64();
    }
    let mut r0: u16 = 0;
    let mut r1: u16 = 0;
    let mut r2: u16 = 0;
    let mut r3: u16 = 0;
    let mut g0: u16 = 0;
    let mut g1: u16 = 0;
    let mut g2: u16 = 0;
    let mut g3: u16 = 0;
    let mut b0: u16 = 0;
    let mut b1: u16 = 0;
    let mut b2: u16 = 0;
    let mut b3: u16 = 0;
    let mut partition: u32 = 0;
    let x = bs.read_bits(10);
    proof {
        lemma_or_field(r0, x, 0, 10, 0, 10);
    }
    r0 = r0 | ((x as u16) << 0u16);
    let x = bs.read_bits(10);
    proof {
        lemma_or_field(g0, x, 0, 10, 0, 10);
    }
    g0 = g0 | ((x as u16) << 0u16);
    let x = bs.read_bits(10);
    proof {
        lemma_or_field(b0, x, 0, 10, 0, 10);
    }
    b0 = b0 | ((x as u16) << 0u16);
    let x = bs.read_bits(4);
    r1 = r1 | ((x as u16) << 0u16);
    let x = bs.read_bit();
    proof {
        lemma_or_field(r0, x, 10, 1, 10, 11);
    }
    r0 = r0 | ((x as u16) << 10u16);
    let x = bs.read_bit();
    b2 = b2 | ((x as u16) << 4u16);
    let x = bs.read_bits(4);
    g2 = g2 | ((x as u16) << 0u16);
    let x = bs.read_bits(4);
    g1 = g1 | ((x as u16) << 0u16);
    let x = bs.read_bit();
    proof {
        lemma_or_field(g0, x, 10, 1, 10, 11);
    }
    g0 = g0 | ((x as u16) << 10u16);
    let x = bs.read_bit();
    b3 = b3 | ((x as u16) << 0u16);
    let x = bs.read_bits(4);
    g3 = g3 | ((x as u16) << 0u16);
    let x = bs.read_bits(5);
    b1 = b1 | ((x as u16) << 0u16);
    let x = bs.read_bit();
    proof {
        lemma_or_field(b0, x, 10, 1, 10, 11);
    }
    b0 = b0 | ((x as u16) << 10u16);
    let x = bs.read_bits(4);
    b2 = b2 | ((x as u16) << 0u16);
    let x = bs.read_bits(4);
    r2 = r2 | ((x as u16) << 0u16);
    let x = bs.read_bit();
    b3 = b3 | ((x as u16) << 1u16);
    let x = bs.read_bit();
    b3 = b3 | ((x as u16) << 2u16);
    let x = bs.read_bits(4);
    r3 = r3 | ((x as u16) << 0u16);
    let x = bs.read_bit();
    b3 = b3 | ((x as u16) << 4u16);
    let x = bs.read_bit();
    b3 = b3 | ((x as u16) << 3u16);
    partition = bs.read_bits(5);
    Bc6hFields {
        mode: 4,
        r: [r0, r1, r2, r3],
        g: [g0, g1, g2, g3],
        b: [b0, b1, b2, b3],
        partition,
    }
}

/// Read the endpoint fields of a block in mode 5.
fn bc6h_read_mode5(bs: &mut Bitstream) -> (r: Bc6hFields)
    requires
        old(bs).wf(),
        old(bs).pos@ == 5,
    ensures
        final(bs).wf(),
        final(bs).block@ == old(bs).block@,
        final(bs).pos@ == 82,
        r == bc6h_header_mode5(old(bs).block@),
        (r.r[0] as nat) < pow2(9),
        (r.g[0] as nat) < pow2(9),
        (r.b[0] as nat) < pow2(9),
        r.partition < 32,
{
    proof {
        vstd::arithmetic::power2::lemma2_to64();
    }
    let mut r0: u16 = 0;
    let mut r1: u16 = 0;
    let mut r2: u16 = 0;
    let mut r3: u16 = 0;
    let mut g0: u16 = 0;
    let mut g1: u16 = 0;
    let mut g2: u16 = 0;
    let mut g3: u16 = 0;
    let mut b0: u16 = 0;
    let mut b1: u16 = 0;
    let mut b2: u16 = 0;
    let mut b3: u16 = 0;
    let mut partition: u32 = 0;
    let x = bs.read_bits(9);
    proof {
        lemma_or_field(r0, x, 0, 9, 0, 9);
    }
    r0 = r0 | ((x as u16) << 0u16);
    let x = bs.read_bit();
    b2 = b2 | ((x as u16) << 4u16);
    let x = bs.read_bits(9);
    proof {
        lemma_or_field(g0, x, 0, 9, 0, 9);
    }
    g0 = g0 | ((x as u16) << 0u16);
    let x = bs.read_bit();
    g2 = g2 | ((x as u16) << 4u16);
    let x = bs.read_bits(9);
    proof {
        lemma_or_field(b0, x, 0, 9, 0, 9);
    }
    b0 = b0 | ((x as u16) << 0u16);
    let x = bs.read_bit();
    b3 = b3 | ((x as u16) << 4u16);
    let x = bs.read_bits(5);
    r1 = r1 | ((x as u16) << 0u16);
    let x = bs.read_bit();
    g3 = g3 | ((x as u16) << 4u16);
    let x = bs.read_bits(4);
    g2 = g2 | ((x as u16) << 0u16);
    let x = bs.read_bits(5);
    g1 = g1 | ((x as u16) << 0u16);
    let x = bs.read_bit();
    b3 = b3 | ((x as u16) << 0u16);
    let x = bs.read_bits(4);
    g3 = g3 | ((x as u16) << 0u16);
    let x = bs.read_bits(5);
    b1 = b1 | ((x as u16) << 0u16);
    let x = bs.read_bit();
    b3 = b3 | ((x as u16) << 1u16);
    let x = bs.read_bits(4);
    b2 = b2 | ((x as u16) << 0u16);
    let x = bs.read_bits(5);
    r2 = r2 | ((x as u16) << 0u16);
    let x = bs.read_bit();
    b3 = b3 | ((x as u16) << 2u16);
    let x = bs.read_bits(5);
    r3 = r3 | ((x as u16) << 0u16);
    let x = bs.read_bit();
    b3 = b3 | ((x as u16) << 3u16);
    partition = bs.read_bits(5);
    Bc6hFields {
        mode: 5,
        r: [r0, r1, r2, r3],
        g: [g0, g1, g2, g3],
        b: [b0, b1, b2, b3],
        partition,
    }
}

/// Read the endpoint fields of a block in mode 6.
fn bc6h_read_mode6(bs: &mut Bitstream) -> (r: Bc6hFields)
    requires
        old(bs).wf(),
        old(bs).pos@ == 5,
    ensures
        final(bs).wf(),
        final(bs).block@ == old(bs).block@,
        final(bs).pos@ == 82,
        r == bc6h_header_mode6(old(bs).block@),
        (r.r[0] as nat) < pow2(8),
        (r.g[0] as nat) < pow2(8),
        (r.b[0] as nat) < pow2(8),
        r.partition < 32,
{
    proof {
        vstd::arithmetic::power2::lemma2_to64();
    }
    let mut r0: u16 = 0;
    let mut r1: u16 = 0;
    let mut r2: u16 = 0;
    let mut r3: u16 = 0;
    let mut g0: u16 = 0;
    let mut g1: u16 = 0;
    let mut g2: u16 = 0;
    let mut g3: u16 = 0;
    let mut b0: u16 = 0;
    let mut b1: u16 = 0;
    let mut b2: u16 = 0;
    let mut b3: u16 = 0;
    let mut partition: u32 = 0;
    let x = bs.read_bits(8);
    proof {
        lemma_or_field(r0, x, 0, 8, 0, 8);
    }
    r0 = r0 | ((x as u16) << 0u16);
    let x = bs.read_bit();
    g3 = g3 | ((x as u16) << 4u16);
    let x = bs.read_bit();
    b2 = b2 | ((x as u16) << 4u16);
    let x = bs.read_bits(8);
    proof {
        lemma_or_field(g0, x, 0, 8, 0, 8);
    }
    g0 = g0 | ((x as u16) << 0u16);
    let x = bs.read_bit();
    b3 = b3 | ((x as u16) << 2u16);
    let x = bs.read_bit();
    g2 = g2 | ((x as u16) << 4u16);
    let x = bs.read_bits(8);
    proof {
        lemma_or_field(b0, x, 0, 8, 0, 8);
    }
    b0 = b0 | ((x as u16) << 0u16);
    let x = bs.read_bit();
    b3 = b3 | ((x as u16) << 3u16);
    let x = bs.read_bit();
    b3 = b3 | ((x as u16) << 4u16);
    let x = bs.read_bits(6);
    r1 = r1 | ((x as u16) << 0u16);
    let x = bs.read_bits(4);
    g2 = g2 | ((x as u16) << 0u16);
    let x = bs.read_bits(5);
    g1 = g1 | ((x as u16) << 0u16);
    let x = bs.read_bit();
    b3 = b3 | ((x as u16) << 0u16);
    let x = bs.read_bits(4);
    g3 = g3 | ((x as u16) << 0u16);
    let x = bs.read_bits(5);
    b1 = b1 | ((x as u16) << 0u16);
    let x = bs.read_bit();
    b3 = b3 | ((x as u16) << 1u16);
    let x = bs.read_bits(4);
    b2 = b2 | ((x as u16) << 0u16);
    let x = bs.read_bits(6);
    r2 = r2 | ((x as u16) << 0u16);
    let x = bs.read_bits(6);
    r3 = r3 | ((x as u16) << 0u16);
    partition = bs.read_bits(5);
    Bc6hFields {
        mode: 6,
        r: [r0, r1, r2, r3],
        g: [g0, g1, g2, g3],
        b: [b0, b1, b2, b3],
        partition,
    }
}

/// Read the endpoint fields of a block in mode 7.
fn bc6h_read_mode7(bs: &mut Bitstream) -> (r: Bc6hFields)
    requires
        old(bs).wf(),
        old(bs).pos@ == 5,
    ensures
        final(bs).wf(),
        final(bs).block@ == old(bs).block@,
        final(bs).pos@ == 82,
        r == bc6h_header_mode7(old(bs).block@),
        (r.r[0] as nat) < pow2(8),
        (r.g[0] as nat) < pow2(8),
        (r.b[0] as nat) < pow2(8),
        r.partition < 32,
{
    proof {
        vstd::arithmetic::power2::lemma2_to64();
    }
    let mut r0: u16 = 0;
    let mut r1: u16 = 0;
    let mut r2: u16 = 0;
    let mut r3: u16 = 0;
    let mut g0: u16 = 0;
    let mut g1: u16 = 0;
    let mut g2: u16 = 0;
    let mut g3: u16 = 0;
    let mut b0: u16 = 0;
    let mut b1: u16 = 0;
    let mut b2: u16 = 0;
    let mut b3: u16 = 0;
    let mut partition: u32 = 0;
    let x = bs.read_bits(8);
    proof {
        lemma_or_field(r0, x, 0, 8, 0, 8);
    }
    r0 = r0 | ((x as u16) << 0u16);
    let x = bs.read_bit();
    b3 = b3 | ((x as u16) << 0u16);
    let x = bs.read_bit();
    b2 = b2 | ((x as u16) << 4u16);
    let x = bs.read_bits(8);
    proof {
        lemma_or_field(g0, x, 0, 8, 0, 8);
    }
    g0 = g0 | ((x as u16) << 0u16);
    let x = bs.read_bit();
    g2 = g2 | ((x as u16) << 5u16);
    let x = bs.read_bit();
    g2 = g2 | ((x as u16) << 4u16);
    let x = bs.read_bits(8);
    proof {
        lemma_or_field(b0, x, 0, 8, 0, 8);
    }
    b0 = b0 | ((x as u16) << 0u16);
    let x = bs.read_bit();
    g3 = g3 | ((x as u16) << 5u16);
    let x = bs.read_bit();
    b3 = b3 | ((x as u16) << 4u16);
    let x = bs.read_bits(5);
    r1 = r1 | ((x as u16) << 0u16);
    let x = bs.read_bit();
    g3 = g3 | ((x as u16) << 4u16);
    let x = bs.read_bits(4);
    g2 = g2 | ((x as u16) << 0u16);
    let x = bs.read_bits(6);
    g1 = g1 | ((x as u16) << 0u16);
    let x = bs.read_bits(4);
    g3 = g3 | ((x as u16) << 0u16);
    let x = bs.read_bits(5);
    b1 = b1 | ((x as u16) << 0u16);
    let x = bs.read_bit();
    b3 = b3 | ((x as u16) << 1u16);
    let x = bs.read_bits(4);
    b2 = b2 | ((x as u16) << 0u16);
    let x = bs.read_bits(5);
    r2 = r2 | ((x as u16) << 0u16);
    let x = bs.read_bit();
    b3 = b3 | ((x as u16) << 2u16);
    let x = bs.read_bits(5);
    r3 = r3 | ((x as u16) << 0u16);
    let x = bs.read_bit();
    b3 = b3 | ((x as u16) << 3u16);
    partition = bs.read_bits(5);
    Bc6hFields {
        mode: 7,
        r: [r0, r1, r2, r3],
        g: [g0, g1, g2, g3],
        b: [b0, b1, b2, b3],
        partition,
    }
}

/// Read the endpoint fields of a block in mode 8.
fn bc6h_read_mode8(bs: &mut Bitstream) -> (r: Bc6hFields)
    requires
        old(bs).wf(),
        old(bs).pos@ == 5,
    ensures
        final(bs).wf(),
        final(bs).block@ == old(bs).block@,
        final(bs).pos@ == 82,
        r == bc6h_header_mode8(old(bs).block@),
        (r.r[0] as nat) < pow2(8),
        (r.g[0] as nat) < pow2(8),
        (r.b[0] as nat) < pow2(8),
        r.partition < 32,
{
    proof {
        vstd::arithmetic::power2::lemma2_to64();
    }
    let mut r0: u16 = 0;
    let mut r1: u16 = 0;
    let mut r2: u16 = 0;
    let mut r3: u16 = 0;
    let mut g0: u16 = 0;
    let mut g1: u16 = 0;
    let mut g2: u16 = 0;
    let mut g3: u16 = 0;
    let mut b0: u16 = 0;
    let mut b1: u16 = 0;
    let mut b2: u16 = 0;
    let mut b3: u16 = 0;
    let mut partition: u32 = 0;
    let x = bs.read_bits(8);
    proof {
        lemma_or_field(r0, x, 0, 8, 0, 8);
    }
    r0 = r0 | ((x as u16) << 0u16);
    let x = bs.read_bit();
    b3 = b3 | ((x as u16) << 1u16);
    let x = bs.read_bit();
    b2 = b2 | ((x as u16) << 4u16);
    let x = bs.read_bits(8);
    proof {
        lemma_or_field(g0, x, 0, 8, 0, 8);
    }
    g0 = g0 | ((x as u16) << 0u16);
    let x = bs.read_bit();
    b2 = b2 | ((x as u16) << 5u16);
    let x = bs.read_bit();
    g2 = g2 | ((x as u16) << 4u16);
    let x = bs.read_bits(8);
    proof {
        lemma_or_field(b0, x, 0, 8, 0, 8);
    }
    b0 = b0 | ((x as u16) << 0u16);
    let x = bs.read_bit();
    b3 = b3 | ((x as u16) << 5u16);
    let x = bs.read_bit();
    b3 = b3 | ((x as u16) << 4u16);
    let x = bs.read_bits(5);
    r1 = r1 | ((x as u16) << 0u16);
    let x = bs.read_bit();
    g3 = g3 | ((x as u16) << 4u16);
    let x = bs.read_bits(4);
    g2 = g2 | ((x as u16) << 0u16);
    let x = bs.read_bits(5);
    g1 = g1 | ((x as u16) << 0u16);
    let x = bs.read_bit();
    b3 = b3 | ((x as u16) << 0u16);
    let x = bs.read_bits(4);
    g3 = g3 | ((x as u16) << 0u16);
    let x = bs.read_bits(6);
    b1 = b1 | ((x as u16) << 0u16);
    let x = bs.read_bits(4);
    b2 = b2 | ((x as u16) << 0u16);
    let x = bs.read_bits(5);
    r2 = r2 | ((x as u16) << 0u16);
    let x = bs.read_bit();
    b3 = b3 | ((x as u16) << 2u16);
    let x = bs.read_bits(5);
    r3 = r3 | ((x as u16) << 0u16);
    let x = bs.read_bit();
    b3 = b3 | ((x as u16) << 3u16);
    partition = bs.read_bits(5);
    Bc6hFields {
        mode: 8,
        r: [r0, r1, r2, r3],
        g: [g0, g1, g2, g3],
        b: [b0, b1, b2, b3],
        partition,
    }
}

/// Read the endpoint fields of a block in mode 9.
fn bc6h_read_mode9(bs: &mut Bitstream) -> (r: Bc6hFields)
    requires
        old(bs).wf(),
        old(bs).pos@ == 5,
    ensures
        final(bs).wf(),
        final(bs).block@ == old(bs).block@,
        final(bs).pos@ == 82,
        r == bc6h_header_mode9(old(bs).block@),
        (r.r[0] as nat) < pow2(6),
        (r.r[1] as nat) < pow2(6),
        (r.r[2] as nat) < pow2(6),
        (r.r[3] as nat) < pow2(6),
        (r.g[0] as nat) < pow2(6),
        (r.g[1] as nat) < pow2(6),
        (r.g[2] as nat) < pow2(6),
        (r.g[3] as nat) < pow2(6),
        (r.b[0] as nat) < pow2(6),
        (r.b[1] as nat) < pow2(6),
        (r.b[2] as nat) < pow2(6),
        (r.b[3] as nat) < pow2(6),
        r.partition < 32,
{
    proof {
        vstd::arithmetic::power2::lemma2_to64();
    }
    let mut r0: u16 = 0;
    let mut r1: u16 = 0;
    let mut r2: u16 = 0;
    let mut r3: u16 = 0;
    let mut g0: u16 = 0;
    let mut g1: u16 = 0;
    let mut g2: u16 = 0;
    let mut g3: u16 = 0;
    let mut b0: u16 = 0;
    let mut b1: u16 = 0;
    let mut b2: u16 = 0;
    let mut b3: u16 = 0;
    let mut partition: u32 = 0;
    let x = bs.read_bits(6);
    proof {
        lemma_or_field(r0, x, 0, 6, 0, 6);
    }
    r0 = r0 | ((x as u16) << 0u16);
    let x = bs.read_bit();
    proof {
        lemma_or_field(g3, x, 4, 1, 0, 5);
    }
    g3 = g3 | ((x as u16) << 4u16);
    let x = bs.read_bit();
    proof {
        lemma_or_field(b3, x, 0, 1, 0, 1);
    }
    b3 = b3 | ((x as u16) << 0u16);
    let x = bs.read_bit();
    proof {
        lemma_or_field(b3, x, 1, 1, 1, 2);
    }
    b3 = b3 | ((x as u16) << 1u16);
    let x = bs.read_bit();
    proof {
        lemma_or_field(b2, x, 4, 1, 0, 5);
    }
    b2 = b2 | ((x as u16) << 4u16);
    let x = bs.read_bits(6);
    proof {
        lemma_or_field(g0, x, 0, 6, 0, 6);
    }
    g0 = g0 | ((x as u16) << 0u16);
    let x = bs.read_bit();
    proof {
        lemma_or_field(g2, x, 5, 1, 0, 6);
    }
    g2 = g2 | ((x as u16) << 5u16);
    let x = bs.read_bit();
    proof {
        lemma_or_field(b2, x, 5, 1, 5, 6);
    }
    b2 = b2 | ((x as u16) << 5u16);
    let x = bs.read_bit();
    proof {
        lemma_or_field(b3, x, 2, 1, 2, 3);
    }
    b3 = b3 | ((x as u16) << 2u16);
    let x = bs.read_bit();
    proof {
        lemma_or_field(g2, x, 4, 1, 6, 6);
    }
    g2 = g2 | ((x as u16) << 4u16);
    let x = bs.read_bits(6);
    proof {
        lemma_or_field(b0, x, 0, 6, 0, 6);
    }
    b0 = b0 | ((x as u16) << 0u16);
    let x = bs.read_bit();
    proof {
        lemma_or_field(g3, x, 5, 1, 5, 6);
    }
    g3 = g3 | ((x as u16) << 5u16);
    let x = bs.read_bit();
    proof {
        lemma_or_field(b3, x, 3, 1, 3, 4);
    }
    b3 = b3 | ((x as u16) << 3u16);
    let x = bs.read_bit();
    proof {
        lemma_or_field(b3, x, 5, 1, 4, 6);
    }
    b3 = b3 | ((x as u16) << 5u16);
    let x = bs.read_bit();
    proof {
        lemma_or_field(b3, x, 4, 1, 6, 6);
    }
    b3 = b3 | ((x as u16) << 4u16);
    let x = bs.read_bits(6);
    proof {
        lemma_or_field(r1, x, 0, 6, 0, 6);
    }
    r1 = r1 | ((x as u16) << 0u16);
    let x = bs.read_bits(4);
    proof {
        lemma_or_field(g2, x, 0, 4, 6, 6);
    }
    g2 = g2 | ((x as u16) << 0u16);
    let x = bs.read_bits(6);
    proof {
        lemma_or_field(g1, x, 0, 6, 0, 6);
    }
    g1 = g1 | ((x as u16) << 0u16);
    let x = bs.read_bits(4);
    proof {
        lemma_or_field(g3, x, 0, 4, 6, 6);
    }
    g3 = g3 | ((x as u16) << 0u16);
    let x = bs.read_bits(6);
    proof {
        lemma_or_field(b1, x, 0, 6, 0, 6);
    }
    b1 = b1 | ((x as u16) << 0u16);
    let x = bs.read_bits(4);
    proof {
        lemma_or_field(b2, x, 0, 4, 6, 6);
    }
    b2 = b2 | ((x as u16) << 0u16);
    let x = bs.read_bits(6);
    proof {
        lemma_or_field(r2, x, 0, 6, 0, 6);
    }
    r2 = r2 | ((x as u16) << 0u16);
    let x = bs.read_bits(6);
    proof {
        lemma_or_field(r3, x, 0, 6, 0, 6);
    }
    r3 = r3 | ((x as u16) << 0u16);
    partition = bs.read_bits(5);
    Bc6hFields {
        mode: 9,
        r: [r0, r1, r2, r3],
        g: [g0, g1, g2, g3],
        b: [b0, b1, b2, b3],
        partition,
    }
}

/// Read the endpoint fields of a block in mode 10.
fn bc6h_read_mode10(bs: &mut Bitstream) -> (r: Bc6hFields)
    requires
        old(bs).wf(),
        old(bs).pos@ == 5,
    ensures
        final(bs).wf(),
        final(bs).block@ == old(bs).block@,
        final(bs).pos@ == 65,
        r == bc6h_header_mode10(old(bs).block@),
        (r.r[0] as nat) < pow2(10),
        (r.r[1] as nat) < pow2(10),
        (r.g[0] as nat) < pow2(10),
        (r.g[1] as nat) < pow2(10),
        (r.b[0] as nat) < pow2(10),
        (r.b[1] as nat) < pow2(10),
        r.partition < 32,
{
    proof {
        vstd::arithmetic::power2::lemma2_to64();
    }
    let mut r0: u16 = 0;
    let mut r1: u16 = 0;
    let mut r2: u16 = 0;
    let mut r3: u16 = 0;
    let mut g0: u16 = 0;
    let mut g1: u16 = 0;
    let mut g2: u16 = 0;
    let mut g3: u16 = 0;
    let mut b0: u16 = 0;
    let mut b1: u16 = 0;
    let mut b2: u16 = 0;
    let mut b3: u16 = 0;
    let mut partition: u32 = 0;
    let x = bs.read_bits(10);
    proof {
        lemma_or_field(r0, x, 0, 10, 0, 10);
    }
    r0 = r0 | ((x as u16) << 0u16);
    let x = bs.read_bits(10);
    proof {
        lemma_or_field(g0, x, 0, 10, 0, 10);
    }
    g0 = g0 | ((x as u16) << 0u16);
    let x = bs.read_bits(10);
    proof {
        lemma_or_field(b0, x, 0, 10, 0, 10);
    }
    b0 = b0 | ((x as u16) << 0u16);
    let x = bs.read_bits(10);
    proof {
        lemma_or_field(r1, x, 0, 10, 0, 10);
    }
    r1 = r1 | ((x as u16) << 0u16);
    let x = bs.read_bits(10);
    proof {
        lemma_or_field(g1, x, 0, 10, 0, 10);
    }
    g1 = g1 | ((x as u16) << 0u16);
    let x = bs.read_bits(10);
    proof {
        lemma_or_field(b1, x, 0, 10, 0, 10);
    }
    b1 = b1 | ((x as u16) << 0u16);
    Bc6hFields {
        mode: 10,
        r: [r0, r1, r2, r3],
        g: [g0, g1, g2, g3],
        b: [b0, b1, b2, b3],
        partition,
    }
}

/// Read the endpoint fields of a block in mode 11.
fn bc6h_read_mode11(bs: &mut Bitstream) -> (r: Bc6hFields)
    requires
        old(bs).wf(),
        old(bs).pos@ == 5,
    ensures
        final(bs).wf(),
        final(bs).block@ == old(bs).block@,
        final(bs).pos@ == 65,
        r == bc6h_header_mode11(old(bs).block@),
        (r.r[0] as nat) < pow2(11),
        (r.g[0] as nat) < pow2(11),
        (r.b[0] as nat) < pow2(11),
        r.partition < 32,
{
    proof {
        vstd::arithmetic::power2::lemma2_to64();
    }
    let mut r0: u16 = 0;
    let mut r1: u16 = 0;
    let mut r2: u16 = 0;
    let mut r3: u16 = 0;
    let mut g0: u16 = 0;
    let mut g1: u16 = 0;
    let mut g2: u16 = 0;
    let mut g3: u16 = 0;
    let mut b0: u16 = 0;
    let mut b1: u16 = 0;
    let mut b2: u16 = 0;
    let mut b3: u16 = 0;
    let mut partition: u32 = 0;
    let x = bs.read_bits(10);
    proof {
        lemma_or_field(r0, x, 0, 10, 0, 10);
    }
    r0 = r0 | ((x as u16) << 0u16);
    let x = bs.read_bits(10);
    proof {
        lemma_or_field(g0, x, 0, 10, 0, 10);
    }
    g0 = g0 | ((x as u16) << 0u16);
    let x = bs.read_bits(10);
    proof {
        lemma_or_field(b0, x, 0, 10, 0, 10);
    }
    b0 = b0 | ((x as u16) << 0u16);
    let x = bs.read_bits(9);
    r1 = r1 | ((x as u16) << 0u16);
    let x = bs.read_bit();
    proof {
        lemma_or_field(r0, x, 10, 1, 10, 11);
    }
    r0 = r0 | ((x as u16) << 10u16);
    let x = bs.read_bits(9);
    g1 = g1 | ((x as u16) << 0u16);
    let x = bs.read_bit();
    proof {
        lemma_or_field(g0, x, 10, 1, 10, 11);
    }
    g0 = g0 | ((x as u16) << 10u16);
    let x = bs.read_bits(9);
    b1 = b1 | ((x as u16) << 0u16);
    let x = bs.read_bit();
    proof {
        lemma_or_field(b0, x, 10, 1, 10, 11);
    }
    b0 = b0 | ((x as u16) << 10u16);
    Bc6hFields {
        mode: 11,
        r: [r0, r1, r2, r3],
        g: [g0, g1, g2, g3],
        b: [b0, b1, b2, b3],
        partition,
    }
}

/// Read the endpoint fields of a block in mode 12.
fn bc6h_read_mode12(bs: &mut Bitstream) -> (r: Bc6hFields)
    requires
        old(bs).wf(),
        old(bs).pos@ == 5,
    ensures
        final(bs).wf(),
        final(bs).block@ == old(bs).block@,
        final(bs).pos@ == 65,
        r == bc6h_header_mode12(old(bs).block@),
        (r.r[0] as nat) < pow2(12),
        (r.g[0] as nat) < pow2(12),
        (r.b[0] as nat) < pow2(12),
        r.partition < 32,
{
    proof {
        vstd::arithmetic::power2::lemma2_to64();
    }
    let mut r0: u16 = 0;
    let mut r1: u16 = 0;
    let mut r2: u16 = 0;
    let mut r3: u16 = 0;
    let mut g0: u16 = 0;
    let mut g1: u16 = 0;
    let mut g2: u16 = 0;
    let mut g3: u16 = 0;
    let mut b0: u16 = 0;
    let mut b1: u16 = 0;
    let mut b2: u16 = 0;
    let mut b3: u16 = 0;
    let mut partition: u32 = 0;
    let x = bs.read_bits(10);
    proof {
        lemma_or_field(r0, x, 0, 10, 0, 10);
    }
    r0 = r0 | ((x as u16) << 0u16);
    let x = bs.read_bits(10);
    proof {
        lemma_or_field(g0, x, 0, 10, 0, 10);
    }
    g0 = g0 | ((x as u16) << 0u16);
    let x = bs.read_bits(10);
    proof {
        lemma_or_field(b0, x, 0, 10, 0, 10);
    }
    b0 = b0 | ((x as u16) << 0u16);
    let x = bs.read_bits(8);
    r1 = r1 | ((x as u16) << 0u16);
    let x = bs.read_bits_r(2);
    proof {
        lemma_or_field(r0, x, 10, 2, 10, 12);
    }
    r0 = r0 | ((x as u16) << 10u16);
    let x = bs.read_bits(8);
    g1 = g1 | ((x as u16) << 0u16);
    let x = bs.read_bits_r(2);
    proof {
        lemma_or_field(g0, x, 10, 2, 10, 12);
    }
    g0 = g0 | ((x as u16) << 10u16);
    let x = bs.read_bits(8);
    b1 = b1 | ((x as u16) << 0u16);
    let x = bs.read_bits_r(2);
    proof {
        lemma_or_field(b0, x, 10, 2, 10, 12);
    }
    b0 = b0 | ((x as u16) << 10u16);
    Bc6hFields {
        mode: 12,
        r: [r0, r1, r2, r3],
        g: [g0, g1, g2, g3],
        b: [b0, b1, b2, b3],
        partition,
    }
}

/// Read the endpoint fields of a block in mode 13.
fn bc6h_read_mode13(bs: &mut Bitstream) -> (r: Bc6hFields)
    requires
        old(bs).wf(),
        old(bs).pos@ == 5,
    ensures
        final(bs).wf(),
        final(bs).block@ == old(bs).block@,
        final(bs).pos@ == 65,
        r == bc6h_header_mode13(old(bs).block@),
        (r.r[0] as nat) < pow2(16),
        (r.g[0] as nat) < pow2(16),
        (r.b[0] as nat) < pow2(16),
        r.partition < 32,
{
    proof {
        vstd::arithmetic::power2::lemma2_to64();
    }
    let mut r0: u16 = 0;
    let mut r1: u16 = 0;
    let mut r2: u16 = 0;
    let mut r3: u16 = 0;
    let mut g0: u16 = 0;
    let mut g1: u16 = 0;
    let mut g2: u16 = 0;
    let mut g3: u16 = 0;
    let mut b0: u16 = 0;
    let mut b1: u16 = 0;
    let mut b2: u16 = 0;
    let mut b3: u16 = 0;
    let mut partition: u32 = 0;
    let x = bs.read_bits(10);
    proof {
        lemma_or_field(r0, x, 0, 10, 0, 10);
    }
    r0 = r0 | ((x as u16) << 0u16);
    let x = bs.read_bits(10);
    proof {
        lemma_or_field(g0, x, 0, 10, 0, 10);
    }
    g0 = g0 | ((x as u16) << 0u16);
    let x = bs.read_bits(10);
    proof {
        lemma_or_field(b0, x, 0, 10, 0, 10);
    }
    b0 = b0 | ((x as u16) << 0u16);
    let x = bs.read_bits(4);
    r1 = r1 | ((x as u16) << 0u16);
    let x = bs.read_bits_r(6);
    proof {
        lemma_or_field(r0, x, 10, 6, 10, 16);
    }
    r0 = r0 | ((x as u16) << 10u16);
    let x = bs.read_bits(4);
    g1 = g1 | ((x as u16) << 0u16);
    let x = bs.read_bits_r(6);
    proof {
        lemma_or_field(g0, x, 10, 6, 10, 16);
    }
    g0 = g0 | ((x as u16) << 10u16);
    let x = bs.read_bits(4);
    b1 = b1 | ((x as u16) << 0u16);
    let x = bs.read_bits_r(6);
    proof {
        lemma_or_field(b0, x, 10, 6, 10, 16);
    }
    b0 = b0 | ((x as u16) << 10u16);
    Bc6hFields {
        mode: 13,
        r: [r0, r1, r2, r3],
        g: [g0, g1, g2, g3],
        b: [b0, b1, b2, b3],
        partition,
    }
}


/// Sign extend the low `bits` bits of `val`.
pub open spec fn spec_extend_sign(val: i32, bits: i32) -> i32 {
    (val << ((32 - bits) as u32)) >> ((32 - bits) as u32)
}

fn extend_sign(val: i32, bits: i32) -> (r: i32)
    requires
        4 <= bits <= 16,
    ensures
        r == spec_extend_sign(val, bits),
        -32768 <= r < 32768,
{
    let s = (32 - bits) as u32;
    assert(-32768 <= (val << s) >> s < 32768) by (bit_vector)
        requires
            16 <= s <= 28,
    ;
    (val << s) >> s
}

proof fn lemma_pow2_i32(b: u32)
    requires
        b <= 30,
    ensures
        (1i32 << b) as int == pow2(b as nat),
        (1i32 << b) > 0,
{
    vstd::bits::lemma_u32_pow2_no_overflow(b as nat);
    vstd::bits::lemma_u32_shl_is_mul(1u32, b);
    vstd::arithmetic::power2::lemma2_to64();
    vstd::arithmetic::power2::lemma_pow2_strictly_increases(b as nat, 31);
    assert((1i32 << b) == ((1u32 << b) as i32) && (1u32 << b) < 0x8000_0000u32) by (bit_vector)
        requires
            b <= 30,
    ;
}

/// Undo the delta encoding of an endpoint relative to the base endpoint `a0` with
/// `bits` bits of precision: `(val + a0) mod 2^bits`, sign extended for signed blocks.
pub open spec fn spec_transform_inverse(val: i32, a0: i32, bits: i32, is_signed: bool) -> i32 {
    let t = ((val + a0) as i32) & (((1i32 << (bits as u32)) - 1) as i32);
    if is_signed {
        spec_extend_sign(t, bits)
    } else {
        t
    }
}

fn transform_inverse(val: i32, a0: i32, bits: i32, is_signed: bool) -> (r: i32)
    requires
        -65536 < val < 65536,
        -65536 < a0 < 65536,
        4 <= bits <= 16,
    ensures
        r == spec_transform_inverse(val, a0, bits, is_signed),
        is_signed ==> -32768 <= r < 32768,
        !is_signed ==> 0 <= r && (r as nat) < pow2(bits as nat),
{
    let b = bits as u32;
    proof {
        lemma_pow2_i32(b);
    }
    let mask = (1i32 << b) - 1;
    // If the precision of A0 is "p" bits, then the transform algorithm is:
    // B0 = (B0 + A0) & ((1 << p) - 1)
    let t = (val + a0) & mask;
    assert(0 <= t < (1i32 << b)) by (bit_vector)
        requires
            4 <= b <= 16,
            mask == (1i32 << b) - 1,
            t == ((val + a0) as i32) & mask,
    ;
    if is_signed {
        extend_sign(t, bits)
    } else {
        t
    }
}

/// Scale an endpoint with `bits` bits of precision to 16 bits
/// (15 bits and a sign for signed blocks).
pub open spec fn spec_unquantize(val: i32, bits: i32, is_signed: bool) -> i32 {
    if !is_signed {
        if bits >= 15 {
            val
        } else if val == 0 {
            0
        } else if val == (1i32 << (bits as u32)) - 1 {
            0xFFFF
        } else {
            (((val << 16u32) + 0x8000) as i32) >> (bits as u32)
        }
    } else {
        let negate = bits < 16 && val < 0;
        let v = if negate { (-val) as i32 } else { val };
        let unq = if v == 0 {
            0i32
        } else if v >= (1i32 << ((bits - 1) as u32)) - 1 {
            0x7FFFi32
        } else {
            (((v << 15u32) + 0x4000) as i32) >> ((bits - 1) as u32)
        };
        if negate {
            (-unq) as i32
        } else {
            unq
        }
    }
}

/// Scaling unsigned endpoints of `bits` bits to 16 bits keeps their order and range: 0
/// stays 0, the largest value of fewer than 15 bits becomes `0xFFFF`, and a larger endpoint
/// never scales to a smaller value.
pub proof fn lemma_unquantize_monotonic(v1: i32, v2: i32, bits: i32)
    requires
        1 <= bits <= 16,
        0 <= v1 <= v2,
        (v2 as nat) < pow2(bits as nat),
    ensures
        0 <= spec_unquantize(v1, bits, false) <= spec_unquantize(v2, bits, false) <= 0xFFFF,
        v1 == 0 ==> spec_unquantize(v1, bits, false) == 0,
        bits < 15 && v2 == pow2(bits as nat) - 1 ==> spec_unquantize(v2, bits, false) == 0xFFFF,
{
    let b = bits as u32;
    lemma_pow2_i32(b);
    vstd::arithmetic::power2::lemma2_to64();
    if bits < 15 {
        let m = ((1i32 << b) - 1) as i32;
        assert((0 < v1 < m ==> 0 <= (((v1 << 16u32) + 0x8000) as i32) >> b <= 0xFFFF) && (0 < v2 < m ==> 0 <= (((v2
            << 16u32) + 0x8000) as i32) >> b <= 0xFFFF) && (0 < v1 && v2 < m ==> (((v1 << 16u32) + 0x8000) as i32) >> b
            <= (((v2 << 16u32) + 0x8000) as i32) >> b)) by (bit_vector)
            requires
                0 <= v1 <= v2,
                m == ((1i32 << b) - 1) as i32,
                1 <= b <= 14,
        ;
    }
}

fn unquantize(val: i32, bits: i32, is_signed: bool) -> (r: i32)
    requires
        4 <= bits <= 16,
        !is_signed ==> 0 <= val && (val as nat) < pow2(bits as nat),
        is_signed ==> -32768 <= val < 32768,
    ensures
        r == spec_unquantize(val, bits, is_signed),
        !is_signed ==> 0 <= r <= 0xFFFF,
        is_signed ==> -32768 <= r <= 32767,
{
    let b = bits as u32;
    proof {
        lemma_pow2_i32(b);
        vstd::arithmetic::power2::lemma2_to64();
    }
    let mut unq: i32;
    let mut s: i32 = 0;
    let mut val = val;
    if !is_signed {
        if bits >= 15 {
            unq = val;
        } else if val == 0 {
            unq = 0;
        } else if val == (1 << b) - 1 {
            unq = 0xFFFF;
        } else {
            assert((val << 16u32) <= 0x7FFF0000i32) by (bit_vector);
            let shifted = (val << 16u32) + 0x8000;
            assert(0 <= (((val << 16u32) + 0x8000) as i32) >> b <= 0xFFFF) by (bit_vector)
                requires
                    0 < val < (1i32 << b) - 1,
                    4 <= b <= 14,
            ;
            unq = shifted >> b;
        }
    } else {
        if bits >= 16 {
        } else if val < 0 {
            s = 1;
            val = -val;
        }
        let b1 = (bits - 1) as u32;
        proof {
            lemma_pow2_i32(b1);
        }
        if val == 0 {
            unq = 0;
        } else if val >= (1 << b1) - 1 {
            unq = 0x7FFF;
        } else {
            assert((val << 15u32) <= 0x7FFF8000i32) by (bit_vector);
            let shifted = (val << 15u32) + 0x4000;
            assert(((0 < val < (1i32 << b1) - 1 && b1 <= 14) ==> 0 <= (((val << 15u32) + 0x4000) as i32) >> b1
                <= 0x7FFF) && ((-32768 <= val < 32767 && b1 == 15) ==> -32768 <= (((val << 15u32) + 0x4000) as i32)
                >> b1 <= 0x7FFF)) by (bit_vector);
            unq = shifted >> b1;
        }
        if s != 0 {
            unq = -unq;
        }
    }
    unq
}

/// Blend endpoints `a` and `b` with `weight` out of 64, rounding to nearest.
pub open spec fn spec_interpolate_i32(a: i32, b: i32, weight: i32) -> i32 {
    ((a * (64 - weight) + b * weight + 32) as i32) >> 6u32
}

/// Blending by weight 0 gives the first endpoint and by weight 64 the second; every blend
/// lies between the two endpoints, and moves from the first toward the second as the
/// weight grows.
pub proof fn lemma_interpolate_i32_endpoints(a: i32, b: i32, w1: i32, w2: i32)
    requires
        -65536 <= a <= 65536,
        -65536 <= b <= 65536,
        0 <= w1 <= w2 <= 64,
    ensures
        spec_interpolate_i32(a, b, 0) == a,
        spec_interpolate_i32(a, b, 64) == b,
        a <= b ==> a <= spec_interpolate_i32(a, b, w1) <= spec_interpolate_i32(a, b, w2) <= b,
        b <= a ==> b <= spec_interpolate_i32(a, b, w2) <= spec_interpolate_i32(a, b, w1) <= a,
{
    let x1 = a * (64 - w1) + b * w1;
    let x2 = a * (64 - w2) + b * w2;
    assert(a <= b ==> 64 * a <= x1 <= x2 <= 64 * b) by (nonlinear_arith)
        requires
            0 <= w1 <= w2 <= 64,
            x1 == a * (64 - w1) + b * w1,
            x2 == a * (64 - w2) + b * w2,
    ;
    assert(b <= a ==> 64 * b <= x2 <= x1 <= 64 * a) by (nonlinear_arith)
        requires
            0 <= w1 <= w2 <= 64,
            x1 == a * (64 - w1) + b * w1,
            x2 == a * (64 - w2) + b * w2,
    ;
    assert(-4194304 <= x1 <= 4194304 && -4194304 <= x2 <= 4194304) by (nonlinear_arith)
        requires
            -65536 <= a <= 65536,
            -65536 <= b <= 65536,
            0 <= w1 <= w2 <= 64,
            x1 == a * (64 - w1) + b * w1,
            x2 == a * (64 - w2) + b * w2,
    ;
    let y1 = (x1 + 32) as i32;
    let y2 = (x2 + 32) as i32;
    let ya = (64 * a + 32) as i32;
    let yb = (64 * b + 32) as i32;
    assert(spec_interpolate_i32(a, b, w1) == y1 >> 6u32);
    assert(spec_interpolate_i32(a, b, w2) == y2 >> 6u32);
    assert(spec_interpolate_i32(a, b, 0) == ya >> 6u32);
    assert(spec_interpolate_i32(a, b, 64) == yb >> 6u32);
    if a <= b {
        assert(ya <= y1 <= y2 <= yb);
        lemma_shr6(ya, y1, a);
        lemma_shr6(y1, y2, a);
        lemma_shr6(y2, yb, b);
    } else {
        assert(yb <= y2 <= y1 <= ya);
        lemma_shr6(yb, y2, b);
        lemma_shr6(y2, y1, b);
        lemma_shr6(y1, ya, a);
    }
}

/// An arithmetic shift right by 6 keeps the order of its arguments, and shifting
/// `64 * a + 32` right by 6 gives back `a`.
proof fn lemma_shr6(x: i32, y: i32, a: i32)
    requires
        x <= y,
        -65536 <= a <= 65536,
    ensures
        x >> 6u32 <= y >> 6u32,
        ((64 * a + 32) as i32) >> 6u32 == a,
{
    let z = (64 * a + 32) as i32;
    assert(x >> 6u32 <= y >> 6u32 && z >> 6u32 == a) by (bit_vector)
        requires
            x <= y,
            -65536 <= a <= 65536,
            z == (64 * a + 32) as i32,
    ;
}

fn interpolate_i32(a: i32, b: i32, weight: i32) -> (r: i32)
    requires
        -65536 <= a <= 65536,
        -65536 <= b <= 65536,
        0 <= weight <= 64,
    ensures
        r == spec_interpolate_i32(a, b, weight),
        -65537 <= r <= 65537,
        weight == 0 ==> r == a,
        weight == 64 ==> r == b,
{
    proof {
        lemma_interpolate_i32_endpoints(a, b, weight, weight);
    }
    assert(-65536 * (64 - weight) <= a * (64 - weight) <= 65536 * (64 - weight)) by (nonlinear_arith)
        requires
            -65536 <= a <= 65536,
            0 <= weight <= 64,
    ;
    assert(-65536 * weight <= b * weight <= 65536 * weight) by (nonlinear_arith)
        requires
            -65536 <= b <= 65536,
            0 <= weight <= 64,
    ;
    let x = a * (64 - weight) + b * weight + 32;
    assert(-65537 <= x >> 6u32 <= 65537) by (bit_vector)
        requires
            -4194272 <= x <= 4194336,
    ;
    x >> 6u32
}

/// Scale an interpolated value to the bits of a half precision float:
/// by 31/64 for unsigned blocks, or by 31/32 in magnitude with a separate sign bit.
pub open spec fn spec_finish_unquantize(val: i32, is_signed: bool) -> u16 {
    if !is_signed {
        (((val * 31) as i32) >> 6u32) as u16
    } else {
        let v = if val < 0 {
            (-((((-val) * 31) as i32) >> 5u32)) as i32
        } else {
            ((val * 31) as i32) >> 5u32
        };
        let s: i32 = if v < 0 { 0x8000 } else { 0 };
        let m: i32 = if v < 0 { (-v) as i32 } else { v };
        (s | m) as u16
    }
}

/// Scaling to half precision bits keeps the order and range of unsigned values: 0 stays 0,
/// `0xFFFF` becomes `0x7BFF`, the largest finite half, and a larger value never becomes a
/// smaller one. A signed value becomes the bits of its magnitude scaled by 31/32, at most
/// `0x7BFF`, with the sign bit set for a nonzero negative result: negating a value sets the
/// sign bit and keeps the magnitude.
pub proof fn lemma_finish_unquantize_range(v1: i32, v2: i32, v: i32)
    requires
        0 <= v1 <= v2 <= 0xFFFF,
        0 < v <= 0x7FFF,
    ensures
        spec_finish_unquantize(0, false) == 0,
        spec_finish_unquantize(0xFFFF, false) == 0x7BFF,
        spec_finish_unquantize(v1, false) <= spec_finish_unquantize(v2, false) <= 0x7BFF,
        spec_finish_unquantize(0, true) == 0,
        spec_finish_unquantize(v, true) <= 0x7BFF,
        spec_finish_unquantize(v1, true) <= spec_finish_unquantize(v, true) || v < v1,
        spec_finish_unquantize(v, true) != 0 ==> spec_finish_unquantize(-v as i32, true) == (spec_finish_unquantize(
            v,
            true,
        ) | 0x8000u16),
{
    let x1 = (v1 * 31) as i32;
    let x2 = (v2 * 31) as i32;
    let y = (0xFFFFi32 * 31) as i32;
    let z = (0i32 * 31) as i32;
    assert(0 <= x1 >> 6u32 && x1 >> 6u32 <= x2 >> 6u32 && x2 >> 6u32 <= 0x7BFF && y >> 6u32 == 0x7BFF && z >> 6u32
        == 0 && z >> 5u32 == 0 && (0i32 | (z >> 5u32)) as u16 == 0) by (bit_vector)
        requires
            0 <= v1 <= v2 <= 0xFFFF,
            x1 == (v1 * 31) as i32,
            x2 == (v2 * 31) as i32,
            y == (0xFFFFi32 * 31) as i32,
            z == 0,
    ;
    let x = (v * 31) as i32;
    let m = x >> 5u32;
    let m1 = x1 >> 5u32;
    assert(0 <= m <= 0x7BFF && (0i32 | m) as u16 == m as u16 && (m != 0 ==> (0x8000i32 | m) as u16 == ((m as u16)
        | 0x8000u16)) && (v1 <= v ==> 0 <= m1 <= m && (0i32 | m1) as u16 <= (0i32 | m) as u16)) by (bit_vector)
        requires
            0 <= v1,
            0 < v <= 0x7FFF,
            x1 == (v1 * 31) as i32,
            x == (v * 31) as i32,
            m1 == x1 >> 5u32,
            m == x >> 5u32,
    ;
    assert(spec_finish_unquantize(v, true) == (0i32 | m) as u16);
    if v1 <= v {
        assert(spec_finish_unquantize(v1, true) == (0i32 | m1) as u16);
    }
    let w = (-v) as i32;
    assert(-w == v);
    assert(((-w) * 31) as i32 == x);
    assert(m != 0 ==> spec_finish_unquantize(w, true) == (0x8000i32 | m) as u16);
}

fn finish_unquantize(val: i32, is_signed: bool) -> (r: u16)
    requires
        -65537 <= val <= 65537,
    ensures
        r == spec_finish_unquantize(val, is_signed),
{
    if !is_signed {
        // scale the magnitude by 31 / 64
        ((val * 31) >> 6u32) as u16
    } else {
        assert(-65537 * 31 <= val * 31 <= 65537 * 31) by (nonlinear_arith)
            requires
                -65537 <= val <= 65537,
        ;
        // scale the magnitude by 31 / 32
        let mut val = if val < 0 {
            assert(0 <= (((-val) * 31) as i32) >> 5u32 <= 65537) by (bit_vector)
                requires
                    -65537 <= val < 0,
            ;
            -(((-val) * 31) >> 5u32)
        } else {
            assert(0 <= ((val * 31) as i32) >> 5u32 <= 65537) by (bit_vector)
                requires
                    0 <= val <= 65537,
            ;
            (val * 31) >> 5u32
        };
        let mut s: i32 = 0;
        if val < 0 {
            s = 0x8000;
            val = -val;
        }
        (s | val) as u16
    }
}

/// The endpoints of one channel of a block in `mode` after sign extension, undoing the
/// delta encoding relative to the base endpoint, and scaling to 16 bits.
pub open spec fn bc6h_endpoints(
    raw: [u16; 4],
    mode: int,
    delta_bits: i32,
    bits0: i32,
    is_signed: bool,
) -> Seq<i32> {
    let n: int = if mode >= 10 { 2 } else { 4 };
    // Modes 9 and 10 store the endpoints explicitly rather than as deltas.
    let explicit = mode == 9 || mode == 10;
    let e0 = if is_signed { spec_extend_sign(raw[0] as i32, bits0) } else { raw[0] as i32 };
    Seq::new(
        4,
        |i: int|
            if i >= n {
                raw[i] as i32
            } else {
                let e = if i == 0 {
                    e0
                } else {
                    let x = if !explicit || is_signed {
                        spec_extend_sign(raw[i] as i32, delta_bits)
                    } else {
                        raw[i] as i32
                    };
                    if !explicit { spec_transform_inverse(x, e0, bits0, is_signed) } else { x }
                };
                spec_unquantize(e, bits0, is_signed)
            },
    )
}

fn bc6h_endpoint(
    raw: [u16; 4],
    i: usize,
    mode: u32,
    e0: i32,
    delta_bits: i32,
    bits0: i32,
    is_signed: bool,
) -> (r: i32)
    requires
        i < 4,
        mode < 14,
        4 <= delta_bits <= 16,
        6 <= bits0 <= 16,
        e0 == (if is_signed { spec_extend_sign(raw[0] as i32, bits0) } else { raw[0] as i32 }),
        -32768 <= e0 < 65536,
        is_signed ==> e0 < 32768,
        !is_signed ==> (raw[0] as nat) < pow2(bits0 as nat),
        forall|j: int|
            0 <= j < 4 && (mode == 9 || (mode == 10 && j < 2)) && !is_signed ==> (#[trigger] raw[j] as nat)
                < pow2(bits0 as nat),
    ensures
        r == bc6h_endpoints(raw, mode as int, delta_bits, bits0, is_signed)[i as int],
        -32768 <= r <= 65535,
{
    let n: usize = if mode >= 10 { 2 } else { 4 };
    let explicit = mode == 9 || mode == 10;
    if i >= n {
        raw[i] as i32
    } else {
        let e = if i == 0 {
            e0
        } else {
            let x = if !explicit || is_signed {
                extend_sign(raw[i] as i32, delta_bits)
            } else {
                raw[i] as i32
            };
            if !explicit {
                transform_inverse(x, e0, bits0, is_signed)
            } else {
                x
            }
        };
        unquantize(e, bits0, is_signed)
    }
}

/// The endpoints of one channel, as listed by [`bc6h_endpoints`].
fn bc6h_channel_endpoints(raw: [u16; 4], mode: u32, delta_bits: i32, bits0: i32, is_signed: bool) -> (r: [i32; 4])
    requires
        mode < 14,
        4 <= delta_bits <= 16,
        6 <= bits0 <= 16,
        (raw[0] as nat) < pow2(bits0 as nat),
        forall|j: int|
            0 <= j < 4 && (mode == 9 || (mode == 10 && j < 2)) ==> (#[trigger] raw[j] as nat) < pow2(
                bits0 as nat,
            ),
    ensures
        r@ == bc6h_endpoints(raw, mode as int, delta_bits, bits0, is_signed),
        forall|i: int| 0 <= i < 4 ==> -32768 <= #[trigger] r[i] <= 65535,
{
    proof {
        vstd::arithmetic::power2::lemma2_to64();
    }
    let e0 = if is_signed { extend_sign(raw[0] as i32, bits0) } else { raw[0] as i32 };
    let r = [
        bc6h_endpoint(raw, 0, mode, e0, delta_bits, bits0, is_signed),
        bc6h_endpoint(raw, 1, mode, e0, delta_bits, bits0, is_signed),
        bc6h_endpoint(raw, 2, mode, e0, delta_bits, bits0, is_signed),
        bc6h_endpoint(raw, 3, mode, e0, delta_bits, bits0, is_signed),
    ];
    assert(r@ =~= bc6h_endpoints(raw, mode as int, delta_bits, bits0, is_signed));
    r
}

/// The partition table entry of texel `k`: its region in the low bit, and the high bit
/// set when its index has one bit less. Single region modes only mark texel 0.
pub open spec fn bc6h_partition_entry(h: Bc6hFields, k: int) -> u8 {
    if h.mode >= 10 {
        if k == 0 { 128u8 } else { 0u8 }
    } else {
        BC6H_PARTITION_SETS[h.partition as int][k / 4][k % 4]
    }
}

/// The number of index bits of texel `k`.
pub open spec fn bc6h_index_bits(h: Bc6hFields, k: int) -> nat {
    let base: nat = if h.mode >= 10 { 4 } else { 3 };
    if bc6h_partition_entry(h, k) & 0x80u8 != 0 {
        (base - 1) as nat
    } else {
        base
    }
}

/// The bit position of the index of texel `k`: the indices follow the endpoint fields in order.
pub open spec fn bc6h_index_pos(h: Bc6hFields, k: nat) -> nat
    decreases k,
{
    if k == 0 {
        if h.mode >= 10 { 65 } else { 82 }
    } else {
        bc6h_index_pos(h, (k - 1) as nat) + bc6h_index_bits(h, k - 1)
    }
}

/// The interpolation weight selected by index `idx`.
pub open spec fn bc6h_weight(h: Bc6hFields, idx: int) -> i32 {
    if h.mode >= 10 {
        BC6H_WEIGHTS4[idx]
    } else {
        BC6H_WEIGHTS3[idx]
    }
}

/// The red, green and blue half float bits of texel `k` of block `v`.
pub open spec fn bc6h_texel(v: u128, h: Bc6hFields, is_signed: bool, k: int) -> Seq<u16> {
    let bits0 = BC6H_ACTUAL_BITS_COUNT[0][h.mode as int] as i32;
    let er = bc6h_endpoints(h.r, h.mode as int, BC6H_ACTUAL_BITS_COUNT[1][h.mode as int] as i32, bits0, is_signed);
    let eg = bc6h_endpoints(h.g, h.mode as int, BC6H_ACTUAL_BITS_COUNT[2][h.mode as int] as i32, bits0, is_signed);
    let eb = bc6h_endpoints(h.b, h.mode as int, BC6H_ACTUAL_BITS_COUNT[3][h.mode as int] as i32, bits0, is_signed);
    let subset = (bc6h_partition_entry(h, k) & 1u8) as int;
    let weight = bc6h_weight(h, field(v, bc6h_index_pos(h, k as nat), bc6h_index_bits(h, k)) as int);
    seq![
        spec_finish_unquantize(spec_interpolate_i32(er[2 * subset], er[2 * subset + 1], weight), is_signed),
        spec_finish_unquantize(spec_interpolate_i32(eg[2 * subset], eg[2 * subset + 1], weight), is_signed),
        spec_finish_unquantize(spec_interpolate_i32(eb[2 * subset], eb[2 * subset + 1], weight), is_signed),
    ]
}

/// The 16 texels of block `v` with endpoint fields `h`.
pub open spec fn bc6h_texels(v: u128, h: Bc6hFields, is_signed: bool) -> Seq<Seq<u16>> {
    Seq::new(16, |k: int| bc6h_texel(v, h, is_signed, k))
}

/// Read the index of texel `k` and interpolate its color.
fn bc6h_decode_texel(
    bstream: &mut Bitstream,
    h: Bc6hFields,
    r: &[i32; 4],
    g: &[i32; 4],
    b: &[i32; 4],
    k: usize,
    is_signed: bool,
) -> (texel: [u16; 3])
    requires
        k < 16,
        old(bstream).wf(),
        old(bstream).pos@ == bc6h_index_pos(h, k as nat),
        h.mode < 14,
        h.partition < 32,
        r@ == bc6h_endpoints(h.r, h.mode as int, BC6H_ACTUAL_BITS_COUNT[1][h.mode as int] as i32, BC6H_ACTUAL_BITS_COUNT[0][h.mode as int] as i32, is_signed),
        g@ == bc6h_endpoints(h.g, h.mode as int, BC6H_ACTUAL_BITS_COUNT[2][h.mode as int] as i32, BC6H_ACTUAL_BITS_COUNT[0][h.mode as int] as i32, is_signed),
        b@ == bc6h_endpoints(h.b, h.mode as int, BC6H_ACTUAL_BITS_COUNT[3][h.mode as int] as i32, BC6H_ACTUAL_BITS_COUNT[0][h.mode as int] as i32, is_signed),
        forall|i: int| 0 <= i < 4 ==> -32768 <= #[trigger] r[i] <= 65535,
        forall|i: int| 0 <= i < 4 ==> -32768 <= #[trigger] g[i] <= 65535,
        forall|i: int| 0 <= i < 4 ==> -32768 <= #[trigger] b[i] <= 65535,
    ensures
        final(bstream).wf(),
        final(bstream).block@ == old(bstream).block@,
        final(bstream).pos@ == bc6h_index_pos(h, (k + 1) as nat),
        texel@ == bc6h_texel(old(bstream).block@, h, is_signed, k as int),
{
    proof {
        vstd::arithmetic::power2::lemma2_to64();
    }
    let mode = h.mode;
    let entry: u8 = if mode >= 10 {
        if k == 0 { 128 } else { 0 }
    } else {
        BC6H_PARTITION_SETS[h.partition as usize][k / 4][k % 4]
    };
    assert(entry == bc6h_partition_entry(h, k as int));
    let mut index_bits: u32 = if mode >= 10 { 4 } else { 3 };
    // fix-up index is specified with one less bit
    // The fix-up index for subset 0 is always index 0
    if (entry & 0x80) != 0 {
        index_bits -= 1;
    }
    let subset = (entry & 0x01) as usize;
    assert(entry & 1u8 <= 1) by (bit_vector);
    let index = bstream.read_bits(index_bits);
    let weight = if mode >= 10 { BC6H_WEIGHTS4[index as usize] } else { BC6H_WEIGHTS3[index as usize] };
    assert(0 <= weight <= 64);
    let ep = subset * 2;
    let texel = [
        finish_unquantize(interpolate_i32(r[ep], r[ep + 1], weight), is_signed),
        finish_unquantize(interpolate_i32(g[ep], g[ep + 1], weight), is_signed),
        finish_unquantize(interpolate_i32(b[ep], b[ep + 1], weight), is_signed),
    ];
    assert(texel@ =~= bc6h_texel(old(bstream).block@, h, is_signed, k as int));
    texel
}

/// `s` with the first `n` rows of a block set to zero, where each row holds 4 RGB texels.
pub open spec fn zero_rows(s: Seq<u16>, pitch: nat, n: nat) -> Seq<u16>
    decreases n,
{
    if n == 0 {
        s
    } else {
        splice(zero_rows(s, pitch, (n - 1) as nat), (n - 1) * pitch, Seq::new(12, |i: int| 0u16))
    }
}

/// The output after decoding the BC6H block in `c`: its texels, or zeros for a reserved mode.
pub open spec fn bc6h_output(out: Seq<u16>, c: Seq<u8>, pitch: nat, is_signed: bool) -> Seq<u16> {
    let v = block128(c);
    match bc6h_header(v) {
        None => zero_rows(out, pitch, 4),
        Some(h) => paint(out, pitch, 3, 0, bc6h_texels(v, h, is_signed), 16),
    }
}

/// Decode 16 bytes from `compressed_block` to RGBFloat16
/// with `destination_pitch` many half floats per output row.
///
/// The `u16` values contain the bits of a half-precision floats.
pub fn bc6h_half(
    compressed_block: &[u8],
    decompressed_block: &mut [u16],
    destination_pitch: usize,
    is_signed: bool,
)
    requires
        compressed_block@.len() >= 16,
        block_extent(destination_pitch as nat, 3, 0, 3) <= old(decompressed_block)@.len(),
    ensures
        final(decompressed_block)@.len() == old(decompressed_block)@.len(),
        final(decompressed_block)@ == bc6h_output(
            old(decompressed_block)@,
            compressed_block@,
            destination_pitch as nat,
            is_signed,
        ),
{
    proof {
        vstd::arithmetic::power2::lemma2_to64();
    }
    let mut bstream = Bitstream::new(compressed_block);
    let ghost v = bstream.block@;
    let len = decompressed_block.len();
    let header = bc6h_read_header(&mut bstream);
    let h = match header {
        None => {
            // Modes 10011, 10111, 11011, and 11111 (not shown) are reserved.
            // Do not use these in your encoder. If the hardware is passed blocks
            // with one of these modes specified, the resulting decompressed block
            // must contain all zeroes in all channels except for the alpha channel.
            let zeros = [0u16; 12];
            let mut i: usize = 0;
            while i < 4
                invariant
                    i <= 4,
                    len == old(decompressed_block)@.len(),
                    decompressed_block@.len() == len,
                    block_extent(destination_pitch as nat, 3, 0, 3) <= len,
                    zeros@ == Seq::new(12, |j: int| 0u16),
                    decompressed_block@ == zero_rows(
                        old(decompressed_block)@,
                        destination_pitch as nat,
                        i as nat,
                    ),
                decreases 4 - i,
            {
                assert(i * destination_pitch <= 3 * destination_pitch) by (nonlinear_arith)
                    requires
                        i < 4,
                ;
                let index = i * destination_pitch;
                put_values(decompressed_block, index, &zeros);
                i = i + 1;
            }
            return;
        },
        Some(h) => h,
    };
    let mode = h.mode as usize;
    let bits0 = BC6H_ACTUAL_BITS_COUNT[0][mode] as i32;
    let r = bc6h_channel_endpoints(h.r, h.mode, BC6H_ACTUAL_BITS_COUNT[1][mode] as i32, bits0, is_signed);
    let g = bc6h_channel_endpoints(h.g, h.mode, BC6H_ACTUAL_BITS_COUNT[2][mode] as i32, bits0, is_signed);
    let b = bc6h_channel_endpoints(h.b, h.mode, BC6H_ACTUAL_BITS_COUNT[3][mode] as i32, bits0, is_signed);

    let mut k: usize = 0;
    while k < 16
        invariant
            k <= 16,
            bstream.wf(),
            bstream.block@ == v,
            bstream.pos@ == bc6h_index_pos(h, k as nat),
            v == block128(compressed_block@),
            bc6h_header(v) == Some(h),
            h.mode < 14,
            h.partition < 32,
            mode == h.mode,
            r@ == bc6h_endpoints(h.r, h.mode as int, BC6H_ACTUAL_BITS_COUNT[1][h.mode as int] as i32, bits0, is_signed),
            g@ == bc6h_endpoints(h.g, h.mode as int, BC6H_ACTUAL_BITS_COUNT[2][h.mode as int] as i32, bits0, is_signed),
            b@ == bc6h_endpoints(h.b, h.mode as int, BC6H_ACTUAL_BITS_COUNT[3][h.mode as int] as i32, bits0, is_signed),
            bits0 == BC6H_ACTUAL_BITS_COUNT[0][h.mode as int] as i32,
            forall|i: int| 0 <= i < 4 ==> -32768 <= #[trigger] r[i] <= 65535,
            forall|i: int| 0 <= i < 4 ==> -32768 <= #[trigger] g[i] <= 65535,
            forall|i: int| 0 <= i < 4 ==> -32768 <= #[trigger] b[i] <= 65535,
            len == old(decompressed_block)@.len(),
            decompressed_block@.len() == len,
            block_extent(destination_pitch as nat, 3, 0, 3) <= len,
            decompressed_block@ == paint(
                old(decompressed_block)@,
                destination_pitch as nat,
                3,
                0,
                bc6h_texels(v, h, is_signed),
                k as nat,
            ),
        decreases 16 - k,
    {
        proof {
            vstd::arithmetic::power2::lemma2_to64();
        }
        let texel = bc6h_decode_texel(&mut bstream, h, &r, &g, &b, k, is_signed);
        let start = texel_index(k, destination_pitch, 3, 0, 3, len);
        assert(texel@ =~= bc6h_texels(v, h, is_signed)[k as int]);
        put_values(decompressed_block, start, &texel);
        k = k + 1;
    }
}


} // verus!
