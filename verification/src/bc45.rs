//! Decoding of BC4 blocks, which store one channel, and BC5 blocks, which store two.
//!
//! Each channel is an alpha block of BC3. In the signed variants the two endpoints are
//! snorm8 values: they are remapped to unorm8 for the first two palette entries, and the
//! interpolated entries are computed from them as single-precision arithmetic computes
//! them, which this module reproduces exactly in integer arithmetic.
use vstd::prelude::*;
use vstd::arithmetic::power2::pow2;
use crate::bcdec::{
    alpha_index, block_extent, le64, paint, put_values, read_u64_le, smooth_alpha_block,
    smooth_alpha_texels, splice, texel_index, texel_start,
};
use crate::rounding::{rne24, spec_rne24};

verus! {

/// The single-precision value nearest to `255 / 254`, in units of `2^-23`.
pub const SNORM_SCALE: u64 = 8421634;

/// The single-precision values nearest to `k / 7` for `k` in `1..=6`, in units of `2^-26`.
pub const BLEND7: [u64; 6] = [9586981, 19173962, 28760942, 38347924, 47934904, 57521884];

/// The single-precision values of `1 - w` for each weight `w` of [BLEND7], in units of `2^-26`.
pub const INV_BLEND7: [u64; 6] = [57521884, 47934904, 38347920, 28760940, 19173960, 9586980];

/// The single-precision values nearest to `k / 5` for `k` in `1..=4`, in units of `2^-26`.
pub const BLEND5: [u64; 4] = [13421773, 26843546, 40265320, 53687092];

/// The single-precision values of `1 - w` for each weight `w` of [BLEND5], in units of `2^-26`.
pub const INV_BLEND5: [u64; 4] = [53687092, 40265320, 26843544, 13421772];

/// The snorm8 endpoint `x` moved to `0..=254`: `x + 128` wrapping around, then lowered by
/// one without going below zero, so that `-128` and `-127` both give 0.
pub open spec fn snorm_offset(x: u8) -> int {
    let w = (x + 128) % 256;
    if w == 0 {
        0
    } else {
        w - 1
    }
}

/// The unorm8 value of the snorm8 endpoint `x`.
pub open spec fn signed_endpoint(x: u8) -> int {
    (snorm_offset(x) * 129 + 1) / 128
}

/// The single-precision product of the offset endpoint `x` and [SNORM_SCALE], in units of `2^-23`.
pub open spec fn signed_endpoint_f32(x: u8) -> nat {
    spec_rne24((snorm_offset(x) * SNORM_SCALE) as nat)
}

/// The blend `f0 * inv + f1 * w + 0.5` of the endpoints `f0` and `f1` (in units of `2^-23`)
/// with weights `w` and `inv` (in units of `2^-26`), each step rounded to single precision,
/// and truncated to an integer.
pub open spec fn signed_blend(f0: nat, f1: nat, w: nat, inv: nat) -> int {
    let t0 = spec_rne24(f0 * inv);
    let t1 = spec_rne24(f1 * w);
    let s = spec_rne24(t0 + t1);
    (spec_rne24(s + pow2(48)) / pow2(49)) as int
}

/// The 8 alpha values of a signed block with endpoints `x0` and `x1`.
pub open spec fn signed_alpha_palette(x0: u8, x1: u8) -> Seq<int> {
    let a0 = signed_endpoint(x0);
    let a1 = signed_endpoint(x1);
    let f0 = signed_endpoint_f32(x0);
    let f1 = signed_endpoint_f32(x1);
    if a0 > a1 {
        seq![
            a0,
            a1,
            signed_blend(f0, f1, BLEND7[0] as nat, INV_BLEND7[0] as nat),
            signed_blend(f0, f1, BLEND7[1] as nat, INV_BLEND7[1] as nat),
            signed_blend(f0, f1, BLEND7[2] as nat, INV_BLEND7[2] as nat),
            signed_blend(f0, f1, BLEND7[3] as nat, INV_BLEND7[3] as nat),
            signed_blend(f0, f1, BLEND7[4] as nat, INV_BLEND7[4] as nat),
            signed_blend(f0, f1, BLEND7[5] as nat, INV_BLEND7[5] as nat),
        ]
    } else {
        seq![
            a0,
            a1,
            signed_blend(f0, f1, BLEND5[0] as nat, INV_BLEND5[0] as nat),
            signed_blend(f0, f1, BLEND5[1] as nat, INV_BLEND5[1] as nat),
            signed_blend(f0, f1, BLEND5[2] as nat, INV_BLEND5[2] as nat),
            signed_blend(f0, f1, BLEND5[3] as nat, INV_BLEND5[3] as nat),
            0,
            255,
        ]
    }
}

/// The 16 values of the block at the start of `c`, each selected from `palette` by its index.
pub open spec fn palette_texels(palette: Seq<int>, c: Seq<u8>) -> Seq<Seq<u8>> {
    Seq::new(16, |k: int| seq![palette[alpha_index(c, k)] as u8])
}

/// The 16 values of the signed block at the start of `c`.
pub open spec fn signed_alpha_texels(c: Seq<u8>) -> Seq<Seq<u8>> {
    palette_texels(signed_alpha_palette(c[0], c[1]), c)
}

/// The blend of `f0` and `f1` with weights `w` and `inv`.
fn blend(f0: u64, f1: u64, w: u64, inv: u64) -> (r: u32)
    requires
        f0 < 0x1_0000_0000,
        f1 < 0x1_0000_0000,
        w <= 0x400_0000,
        inv <= 0x400_0000,
    ensures
        r == signed_blend(f0 as nat, f1 as nat, w as nat, inv as nat),
{
    proof {
        vstd::arithmetic::power2::lemma2_to64_rest();
    }
    assert(f0 * inv <= 0x1_0000_0000 * 0x400_0000 && f1 * w <= 0x1_0000_0000 * 0x400_0000)
        by (nonlinear_arith)
        requires
            f0 < 0x1_0000_0000,
            f1 < 0x1_0000_0000,
            w <= 0x400_0000,
            inv <= 0x400_0000,
    ;
    let t0 = rne24(f0 * inv);
    let t1 = rne24(f1 * w);
    let s = rne24(t0 + t1);
    let u = rne24(s + 0x1_0000_0000_0000);
    proof {
        vstd::bits::lemma_u64_shr_is_div(u, 49);
    }
    let v = u >> 49;
    assert(v < 0x1_0000_0000);
    v as u32
}

/// The unorm8 value of the snorm8 endpoint `x`, and its single-precision value times `255 / 254`.
fn signed_endpoints(x: u8) -> (r: (u32, u64))
    ensures
        r.0 == signed_endpoint(x),
        r.0 < 256,
        r.1 == signed_endpoint_f32(x),
        r.1 < 0x1_0000_0000,
{
    let w: u32 = if x >= 128 { x as u32 - 128 } else { x as u32 + 128 };
    let y: u32 = if w == 0 { 0 } else { w - 1 };
    assert(y == snorm_offset(x) && y <= 254);
    let a = ((y * 129 + 1) >> 7) as u32;
    assert(((y * 129 + 1) as u32) >> 7u32 == (y * 129 + 1) / 128) by (bit_vector)
        requires
            y <= 254,
    ;
    let f = rne24(y as u64 * SNORM_SCALE);
    (a, f)
}

/// Write the values selected by the indices of the block at the start of `compressed_block`
/// from `alpha` into every `pixel_size`-th element starting at `offset`.
fn put_palette_block(
    compressed_block: &[u8],
    decompressed_block: &mut [u8],
    offset: usize,
    destination_pitch: usize,
    pixel_size: usize,
    alpha: &[u32; 8],
    palette: Ghost<Seq<int>>,
)
    requires
        compressed_block@.len() >= 8,
        block_extent(destination_pitch as nat, pixel_size as nat, offset as nat, 1) <= old(
            decompressed_block,
        )@.len(),
        palette@.len() == 8,
        forall|m: int| 0 <= m < 8 ==> alpha[m] == #[trigger] palette@[m],
    ensures
        final(decompressed_block)@.len() == old(decompressed_block)@.len(),
        final(decompressed_block)@ == paint(
            old(decompressed_block)@,
            destination_pitch as nat,
            pixel_size as nat,
            offset as nat,
            palette_texels(palette@, compressed_block@),
            16,
        ),
{
    let block = read_u64_le(compressed_block);
    let indices = block >> 16;
    let len = decompressed_block.len();
    let mut k: usize = 0;
    while k < 16
        invariant
            k <= 16,
            compressed_block@.len() >= 8,
            indices == le64(compressed_block@) >> 16u64,
            palette@.len() == 8,
            forall|m: int| 0 <= m < 8 ==> alpha[m] == #[trigger] palette@[m],
            len == old(decompressed_block)@.len(),
            decompressed_block@.len() == len,
            block_extent(destination_pitch as nat, pixel_size as nat, offset as nat, 1) <= len,
            decompressed_block@ == paint(
                old(decompressed_block)@,
                destination_pitch as nat,
                pixel_size as nat,
                offset as nat,
                palette_texels(palette@, compressed_block@),
                k as nat,
            ),
        decreases 16 - k,
    {
        let idx = (indices >> (3 * k) as u64) & 7;
        assert(idx < 8) by (bit_vector)
            requires
                idx == (indices >> (3 * k) as u64) & 7u64,
        ;
        let value = alpha[idx as usize] as u8;
        let index = texel_index(k, destination_pitch, pixel_size, offset, 1, len);
        put_values(decompressed_block, index, &[value]);
        assert(seq![value] =~= palette_texels(palette@, compressed_block@)[k as int]);
        k = k + 1;
    }
}

/// Decode a signed alpha block into every `pixel_size`-th byte starting at `offset`.
fn smooth_alpha_block_signed(
    compressed_block: &[u8],
    decompressed_block: &mut [u8],
    offset: usize,
    destination_pitch: usize,
    pixel_size: usize,
)
    requires
        compressed_block@.len() >= 8,
        block_extent(destination_pitch as nat, pixel_size as nat, offset as nat, 1) <= old(
            decompressed_block,
        )@.len(),
    ensures
        final(decompressed_block)@.len() == old(decompressed_block)@.len(),
        final(decompressed_block)@ == paint(
            old(decompressed_block)@,
            destination_pitch as nat,
            pixel_size as nat,
            offset as nat,
            signed_alpha_texels(compressed_block@),
            16,
        ),
{
    let (a0, f0) = signed_endpoints(compressed_block[0]);
    let (a1, f1) = signed_endpoints(compressed_block[1]);
    let alpha: [u32; 8] = if a0 > a1 {
        // 6 interpolated alpha values.
        [
            a0,
            a1,
            blend(f0, f1, BLEND7[0], INV_BLEND7[0]),
            blend(f0, f1, BLEND7[1], INV_BLEND7[1]),
            blend(f0, f1, BLEND7[2], INV_BLEND7[2]),
            blend(f0, f1, BLEND7[3], INV_BLEND7[3]),
            blend(f0, f1, BLEND7[4], INV_BLEND7[4]),
            blend(f0, f1, BLEND7[5], INV_BLEND7[5]),
        ]
    } else {
        // 4 interpolated alpha values.
        [
            a0,
            a1,
            blend(f0, f1, BLEND5[0], INV_BLEND5[0]),
            blend(f0, f1, BLEND5[1], INV_BLEND5[1]),
            blend(f0, f1, BLEND5[2], INV_BLEND5[2]),
            blend(f0, f1, BLEND5[3], INV_BLEND5[3]),
            0x00,
            0xFF,
        ]
    };
    let ghost palette = signed_alpha_palette(compressed_block@[0], compressed_block@[1]);
    assert(forall|m: int| 0 <= m < 8 ==> alpha[m] == #[trigger] palette[m]);
    put_palette_block(
        compressed_block,
        decompressed_block,
        offset,
        destination_pitch,
        pixel_size,
        &alpha,
        Ghost(palette),
    );
}

/// Decode 8 bytes from `compressed_block` to R8
/// with `destination_pitch` many bytes per output row.
///
/// Signed blocks are decoded to unorm8 values.
pub fn bc4(
    compressed_block: &[u8],
    decompressed_block: &mut [u8],
    destination_pitch: usize,
    is_signed: bool,
)
    requires
        compressed_block@.len() >= 8,
        block_extent(destination_pitch as nat, 1, 0, 1) <= old(decompressed_block)@.len(),
    ensures
        final(decompressed_block)@.len() == old(decompressed_block)@.len(),
        final(decompressed_block)@ == paint(
            old(decompressed_block)@,
            destination_pitch as nat,
            1,
            0,
            if is_signed {
                signed_alpha_texels(compressed_block@)
            } else {
                smooth_alpha_texels(compressed_block@)
            },
            16,
        ),
        destination_pitch == 4 ==> final(decompressed_block)@ == bc4_rows(
            compressed_block@,
            old(decompressed_block)@,
            is_signed,
        ),
{
    proof {
        reveal(channel_texels);
    }
    if is_signed {
        smooth_alpha_block_signed(compressed_block, decompressed_block, 0, destination_pitch, 1);
    } else {
        smooth_alpha_block(compressed_block, decompressed_block, 0, destination_pitch, 1);
    }
}

/// Decode 16 bytes from `compressed_block` to RG8
/// with `destination_pitch` many bytes per output row.
///
/// Signed blocks are decoded to unorm8 values.
pub fn bc5(
    compressed_block: &[u8],
    decompressed_block: &mut [u8],
    destination_pitch: usize,
    is_signed: bool,
)
    requires
        compressed_block@.len() >= 16,
        block_extent(destination_pitch as nat, 2, 0, 2) <= old(decompressed_block)@.len(),
    ensures
        final(decompressed_block)@.len() == old(decompressed_block)@.len(),
        final(decompressed_block)@ == paint(
            paint(
                old(decompressed_block)@,
                destination_pitch as nat,
                2,
                0,
                if is_signed {
                    signed_alpha_texels(compressed_block@)
                } else {
                    smooth_alpha_texels(compressed_block@)
                },
                16,
            ),
            destination_pitch as nat,
            2,
            1,
            if is_signed {
                signed_alpha_texels(compressed_block@.subrange(8, 16))
            } else {
                smooth_alpha_texels(compressed_block@.subrange(8, 16))
            },
            16,
        ),
        destination_pitch == 8 ==> final(decompressed_block)@ == bc5_rows(
            compressed_block@,
            old(decompressed_block)@,
            is_signed,
        ),
{
    proof {
        reveal(channel_texels);
    }
    let second = &compressed_block[8..16];
    assert(second@ =~= compressed_block@.subrange(8, 16));
    if is_signed {
        smooth_alpha_block_signed(compressed_block, decompressed_block, 0, destination_pitch, 2);
        smooth_alpha_block_signed(second, decompressed_block, 1, destination_pitch, 2);
    } else {
        smooth_alpha_block(compressed_block, decompressed_block, 0, destination_pitch, 2);
        smooth_alpha_block(second, decompressed_block, 1, destination_pitch, 2);
    }
}

/// The values of a BC4 or BC5 channel block, read from the first 8 bytes of `c`.
#[verifier::opaque]
pub open spec fn channel_texels(c: Seq<u8>, is_signed: bool) -> Seq<Seq<u8>> {
    if is_signed {
        signed_alpha_texels(c)
    } else {
        smooth_alpha_texels(c)
    }
}

/// The values of a channel block depend on its first 8 bytes alone.
proof fn lemma_channel_texels_prefix(c: Seq<u8>, is_signed: bool)
    requires
        c.len() >= 8,
    ensures
        channel_texels(c, is_signed) == channel_texels(c.subrange(0, 8), is_signed),
{
    reveal(channel_texels);
    let d = c.subrange(0, 8);
    assert(le64(c) == le64(d));
    assert(channel_texels(c, is_signed) =~= channel_texels(d, is_signed));
}

/// Painting the 16 one-element `texels` of a block whose rows are `4 * stride` elements
/// apart writes texel `k` at `stride * k + offset`, and leaves every other element as it was.
proof fn lemma_paint_channel(s: Seq<u8>, stride: nat, offset: nat, texels: Seq<Seq<u8>>, n: nat)
    requires
        n <= 16,
        1 <= stride,
        offset < stride,
        16 * stride <= s.len(),
        texels.len() == 16,
        forall|k: int| 0 <= k < 16 ==> (#[trigger] texels[k]).len() == 1,
    ensures
        paint(s, 4 * stride, stride, offset, texels, n).len() == s.len(),
        forall|k: int| 0 <= k < n ==> paint(s, 4 * stride, stride, offset, texels, n)[stride * k + offset]
            == (#[trigger] texels[k])[0],
        forall|i: int|
            0 <= i < s.len() && (i % (stride as int) != offset || i / (stride as int) >= n) ==> #[trigger] paint(
                s,
                4 * stride,
                stride,
                offset,
                texels,
                n,
            )[i] == s[i],
    decreases n,
{
    if n > 0 {
        let m = (n - 1) as nat;
        lemma_paint_channel(s, stride, offset, texels, m);
        let prev = paint(s, 4 * stride, stride, offset, texels, m);
        let a = texel_start(m, 4 * stride, stride, offset);
        assert(a == stride * m + offset) by (nonlinear_arith)
            requires
                a == (m as int / 4) * (4 * stride) + (m as int % 4) * stride + offset,
                m as int == 4 * (m as int / 4) + m as int % 4,
        ;
        assert(stride * m + offset < s.len()) by (nonlinear_arith)
            requires
                m < 16,
                offset < stride,
                16 * stride <= s.len(),
        ;
        let cur = paint(s, 4 * stride, stride, offset, texels, n);
        assert(cur == splice(prev, a, texels[m as int]));
        assert(cur =~= prev.update(a, texels[m as int][0]));
        assert forall|k: int| 0 <= k < n implies cur[stride * k + offset] == (#[trigger] texels[k])[0] by {
            assert(stride * k + offset < s.len()) by (nonlinear_arith)
                requires
                    0 <= k < 16,
                    offset < stride,
                    16 * stride <= s.len(),
            ;
            if k < m {
                assert(stride * k + offset != stride * m + offset) by (nonlinear_arith)
                    requires
                        k < m,
                        stride >= 1,
                ;
                assert(cur[stride * k + offset] == prev[stride * k + offset]);
            } else {
                assert(k == m);
            }
        }
        assert forall|i: int|
            0 <= i < s.len() && (i % (stride as int) != offset || i / (stride as int) >= n) implies #[trigger] cur[i]
            == s[i] by {
            assert(((stride * m + offset) as int) % (stride as int) == offset && ((stride * m + offset) as int) / (stride as int) == m)
                by (nonlinear_arith)
                requires
                    offset < stride,
                    stride >= 1,
            ;
            assert(i != a);
        }
    }
}

/// The RG8 rows of 8 bytes that decoding the BC5 block `block` writes over `rg`.
pub open spec fn bc5_rows(block: Seq<u8>, rg: Seq<u8>, is_signed: bool) -> Seq<u8> {
    paint(
        paint(rg, 8, 2, 0, channel_texels(block, is_signed), 16),
        8,
        2,
        1,
        channel_texels(block.subrange(8, 16), is_signed),
        16,
    )
}

/// The R8 rows of 4 bytes that decoding the BC4 block `block` writes over `r`.
pub open spec fn bc4_rows(block: Seq<u8>, r: Seq<u8>, is_signed: bool) -> Seq<u8> {
    paint(r, 4, 1, 0, channel_texels(block, is_signed), 16)
}

/// BC5 is two interleaved BC4 channels: red from bytes `0..8` of the block, green from bytes
/// `8..16`. What `bc5` writes with a pitch of 8 bytes holds, at red and green of texel
/// `k = 4 * i + j` (bytes `8 * i + 2 * j` and `8 * i + 2 * j + 1`), what `bc4` writes with a
/// pitch of 4 bytes at texel `k` for each half of the block.
pub proof fn lemma_bc5_two_bc4(block: Seq<u8>, rg: Seq<u8>, r: Seq<u8>, g: Seq<u8>, is_signed: bool)
    requires
        block.len() >= 16,
        rg.len() >= 32,
        r.len() >= 16,
        g.len() >= 16,
    ensures
        forall|k: int|
            #![trigger bc4_rows(block.subrange(0, 8), r, is_signed)[k]]
            0 <= k < 16 ==> bc5_rows(block, rg, is_signed)[2 * k] == bc4_rows(block.subrange(0, 8), r, is_signed)[k]
                && bc5_rows(block, rg, is_signed)[2 * k + 1] == bc4_rows(block.subrange(8, 16), g, is_signed)[k],
{
    let t0 = channel_texels(block, is_signed);
    let t1 = channel_texels(block.subrange(8, 16), is_signed);
    lemma_channel_texels_prefix(block, is_signed);
    assert(t0.len() == 16 && forall|k: int| 0 <= k < 16 ==> (#[trigger] t0[k]).len() == 1) by {
        reveal(channel_texels);
    }
    assert(t1.len() == 16 && forall|k: int| 0 <= k < 16 ==> (#[trigger] t1[k]).len() == 1) by {
        reveal(channel_texels);
    }
    let first = paint(rg, 8, 2, 0, t0, 16);
    lemma_paint_channel(rg, 2, 0, t0, 16);
    lemma_paint_channel(first, 2, 1, t1, 16);
    lemma_paint_channel(r, 1, 0, t0, 16);
    lemma_paint_channel(g, 1, 0, t1, 16);
    let rg5 = bc5_rows(block, rg, is_signed);
    assert forall|k: int|
        #![trigger bc4_rows(block.subrange(0, 8), r, is_signed)[k]]
        0 <= k < 16 implies bc5_rows(block, rg, is_signed)[2 * k] == bc4_rows(block.subrange(0, 8), r, is_signed)[k]
            && bc5_rows(block, rg, is_signed)[2 * k + 1] == bc4_rows(block.subrange(8, 16), g, is_signed)[k] by {
        assert(t0[k].len() == 1 && t1[k].len() == 1);
        assert(paint(r, 4, 1, 0, t0, 16)[1 * k + 0] == t0[k][0]);
        assert(paint(g, 4, 1, 0, t1, 16)[1 * k + 0] == t1[k][0]);
        assert(rg5[2 * k + 1] == t1[k][0]);
        assert(first[2 * k + 0] == t0[k][0]);
        assert((2 * k) % 2 != 1);
        assert(rg5[2 * k] == first[2 * k]);
    }
}

} // verus!
