//! Decoding of BC7 blocks, which store RGBA8 texels.
//!
//! The position of the lowest set bit selects one of eight modes, which differ in the
//! number of regions, the precision of the endpoints, shared or unique P-bits, a channel
//! rotation and a second set of indices. A block without a set bit in its first 8 bits
//! decodes to transparent black.
use vstd::prelude::*;
use vstd::arithmetic::power2::pow2;
use crate::bcdec::{block_extent, paint, put_values, splice, texel_index};
use crate::bitstream::{block128, field, Bitstream};
use crate::bc7_partitions::{bc7_partition_lookup, bc7_partition_set};

verus! {

/// The number of bits of the color (row 0) and alpha (row 1) endpoint components of each mode.
pub const BC7_ACTUAL_BITS_COUNT: [[u8; 8]; 2] = [
    [4, 6, 5, 7, 5, 7, 7, 5], // RGBA
    [0, 0, 0, 0, 6, 8, 7, 5], // Alpha
];

/// Interpolation weights out of 64 for 2 bit indices.
pub const BC7_WEIGHTS2: [u32; 4] = [0, 21, 43, 64];

/// Interpolation weights out of 64 for 3 bit indices.
pub const BC7_WEIGHTS3: [u32; 8] = [0, 9, 18, 27, 37, 46, 55, 64];

/// Interpolation weights out of 64 for 4 bit indices.
pub const BC7_WEIGHTS4: [u32; 16] = [0, 4, 9, 13, 17, 21, 26, 30, 34, 38, 43, 47, 51, 55, 60, 64];

/// The mode of block `v`: the number of zero bits before the first set bit, searched from
/// bit `m` on, or 8 when the first 8 bits are zero.
pub open spec fn bc7_mode_from(v: u128, m: nat) -> nat
    decreases 8 - m,
{
    if m >= 8 {
        8
    } else if field(v, m, 1) == 1 {
        m
    } else {
        bc7_mode_from(v, m + 1)
    }
}

/// The mode of block `v`, where 8 means an invalid block.
pub open spec fn bc7_mode(v: u128) -> nat {
    bc7_mode_from(v, 0)
}

/// The fields of a BC7 block that come before its endpoints.
#[derive(Clone, Copy)]
pub struct Bc7Header {
    pub mode: u32,
    pub num_partitions: u32,
    pub partition: u32,
    pub rotation: u32,
    pub index_selection_bit: u32,
}

/// Whether the region count and partition of `mode` are stored in the block.
pub open spec fn bc7_has_partition(mode: u32) -> bool {
    mode == 0 || mode == 1 || mode == 2 || mode == 3 || mode == 7
}

/// The number of bits of the partition of a block in `mode`.
pub open spec fn bc7_partition_bits(mode: u32) -> nat {
    if !bc7_has_partition(mode) { 0 } else if mode == 0 { 4 } else { 6 }
}

/// The number of bits of the rotation and index selection of a block in `mode`.
pub open spec fn bc7_rotation_bits(mode: u32) -> nat {
    if mode == 4 { 3 } else if mode == 5 { 2 } else { 0 }
}

/// The header of block `v` in a mode below 8.
pub open spec fn bc7_header(v: u128) -> Bc7Header {
    let mode = bc7_mode(v) as u32;
    let p = (mode + 1) as nat;
    let np: u32 = if !bc7_has_partition(mode) { 1 } else if mode == 0 || mode == 2 { 3 } else { 2 };
    let partition = if bc7_has_partition(mode) { field(v, p, bc7_partition_bits(mode)) } else { 0 };
    let q = p + bc7_partition_bits(mode);
    let rotation = if mode == 4 || mode == 5 { field(v, q, 2) } else { 0 };
    let isb = if mode == 4 { field(v, q + 2, 1) } else { 0 };
    Bc7Header { mode, num_partitions: np, partition, rotation, index_selection_bit: isb }
}

/// The bit position of the first endpoint component of a block with header `h`.
pub open spec fn bc7_endpoints_pos(h: Bc7Header) -> nat {
    (h.mode + 1 + bc7_partition_bits(h.mode) + bc7_rotation_bits(h.mode)) as nat
}

/// The number of endpoints of a block with header `h`.
pub open spec fn bc7_num_endpoints(h: Bc7Header) -> int {
    2 * h.num_partitions
}

/// The stored bits of component `c` of endpoint `e`: all red components come first,
/// then all green, all blue and, for modes with alpha, all alpha components.
pub open spec fn bc7_raw_component(v: u128, h: Bc7Header, e: int, c: int) -> u32 {
    let ne = bc7_num_endpoints(h);
    let cb = BC7_ACTUAL_BITS_COUNT[0][h.mode as int] as int;
    let ab = BC7_ACTUAL_BITS_COUNT[1][h.mode as int] as int;
    let start = bc7_endpoints_pos(h) as int;
    if c < 3 {
        field(v, (start + (c * ne + e) * cb) as nat, cb as nat)
    } else if ab > 0 {
        field(v, (start + 3 * ne * cb + e * ab) as nat, ab as nat)
    } else {
        0
    }
}

/// Whether `mode` stores P-bits, the shared low bits of endpoint components.
pub open spec fn bc7_has_pbits(mode: u32) -> bool {
    mode == 0 || mode == 1 || mode == 3 || mode == 6 || mode == 7
}

/// The bit position of the P-bits, which follow the endpoint components.
pub open spec fn bc7_pbits_pos(h: Bc7Header) -> nat {
    let ne = bc7_num_endpoints(h);
    let cb = BC7_ACTUAL_BITS_COUNT[0][h.mode as int] as int;
    let ab = BC7_ACTUAL_BITS_COUNT[1][h.mode as int] as int;
    (bc7_endpoints_pos(h) + 3 * ne * cb + ne * ab) as nat
}

/// The P-bit of component `c` of endpoint `e`. Mode 1 shares one P-bit between the color
/// components of each pair of endpoints, the other P-bit modes have one per endpoint.
pub open spec fn bc7_pbit(v: u128, h: Bc7Header, e: int, c: int) -> u32 {
    let p = bc7_pbits_pos(h) as int;
    if h.mode == 1 {
        if c < 3 { field(v, (p + e / 2) as nat, 1) } else { 0 }
    } else if bc7_has_pbits(h.mode) {
        field(v, (p + e) as nat, 1)
    } else {
        0
    }
}

/// The number of bits of the index section's start: the bits of the header, endpoints and P-bits.
pub open spec fn bc7_indices_pos(h: Bc7Header) -> nat {
    let ne = bc7_num_endpoints(h);
    let pbits = if h.mode == 1 { 2 } else if bc7_has_pbits(h.mode) { ne } else { 0 };
    (bc7_pbits_pos(h) + pbits) as nat
}

/// An endpoint component with `j` significant bits scaled to 8 bits by replicating its
/// most significant bits into the low bits.
pub open spec fn spec_expand_bits(x: u32, j: u32) -> u32 {
    ((x << ((8 - j) as u32)) | ((x << ((8 - j) as u32)) >> j))
}

/// Scaling a component of `j` bits to 8 bits keeps it in the top `j` bits and fills the
/// rest from its own top bits: 0 stays 0, the largest component of at least 4 bits becomes
/// 255, and a larger component never scales to a smaller value.
pub proof fn lemma_expand_bits_scales(x: u32, y: u32, j: u32)
    requires
        1 <= j <= 8,
        x <= y,
        (y as nat) < pow2(j as nat),
    ensures
        spec_expand_bits(x, j) <= spec_expand_bits(y, j) <= 255,
        spec_expand_bits(x, j) >> ((8 - j) as u32) == x,
        x == 0 ==> spec_expand_bits(x, j) == 0,
        4 <= j && (y as nat) == pow2(j as nat) - 1 ==> spec_expand_bits(y, j) == 255,
{
    vstd::bits::lemma_u32_pow2_no_overflow(j as nat);
    vstd::bits::lemma_u32_shl_is_mul(1u32, j);
    let s = (8 - j) as u32;
    assert(y < (1u32 << j));
    assert(((x << s) | ((x << s) >> j)) <= ((y << s) | ((y << s) >> j)) && ((y << s) | ((y << s) >> j)) <= 255
        && ((x << s) | ((x << s) >> j)) >> s == x && (x == 0 ==> ((x << s) | ((x << s) >> j)) == 0) && (4 <= j && y
        == (1u32 << j) - 1 ==> ((y << s) | ((y << s) >> j)) == 255)) by (bit_vector)
        requires
            1 <= j <= 8,
            s == 8 - j,
            x <= y,
            y < (1u32 << j),
    ;
}

/// Component `c` of endpoint `e` as an 8 bit value.
/// Modes without alpha components have an alpha of 255, and the endpoints past those
/// of the block's regions are zero.
pub open spec fn bc7_endpoint(v: u128, h: Bc7Header, e: int, c: int) -> u32 {
    let pb: u32 = if bc7_has_pbits(h.mode) { 1 } else { 0 };
    let raw = bc7_raw_component(v, h, e, c);
    let x = if bc7_has_pbits(h.mode) { (raw << 1u32) | bc7_pbit(v, h, e, c) } else { raw };
    let bits = if c < 3 { BC7_ACTUAL_BITS_COUNT[0][h.mode as int] } else { BC7_ACTUAL_BITS_COUNT[1][h.mode as int] };
    if e >= bc7_num_endpoints(h) {
        0
    } else if c == 3 && BC7_ACTUAL_BITS_COUNT[1][h.mode as int] == 0 {
        0xFF
    } else {
        spec_expand_bits(x, (bits as u32 + pb) as u32)
    }
}

/// The partition table entry of texel `k`: its region in the low bits, and the high bit
/// set when its index has one bit less. Single region blocks only mark texel 0.
pub open spec fn bc7_partition_entry(h: Bc7Header, k: int) -> u8 {
    if h.num_partitions == 1 {
        if k == 0 { 128u8 } else { 0u8 }
    } else {
        bc7_partition_set(h.num_partitions - 2, h.partition as int, k)
    }
}

/// The number of bits of the primary indices of `mode`.
pub open spec fn bc7_base_index_bits(mode: u32) -> nat {
    if mode == 0 || mode == 1 { 3 } else if mode == 6 { 4 } else { 2 }
}

/// The number of bits of the secondary indices of `mode`, or 0 without secondary indices.
pub open spec fn bc7_base_index2_bits(mode: u32) -> nat {
    if mode == 4 { 3 } else if mode == 5 { 2 } else { 0 }
}

/// The number of bits of the primary index of texel `k`.
pub open spec fn bc7_index_bits(h: Bc7Header, k: int) -> nat {
    if bc7_partition_entry(h, k) & 0x80u8 != 0 {
        (bc7_base_index_bits(h.mode) - 1) as nat
    } else {
        bc7_base_index_bits(h.mode)
    }
}

/// The number of bits of the secondary index of texel `k`, which is zero without secondary indices.
pub open spec fn bc7_index2_bits(h: Bc7Header, k: int) -> nat {
    if bc7_base_index2_bits(h.mode) == 0 {
        0
    } else if k == 0 {
        (bc7_base_index2_bits(h.mode) - 1) as nat
    } else {
        bc7_base_index2_bits(h.mode)
    }
}

/// The bit position of the primary index of texel `k`.
pub open spec fn bc7_index_pos(h: Bc7Header, k: nat) -> nat
    decreases k,
{
    if k == 0 {
        bc7_indices_pos(h)
    } else {
        bc7_index_pos(h, (k - 1) as nat) + bc7_index_bits(h, k - 1)
    }
}

/// The bit position of the secondary index of texel `k`, after all primary indices.
pub open spec fn bc7_index2_pos(h: Bc7Header, k: nat) -> nat
    decreases k,
{
    if k == 0 {
        bc7_index_pos(h, 16)
    } else {
        bc7_index2_pos(h, (k - 1) as nat) + bc7_index2_bits(h, k - 1)
    }
}

/// The interpolation weight of index `idx` with `bits` bit indices.
pub open spec fn bc7_weight(bits: nat, idx: int) -> u32 {
    if bits == 2 {
        BC7_WEIGHTS2[idx]
    } else if bits == 3 {
        BC7_WEIGHTS3[idx]
    } else {
        BC7_WEIGHTS4[idx]
    }
}

/// Blend endpoints `a` and `b` with `weight` out of 64, rounding to nearest.
pub open spec fn spec_interpolate(a: u32, b: u32, weight: u32) -> u32 {
    ((a * (64 - weight) + b * weight + 32) / 64) as u32
}

/// Blending by weight 0 gives the first endpoint and by weight 64 the second; every blend
/// lies between the two endpoints, and moves from the first toward the second as the
/// weight grows.
pub proof fn lemma_interpolate_endpoints(a: u32, b: u32, w1: u32, w2: u32)
    requires
        a <= 255,
        b <= 255,
        w1 <= w2 <= 64,
    ensures
        spec_interpolate(a, b, 0) == a,
        spec_interpolate(a, b, 64) == b,
        a <= b ==> a <= spec_interpolate(a, b, w1) <= spec_interpolate(a, b, w2) <= b,
        b <= a ==> b <= spec_interpolate(a, b, w2) <= spec_interpolate(a, b, w1) <= a,
{
    assert(a <= b ==> a * (64 - w1) + b * w1 <= a * (64 - w2) + b * w2) by (nonlinear_arith)
        requires
            w1 <= w2 <= 64,
    ;
    assert(b <= a ==> a * (64 - w2) + b * w2 <= a * (64 - w1) + b * w1) by (nonlinear_arith)
        requires
            w1 <= w2 <= 64,
    ;
    assert(a <= b ==> 64 * a <= a * (64 - w1) + b * w1 && a * (64 - w2) + b * w2 <= 64 * b) by (nonlinear_arith)
        requires
            w1 <= w2 <= 64,
    ;
    assert(b <= a ==> 64 * b <= a * (64 - w2) + b * w2 && a * (64 - w1) + b * w1 <= 64 * a) by (nonlinear_arith)
        requires
            w1 <= w2 <= 64,
    ;
}

/// The first index of every index width selects weight 0, and so the first endpoint, and the
/// last index selects weight 64, the second endpoint; larger indices never select smaller
/// weights.
pub proof fn lemma_bc7_weight_ends(bits: nat, i: int, j: int)
    requires
        2 <= bits <= 4,
        0 <= i <= j < pow2(bits),
    ensures
        bc7_weight(bits, 0) == 0,
        bc7_weight(bits, pow2(bits) - 1) == 64,
        bc7_weight(bits, i) <= bc7_weight(bits, j) <= 64,
{
    vstd::arithmetic::power2::lemma2_to64();
    assert(bc7_weight(bits, i) <= bc7_weight(bits, j) <= 64) by {
        if bits == 2 {
            assert(BC7_WEIGHTS2[i] <= BC7_WEIGHTS2[j] <= 64);
        } else if bits == 3 {
            assert(BC7_WEIGHTS3[i] <= BC7_WEIGHTS3[j] <= 64);
        } else {
            assert(BC7_WEIGHTS4[i] <= BC7_WEIGHTS4[j] <= 64);
        }
    }
}

/// The region of texel `k`.
pub open spec fn bc7_region(h: Bc7Header, k: int) -> int {
    (bc7_partition_entry(h, k) & 3u8) as int
}

/// The weight selected by the primary index of texel `k`.
pub open spec fn bc7_primary_weight(v: u128, h: Bc7Header, k: int) -> u32 {
    bc7_weight(
        bc7_base_index_bits(h.mode),
        field(v, bc7_index_pos(h, k as nat), bc7_index_bits(h, k)) as int,
    )
}

/// The weight selected by the secondary index of texel `k`, or the primary weight
/// in modes without secondary indices.
pub open spec fn bc7_secondary_weight(v: u128, h: Bc7Header, k: int) -> u32 {
    let ib2 = bc7_base_index2_bits(h.mode);
    if ib2 == 0 {
        bc7_primary_weight(v, h, k)
    } else {
        bc7_weight(ib2, field(v, bc7_index2_pos(h, k as nat), bc7_index2_bits(h, k)) as int)
    }
}

/// Whether the index selection bit swaps the weights of color and alpha.
pub open spec fn bc7_swaps_weights(h: Bc7Header) -> bool {
    bc7_base_index2_bits(h.mode) != 0 && h.index_selection_bit != 0
}

/// The weight with which the color channels of texel `k` are blended.
pub open spec fn bc7_color_weight(v: u128, h: Bc7Header, k: int) -> u32 {
    if bc7_swaps_weights(h) { bc7_secondary_weight(v, h, k) } else { bc7_primary_weight(v, h, k) }
}

/// The weight with which the alpha channel of texel `k` is blended.
pub open spec fn bc7_alpha_weight(v: u128, h: Bc7Header, k: int) -> u32 {
    if bc7_swaps_weights(h) { bc7_primary_weight(v, h, k) } else { bc7_secondary_weight(v, h, k) }
}

/// The texel with channels `r`, `g`, `b` and `a` after swapping alpha with the channel
/// that `rotation` selects.
pub open spec fn bc7_rotate(r: u32, g: u32, b: u32, a: u32, rotation: u32) -> Seq<u8> {
    if rotation == 1 {
        seq![a as u8, g as u8, b as u8, r as u8]
    } else if rotation == 2 {
        seq![r as u8, a as u8, b as u8, g as u8]
    } else if rotation == 3 {
        seq![r as u8, g as u8, a as u8, b as u8]
    } else {
        seq![r as u8, g as u8, b as u8, a as u8]
    }
}

/// Texel `k` of block `v`: the two endpoints of its region blended by the color weight
/// for red, green and blue and by the alpha weight for alpha, followed by the rotation.
pub open spec fn bc7_texel(v: u128, h: Bc7Header, k: int) -> Seq<u8> {
    let e0 = 2 * bc7_region(h, k);
    let wc = bc7_color_weight(v, h, k);
    let wa = bc7_alpha_weight(v, h, k);
    bc7_rotate(
        spec_interpolate(bc7_endpoint(v, h, e0, 0), bc7_endpoint(v, h, e0 + 1, 0), wc),
        spec_interpolate(bc7_endpoint(v, h, e0, 1), bc7_endpoint(v, h, e0 + 1, 1), wc),
        spec_interpolate(bc7_endpoint(v, h, e0, 2), bc7_endpoint(v, h, e0 + 1, 2), wc),
        spec_interpolate(bc7_endpoint(v, h, e0, 3), bc7_endpoint(v, h, e0 + 1, 3), wa),
        h.rotation,
    )
}

/// The 16 texels of block `v`.
pub open spec fn bc7_texels(v: u128) -> Seq<Seq<u8>> {
    Seq::new(16, |k: int| bc7_texel(v, bc7_header(v), k))
}

/// `s` with the first `n` rows of a block set to zero, where each row holds 4 RGBA8 texels.
pub open spec fn zero_rows_rgba8(s: Seq<u8>, pitch: nat, n: nat) -> Seq<u8>
    decreases n,
{
    if n == 0 {
        s
    } else {
        splice(zero_rows_rgba8(s, pitch, (n - 1) as nat), (n - 1) * pitch, Seq::new(16, |i: int| 0u8))
    }
}

/// The output after decoding the BC7 block in `c`: its texels, or transparent black for an invalid mode.
pub open spec fn bc7_output(out: Seq<u8>, c: Seq<u8>, pitch: nat) -> Seq<u8> {
    let v = block128(c);
    if bc7_mode(v) >= 8 {
        zero_rows_rgba8(out, pitch, 4)
    } else {
        paint(out, pitch, 4, 0, bc7_texels(v), 16)
    }
}

/// Read the mode: the number of zero bits before the first set bit, at most 8.
fn bc7_read_mode(bs: &mut Bitstream) -> (mode: u32)
    requires
        old(bs).wf(),
        old(bs).pos@ == 0,
    ensures
        final(bs).wf(),
        final(bs).block@ == old(bs).block@,
        mode == bc7_mode(old(bs).block@),
        mode < 8 ==> final(bs).pos@ == mode + 1,
{
    let ghost v = bs.block@;
    let mut mode: u32 = 0;
    while mode < 8
        invariant
            mode <= 8,
            bs.wf(),
            bs.block@ == v,
            v == old(bs).block@,
            bs.pos@ == mode,
            bc7_mode(v) == bc7_mode_from(v, mode as nat),
        decreases 8 - mode,
    {
        let bit = bs.read_bit();
        if bit != 0 {
            return mode;
        }
        mode += 1;
    }
    mode
}

/// Read the partition, rotation and index selection bit of a block in `mode`.
fn bc7_read_header(bs: &mut Bitstream, mode: u32) -> (h: Bc7Header)
    requires
        old(bs).wf(),
        mode < 8,
        mode == bc7_mode(old(bs).block@),
        old(bs).pos@ == mode + 1,
    ensures
        final(bs).wf(),
        final(bs).block@ == old(bs).block@,
        h == bc7_header(old(bs).block@),
        final(bs).pos@ == bc7_endpoints_pos(h),
        h.mode == mode,
        1 <= h.num_partitions <= 3,
        h.partition < 64,
        h.rotation < 4,
        h.index_selection_bit < 2,
{
    proof {
        vstd::arithmetic::power2::lemma2_to64();
    }
    let mut partition: u32 = 0;
    let mut num_partitions: u32 = 1;
    let mut rotation: u32 = 0;
    let mut index_selection_bit: u32 = 0;
    if mode == 0 || mode == 1 || mode == 2 || mode == 3 || mode == 7 {
        num_partitions = if mode == 0 || mode == 2 { 3 } else { 2 };
        partition = bs.read_bits(if mode == 0 { 4 } else { 6 });
    }
    if mode == 4 || mode == 5 {
        rotation = bs.read_bits(2);
        if mode == 4 {
            index_selection_bit = bs.read_bit();
        }
    }
    Bc7Header { mode, num_partitions, partition, rotation, index_selection_bit }
}

/// Read `n` consecutive fields of `bits` bits into component `c` of endpoints `0..n`,
/// where component `c` of endpoint `e` is at index `4 * e + c`.
fn read_components(bs: &mut Bitstream, raw: &mut [u32; 32], c: usize, n: usize, bits: u32)
    requires
        old(bs).wf(),
        c < 4,
        n <= 6,
        1 <= bits <= 8,
    ensures
        final(bs).wf(),
        final(bs).block@ == old(bs).block@,
        final(bs).pos@ == old(bs).pos@ + n * bits,
        forall|i: int|
            0 <= i < 32 ==> #[trigger] final(raw)@[i] == if i % 4 == c && i / 4 < n {
                field(old(bs).block@, (old(bs).pos@ + (i / 4) * bits) as nat, bits as nat)
            } else {
                old(raw)@[i]
            },
        forall|i: int|
            0 <= i < 32 && i % 4 == c && i / 4 < n ==> (#[trigger] final(raw)@[i] as nat) < pow2(bits as nat),
{
    let ghost v = bs.block@;
    let ghost p0 = bs.pos@;
    let mut e: usize = 0;
    while e < n
        invariant
            e <= n <= 6,
            c < 4,
            1 <= bits <= 8,
            bs.wf(),
            bs.block@ == v,
            bs.pos@ == p0 + e * bits,
            forall|i: int|
                0 <= i < 32 ==> #[trigger] raw@[i] == if i % 4 == c && i / 4 < e {
                    field(v, (p0 + (i / 4) * bits) as nat, bits as nat)
                } else {
                    old(raw)@[i]
                },
            forall|i: int|
                0 <= i < 32 && i % 4 == c && i / 4 < e ==> (#[trigger] raw@[i] as nat) < pow2(bits as nat),
        decreases n - e,
    {
        let x = bs.read_bits(bits);
        raw[4 * e + c] = x;
        proof {
            assert(p0 + e * bits + bits == p0 + (e + 1) * bits) by (nonlinear_arith);
        }
        e += 1;
    }
}

/// An endpoint component with `j` significant bits scaled to 8 bits.
fn expand_bits(x: u32, j: u32) -> (r: u32)
    requires
        1 <= j <= 8,
        (x as nat) < pow2(j as nat),
    ensures
        r == spec_expand_bits(x, j),
        r <= 255,
{
    proof {
        vstd::bits::lemma_u32_pow2_no_overflow(j as nat);
        vstd::bits::lemma_u32_shl_is_mul(1u32, j);
    }
    let s = 8 - j;
    // left shift endpoint components so that their MSB lies in bit 7
    let y = x << s;
    // Replicate each component's MSB into the LSBs revealed by the left-shift operation above
    assert((y | (y >> j)) <= 255 && y == x << ((8 - j) as u32)) by (bit_vector)
        requires
            j <= 8,
            x < (1u32 << j),
            s == 8 - j,
            y == x << s,
    ;
    y | (y >> j)
}

/// A stored endpoint component with `raw_bits` bits, with its P-bit appended when the
/// mode has P-bits, scaled to 8 bits.
fn decode_component(raw: u32, pbit: u32, has_pbits: bool, raw_bits: u32) -> (r: u32)
    requires
        1 <= raw_bits,
        raw_bits + (if has_pbits { 1int } else { 0int }) <= 8,
        (raw as nat) < pow2(raw_bits as nat),
        pbit < 2,
    ensures
        r == spec_expand_bits(
            if has_pbits { (raw << 1u32) | pbit } else { raw },
            (raw_bits + if has_pbits { 1u32 } else { 0u32 }) as u32,
        ),
        r <= 255,
{
    proof {
        vstd::bits::lemma_u32_pow2_no_overflow(raw_bits as nat);
        vstd::bits::lemma_u32_shl_is_mul(1u32, raw_bits);
        vstd::bits::lemma_u32_pow2_no_overflow((raw_bits + 1) as nat);
        vstd::bits::lemma_u32_shl_is_mul(1u32, (raw_bits + 1) as u32);
    }
    if has_pbits {
        assert(((raw << 1u32) | pbit) < (1u32 << ((raw_bits + 1) as u32))) by (bit_vector)
            requires
                raw_bits <= 7,
                raw < (1u32 << raw_bits),
                pbit < 2,
        ;
        expand_bits((raw << 1) | pbit, raw_bits + 1)
    } else {
        expand_bits(raw, raw_bits)
    }
}

/// Whether `ep` holds the 8 bit endpoints of block `v`, component `c` of endpoint `e`
/// at index `4 * e + c`.
pub open spec fn bc7_endpoints_decoded(ep: Seq<u32>, v: u128, h: Bc7Header) -> bool {
    &&& ep.len() == 32
    &&& forall|i: int| 0 <= i < 32 ==> #[trigger] ep[i] == bc7_endpoint(v, h, i / 4, i % 4)
    &&& forall|i: int| 0 <= i < 32 ==> #[trigger] ep[i] <= 255
}

/// An array of zeros.
fn zeros<const N: usize>() -> (r: [u32; N])
    ensures
        forall|i: int| 0 <= i < N ==> r@[i] == 0,
{
    let mut r = [0u32; N];
    let mut k: usize = 0;
    while k < N
        invariant
            k <= N,
            forall|i: int| 0 <= i < k ==> r@[i] == 0,
        decreases N - k,
    {
        r[k] = 0;
        k += 1;
    }
    r
}

/// Read the stored endpoint components, which the P-bits follow.

fn bc7_read_raw_endpoints(bs: &mut Bitstream, h: Bc7Header) -> (raw: [u32; 32])
    requires
        old(bs).wf(),
        h == bc7_header(old(bs).block@),
        h.mode < 8,
        1 <= h.num_partitions <= 3,
        old(bs).pos@ == bc7_endpoints_pos(h),
    ensures
        final(bs).wf(),
        final(bs).block@ == old(bs).block@,
        final(bs).pos@ == bc7_pbits_pos(h),
        forall|i: int|
            0 <= i < 4 * bc7_num_endpoints(h) ==> #[trigger] raw@[i] == bc7_raw_component(
                old(bs).block@,
                h,
                i / 4,
                i % 4,
            ),
        forall|i: int|
            0 <= i < 4 * bc7_num_endpoints(h) ==> (#[trigger] raw@[i] as nat) < pow2(
                if i % 4 < 3 {
                    BC7_ACTUAL_BITS_COUNT[0][h.mode as int] as nat
                } else {
                    BC7_ACTUAL_BITS_COUNT[1][h.mode as int] as nat
                },
            ),
{
    let ghost v = bs.block@;
    let mode = h.mode as usize;
    let num_endpoints = (h.num_partitions * 2) as usize;
    let cb = BC7_ACTUAL_BITS_COUNT[0][mode] as u32;
    let ab = BC7_ACTUAL_BITS_COUNT[1][mode] as u32;
    let ghost start = bc7_endpoints_pos(h) as int;
    let ghost ne = num_endpoints as int;
    let mut raw: [u32; 32] = zeros();

    // Extract endpoints
    // RGB
    read_components(bs, &mut raw, 0, num_endpoints, cb);
    let ghost raw0 = raw@;
    read_components(bs, &mut raw, 1, num_endpoints, cb);
    let ghost raw1 = raw@;
    read_components(bs, &mut raw, 2, num_endpoints, cb);
    let ghost raw2 = raw@;
    let ghost p3 = bs.pos@;
    // Alpha (if any)
    if ab > 0 {
        read_components(bs, &mut raw, 3, num_endpoints, ab);
    }
    proof {
        vstd::arithmetic::power2::lemma2_to64();
        assert(p3 == start + 3 * ne * cb) by (nonlinear_arith)
            requires
                p3 == start + ne * cb + ne * cb + ne * cb,
        ;
        if ab == 0 {
            assert(ne * ab == 0) by (nonlinear_arith)
                requires
                    ab == 0,
            ;
        }
        assert forall|i: int| 0 <= i < 4 * ne implies {
            &&& #[trigger] raw@[i] == bc7_raw_component(v, h, i / 4, i % 4)
            &&& (raw@[i] as nat) < pow2(if i % 4 < 3 { cb as nat } else { ab as nat })
        } by {
            let e = i / 4;
            let c = i % 4;
            if c == 0 {
                assert((0 * ne + e) * cb == e * cb) by (nonlinear_arith);
                assert(raw1[i] == raw0[i]);
                assert(raw2[i] == raw1[i]);
            } else if c == 1 {
                assert((1 * ne + e) * cb == ne * cb + e * cb) by (nonlinear_arith);
                assert(raw2[i] == raw1[i]);
            } else if c == 2 {
                assert((2 * ne + e) * cb == ne * cb + ne * cb + e * cb) by (nonlinear_arith);
            } else {
                assert(raw2[i] == raw0[i]);
            }
        }
    }
    raw
}

/// Read the endpoints and P-bits and scale the endpoints to 8 bits.
/// Component `c` of endpoint `e` is at index `4 * e + c`.

fn bc7_read_endpoints(bs: &mut Bitstream, h: Bc7Header) -> (ep: [u32; 32])
    requires
        old(bs).wf(),
        h == bc7_header(old(bs).block@),
        h.mode < 8,
        1 <= h.num_partitions <= 3,
        old(bs).pos@ == bc7_endpoints_pos(h),
    ensures
        final(bs).wf(),
        final(bs).block@ == old(bs).block@,
        final(bs).pos@ == bc7_indices_pos(h),
        bc7_endpoints_decoded(ep@, old(bs).block@, h),
{
    let ghost v = bs.block@;
    let mode = h.mode as usize;
    let num_endpoints = (h.num_partitions * 2) as usize;
    let cb = BC7_ACTUAL_BITS_COUNT[0][mode] as u32;
    let ab = BC7_ACTUAL_BITS_COUNT[1][mode] as u32;
    let ghost ne = num_endpoints as int;
    let raw = bc7_read_raw_endpoints(bs, h);

    // P-bits
    let mut pbits: [u32; 6] = zeros();
    if mode == 1 {
        // The P-bit is shared between pairs of endpoints
        let i = bs.read_bit();
        let j = bs.read_bit();
        pbits = [i, i, j, j, 0, 0];
    } else if mode == 0 || mode == 3 || mode == 6 || mode == 7 {
        // unique P-bit per endpoint
        let mut e: usize = 0;
        while e < num_endpoints
            invariant
                e <= num_endpoints,
                bs.wf(),
                bs.block@ == v,
                num_endpoints == ne,
                2 <= ne <= 6,
                bs.pos@ == bc7_pbits_pos(h) + e,
                forall|e2: int| 0 <= e2 < e ==> #[trigger] pbits[e2] == field(v, (bc7_pbits_pos(h) + e2) as nat, 1),
                forall|i: int| 0 <= i < 6 ==> #[trigger] pbits[i] < 2,
            decreases num_endpoints - e,
        {
            pbits[e] = bs.read_bit();
            e += 1;
        }
    }

    // Fully decode endpoints
    let has_pbits = mode == 0 || mode == 1 || mode == 3 || mode == 6 || mode == 7;
    assert(has_pbits == bc7_has_pbits(h.mode));
    let mut ep: [u32; 32] = zeros();
    let mut i: usize = 0;
    while i < 32
        invariant
            i <= 32,
            h.mode < 8,
            mode == h.mode,
            num_endpoints == bc7_num_endpoints(h),
            2 <= num_endpoints <= 6,
            cb == BC7_ACTUAL_BITS_COUNT[0][h.mode as int],
            ab == BC7_ACTUAL_BITS_COUNT[1][h.mode as int],
            has_pbits == bc7_has_pbits(h.mode),
            forall|j: int|
                0 <= j < 4 * num_endpoints ==> #[trigger] raw@[j] == bc7_raw_component(v, h, j / 4, j % 4),
            forall|j: int|
                0 <= j < 4 * num_endpoints ==> (#[trigger] raw@[j] as nat) < pow2(
                    if j % 4 < 3 { cb as nat } else { ab as nat },
                ),
            forall|e: int| 0 <= e < num_endpoints && has_pbits ==> #[trigger] pbits[e] == bc7_pbit(v, h, e, 0),
            forall|j: int| 0 <= j < 6 ==> #[trigger] pbits[j] < 2,
            forall|j: int| 0 <= j < i ==> #[trigger] ep@[j] == bc7_endpoint(v, h, j / 4, j % 4),
            forall|j: int| i <= j < 32 ==> #[trigger] ep@[j] == 0,
            forall|j: int| 0 <= j < 32 ==> #[trigger] ep@[j] <= 255,
        decreases 32 - i,
    {
        let e = i / 4;
        let c = i % 4;
        if e < num_endpoints {
            if c == 3 && ab == 0 {
                // If this mode does not explicitly define the alpha component
                // set alpha equal to 1.0
                ep[i] = 0xFF;
            } else {
                let p = if mode == 1 && c == 3 { 0 } else { pbits[e] };
                let bits = if c < 3 { cb } else { ab };
                ep[i] = decode_component(raw[i], p, has_pbits, bits);
            }
        }
        i += 1;
    }
    ep
}

/// Blend endpoints `a` and `b` with `weight` out of 64, rounding to nearest.
fn interpolate(a: u32, b: u32, weight: u32) -> (r: u32)
    requires
        a <= 255,
        b <= 255,
        weight <= 64,
    ensures
        r == spec_interpolate(a, b, weight),
        r <= 255,
        weight == 0 ==> r == a,
        weight == 64 ==> r == b,
{
    proof {
        lemma_interpolate_endpoints(a, b, weight, weight);
    }
    assert(a * (64 - weight) <= 255 * (64 - weight) && b * weight <= 255 * weight) by (nonlinear_arith)
        requires
            a <= 255,
            b <= 255,
            weight <= 64,
    ;
    let x = a * (64 - weight) + b * weight + 32;
    assert(x >> 6u32 == x / 64) by (bit_vector);
    x >> 6
}

/// The partition table entry of texel `k`.
fn bc7_entry(h: Bc7Header, k: usize) -> (entry: u8)
    requires
        1 <= h.num_partitions <= 3,
        h.partition < 64,
        k < 16,
    ensures
        entry == bc7_partition_entry(h, k as int),
{
    if h.num_partitions == 1 {
        if k == 0 { 128 } else { 0 }
    } else {
        bc7_partition_lookup((h.num_partitions - 2) as usize, h.partition as usize, k)
    }
}

/// Read the primary indices of the 16 texels.

fn bc7_read_indices(bs: &mut Bitstream, h: Bc7Header) -> (indices: [u32; 16])
    requires
        old(bs).wf(),
        h.mode < 8,
        1 <= h.num_partitions <= 3,
        h.partition < 64,
        old(bs).pos@ == bc7_indices_pos(h),
    ensures
        final(bs).wf(),
        final(bs).block@ == old(bs).block@,
        final(bs).pos@ == bc7_index_pos(h, 16),
        forall|k: int|
            0 <= k < 16 ==> #[trigger] indices[k] == field(
                old(bs).block@,
                bc7_index_pos(h, k as nat),
                bc7_index_bits(h, k),
            ),
        forall|k: int| 0 <= k < 16 ==> (#[trigger] indices[k] as nat) < pow2(bc7_base_index_bits(h.mode)),
{
    let ghost v = bs.block@;
    let mode = h.mode;
    let mut indices: [u32; 16] = zeros();
    proof {
        vstd::arithmetic::power2::lemma2_to64();
    }
    let mut k: usize = 0;
    while k < 16
        invariant
            k <= 16,
            h.mode < 8,
            mode == h.mode,
            1 <= h.num_partitions <= 3,
            h.partition < 64,
            bs.wf(),
            bs.block@ == v,
            bs.pos@ == bc7_index_pos(h, k as nat),
            forall|k2: int|
                0 <= k2 < k ==> #[trigger] indices[k2] == field(v, bc7_index_pos(h, k2 as nat), bc7_index_bits(h, k2)),
            forall|k2: int| 0 <= k2 < 16 ==> (#[trigger] indices[k2] as nat) < pow2(bc7_base_index_bits(h.mode)),
        decreases 16 - k,
    {
        proof {
            vstd::arithmetic::power2::lemma2_to64();
        }
        let entry = bc7_entry(h, k);
        let mut index_bits: u32 = if mode == 0 || mode == 1 {
            3
        } else if mode == 6 {
            4
        } else {
            2
        };
        // fix-up index is specified with one less bit
        // The fix-up index for subset 0 is always index 0
        if entry & 0x80 != 0 {
            index_bits -= 1;
        }
        let x = bs.read_bits(index_bits);
        indices[k] = x;
        k += 1;
    }
    indices
}

/// The color and alpha weights of texel `k`, reading its secondary index if the mode has one.
fn bc7_read_weights(bs: &mut Bitstream, h: Bc7Header, indices: &[u32; 16], k: usize) -> (w: (u32, u32))
    requires
        k < 16,
        old(bs).wf(),
        h.mode < 8,
        h.index_selection_bit < 2,
        old(bs).pos@ == bc7_index2_pos(h, k as nat),
        forall|k2: int|
            0 <= k2 < 16 ==> #[trigger] indices[k2] == field(
                old(bs).block@,
                bc7_index_pos(h, k2 as nat),
                bc7_index_bits(h, k2),
            ),
        forall|k2: int| 0 <= k2 < 16 ==> (#[trigger] indices[k2] as nat) < pow2(bc7_base_index_bits(h.mode)),
    ensures
        final(bs).wf(),
        final(bs).block@ == old(bs).block@,
        final(bs).pos@ == bc7_index2_pos(h, (k + 1) as nat),
        w.0 == bc7_color_weight(old(bs).block@, h, k as int),
        w.1 == bc7_alpha_weight(old(bs).block@, h, k as int),
        w.0 <= 64,
        w.1 <= 64,
{
    proof {
        vstd::arithmetic::power2::lemma2_to64();
    }
    let mode = h.mode;
    let index = indices[k] as usize;
    let weight = if mode == 0 || mode == 1 {
        BC7_WEIGHTS3[index]
    } else if mode == 6 {
        BC7_WEIGHTS4[index]
    } else {
        BC7_WEIGHTS2[index]
    };
    let index_bits2: u32 = if mode == 4 { 3 } else if mode == 5 { 2 } else { 0 };
    let weight2 = if index_bits2 == 0 {
        weight
    } else {
        let index2 = bs.read_bits(if k != 0 { index_bits2 } else { index_bits2 - 1 });
        if index_bits2 == 2 { BC7_WEIGHTS2[index2 as usize] } else { BC7_WEIGHTS3[index2 as usize] }
    };
    // The index value for interpolating color comes from the secondary index bits for the texel
    // if the mode has an index selection bit and its value is one, and from the primary index bits otherwise.
    // The alpha index comes from the secondary index bits if the block has a secondary index and
    // the block either doesn’t have an index selection bit or that bit is zero, and from the primary index bits otherwise.
    if index_bits2 == 0 || h.index_selection_bit == 0 {
        (weight, weight2)
    } else {
        (weight2, weight)
    }
}

/// Blend the endpoints of `region` with weight `wc` for color and `wa` for alpha, then
/// swap alpha with the channel selected by `rotation`.
fn bc7_blend(ep: &[u32; 32], region: usize, wc: u32, wa: u32, rotation: u32) -> (texel: [u8; 4])
    requires
        region < 4,
        wc <= 64,
        wa <= 64,
        forall|i: int| 0 <= i < 32 ==> #[trigger] ep@[i] <= 255,
    ensures
        texel@ == bc7_rotate(
            spec_interpolate(ep@[8 * region], ep@[8 * region + 4], wc),
            spec_interpolate(ep@[8 * region + 1], ep@[8 * region + 5], wc),
            spec_interpolate(ep@[8 * region + 2], ep@[8 * region + 6], wc),
            spec_interpolate(ep@[8 * region + 3], ep@[8 * region + 7], wa),
            rotation,
        ),
{
    let e0 = 8 * region;
    let e1 = 8 * region + 4;
    let mut r = interpolate(ep[e0], ep[e1], wc);
    let mut g = interpolate(ep[e0 + 1], ep[e1 + 1], wc);
    let mut b = interpolate(ep[e0 + 2], ep[e1 + 2], wc);
    let mut a = interpolate(ep[e0 + 3], ep[e1 + 3], wa);
    match rotation {
        1 => {
            // 01 – Block format is Scalar(R) Vector(AGB) - swap A and R
            let t = a;
            a = r;
            r = t;
        },
        2 => {
            // 10 – Block format is Scalar(G) Vector(RAB) - swap A and G
            let t = a;
            a = g;
            g = t;
        },
        3 => {
            // 11 - Block format is Scalar(B) Vector(RGA) - swap A and B
            let t = a;
            a = b;
            b = t;
        },
        _ => {},
    }
    let texel = [r as u8, g as u8, b as u8, a as u8];
    assert(texel@ =~= bc7_rotate(
        spec_interpolate(ep@[8 * region], ep@[8 * region + 4], wc),
        spec_interpolate(ep@[8 * region + 1], ep@[8 * region + 5], wc),
        spec_interpolate(ep@[8 * region + 2], ep@[8 * region + 6], wc),
        spec_interpolate(ep@[8 * region + 3], ep@[8 * region + 7], wa),
        rotation,
    ));
    texel
}

/// The endpoints of region `region` in `ep` are those of the block.
proof fn lemma_bc7_region_endpoints(ep: Seq<u32>, v: u128, h: Bc7Header, region: int)
    requires
        bc7_endpoints_decoded(ep, v, h),
        0 <= region < 4,
    ensures
        forall|c: int|
            0 <= c < 4 ==> ep[8 * region + c] == #[trigger] bc7_endpoint(v, h, 2 * region, c)
                && ep[8 * region + 4 + c] == bc7_endpoint(v, h, 2 * region + 1, c),
{
    assert forall|c: int| 0 <= c < 4 implies ep[8 * region + c] == #[trigger] bc7_endpoint(v, h, 2 * region, c)
        && ep[8 * region + 4 + c] == bc7_endpoint(v, h, 2 * region + 1, c) by {
        let i = 8 * region + c;
        let j = 8 * region + 4 + c;
        assert(i / 4 == 2 * region && i % 4 == c);
        assert(j / 4 == 2 * region + 1 && j % 4 == c);
        assert(ep[i] == bc7_endpoint(v, h, i / 4, i % 4));
        assert(ep[j] == bc7_endpoint(v, h, j / 4, j % 4));
    }
}

/// Decode texel `k`, reading its secondary index if the mode has one.
fn bc7_decode_texel(
    bs: &mut Bitstream,
    h: Bc7Header,
    ep: &[u32; 32],
    indices: &[u32; 16],
    k: usize,
) -> (texel: [u8; 4])
    requires
        k < 16,
        old(bs).wf(),
        h.mode < 8,
        1 <= h.num_partitions <= 3,
        h.partition < 64,
        h.rotation < 4,
        h.index_selection_bit < 2,
        old(bs).pos@ == bc7_index2_pos(h, k as nat),
        bc7_endpoints_decoded(ep@, old(bs).block@, h),
        forall|k2: int|
            0 <= k2 < 16 ==> #[trigger] indices[k2] == field(
                old(bs).block@,
                bc7_index_pos(h, k2 as nat),
                bc7_index_bits(h, k2),
            ),
        forall|k2: int| 0 <= k2 < 16 ==> (#[trigger] indices[k2] as nat) < pow2(bc7_base_index_bits(h.mode)),
    ensures
        final(bs).wf(),
        final(bs).block@ == old(bs).block@,
        final(bs).pos@ == bc7_index2_pos(h, (k + 1) as nat),
        texel@ == bc7_texel(old(bs).block@, h, k as int),
{
    let ghost v = bs.block@;
    let entry = bc7_entry(h, k);
    assert(entry & 3u8 <= 3) by (bit_vector);
    let region = (entry & 0x03) as usize;
    let (wc, wa) = bc7_read_weights(bs, h, indices, k);
    let texel = bc7_blend(ep, region, wc, wa, h.rotation);
    proof {
        lemma_bc7_region_endpoints(ep@, v, h, region as int);
        assert(ep@[8 * region + 0] == bc7_endpoint(v, h, 2 * region, 0));
        assert(ep@[8 * region + 4 + 0] == bc7_endpoint(v, h, 2 * region + 1, 0));
        assert(ep@[8 * region + 1] == bc7_endpoint(v, h, 2 * region, 1));
        assert(ep@[8 * region + 4 + 1] == bc7_endpoint(v, h, 2 * region + 1, 1));
        assert(ep@[8 * region + 2] == bc7_endpoint(v, h, 2 * region, 2));
        assert(ep@[8 * region + 4 + 2] == bc7_endpoint(v, h, 2 * region + 1, 2));
        assert(ep@[8 * region + 3] == bc7_endpoint(v, h, 2 * region, 3));
        assert(ep@[8 * region + 4 + 3] == bc7_endpoint(v, h, 2 * region + 1, 3));
    }
    texel
}

/// Decode 16 bytes from `compressed_block` to RGBA8
/// with `destination_pitch` many bytes per output row.
pub fn bc7(compressed_block: &[u8], decompressed_block: &mut [u8], destination_pitch: usize)
    requires
        compressed_block@.len() >= 16,
        block_extent(destination_pitch as nat, 4, 0, 4) <= old(decompressed_block)@.len(),
    ensures
        final(decompressed_block)@.len() == old(decompressed_block)@.len(),
        final(decompressed_block)@ == bc7_output(
            old(decompressed_block)@,
            compressed_block@,
            destination_pitch as nat,
        ),
{
    let mut bstream = Bitstream::new(compressed_block);
    let ghost v = bstream.block@;
    let len = decompressed_block.len();
    let mode = bc7_read_mode(&mut bstream);

    // unexpected mode, clear the block (transparent black)
    if mode >= 8 {
        let zeros = [0u8; 16];
        let mut i: usize = 0;
        while i < 4
            invariant
                i <= 4,
                len == old(decompressed_block)@.len(),
                decompressed_block@.len() == len,
                block_extent(destination_pitch as nat, 4, 0, 4) <= len,
                zeros@ == Seq::new(16, |j: int| 0u8),
                decompressed_block@ == zero_rows_rgba8(
                    old(decompressed_block)@,
                    destination_pitch as nat,
                    i as nat,
                ),
            decreases 4 - i,
        {
            assert(i * destination_pitch <= 3 * destination_pitch) by (nonlinear_arith)
                requires
                    i < 4,
            ;
            let index = i * destination_pitch;
            put_values(decompressed_block, index, &zeros);
            i = i + 1;
        }
        return;
    }
    let h = bc7_read_header(&mut bstream, mode);
    let ep = bc7_read_endpoints(&mut bstream, h);

    // Quite inconvenient that indices aren't interleaved so we have to make 2 passes here
    // Pass #1: collecting color indices
    let indices = bc7_read_indices(&mut bstream, h);

    // Pass #2: reading alpha indices (if any) and interpolating & rotating
    let mut k: usize = 0;
    while k < 16
        invariant
            k <= 16,
            bstream.wf(),
            bstream.block@ == v,
            v == block128(compressed_block@),
            bc7_mode(v) < 8,
            h == bc7_header(v),
            h.mode < 8,
            1 <= h.num_partitions <= 3,
            h.partition < 64,
            h.rotation < 4,
            h.index_selection_bit < 2,
            bstream.pos@ == bc7_index2_pos(h, k as nat),
            bc7_endpoints_decoded(ep@, v, h),
            forall|k2: int|
                0 <= k2 < 16 ==> #[trigger] indices[k2] == field(v, bc7_index_pos(h, k2 as nat), bc7_index_bits(h, k2)),
            forall|k2: int| 0 <= k2 < 16 ==> (#[trigger] indices[k2] as nat) < pow2(bc7_base_index_bits(h.mode)),
            len == old(decompressed_block)@.len(),
            decompressed_block@.len() == len,
            block_extent(destination_pitch as nat, 4, 0, 4) <= len,
            decompressed_block@ == paint(
                old(decompressed_block)@,
                destination_pitch as nat,
                4,
                0,
                bc7_texels(v),
                k as nat,
            ),
        decreases 16 - k,
    {
        let texel = bc7_decode_texel(&mut bstream, h, &ep, &indices, k);
        let start = texel_index(k, destination_pitch, 4, 0, 4, len);
        assert(texel@ =~= bc7_texels(v)[k as int]);
        put_values(decompressed_block, start, &texel);
        k = k + 1;
    }
}


} // verus!
