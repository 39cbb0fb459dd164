//! Decoders for single 4x4 blocks of the BC1 to BC5 formats.
//!
//! Each decoder writes the 16 texels of a block in row-major order into an output
//! buffer where row `i` of the block starts at `i * destination_pitch`.
//! The contracts describe the output buffer after the call as the input buffer
//! with each texel written in turn, so they hold even when rows overlap.
use vstd::prelude::*;

verus! {

/// `s` with the elements starting at `start` replaced by `value`.
pub open spec fn splice<T>(s: Seq<T>, start: int, value: Seq<T>) -> Seq<T> {
    s.take(start) + value + s.skip(start + value.len())
}

/// The index of the first element of texel `k` of a 4x4 block, where block rows are
/// `pitch` elements apart, texels `stride` elements apart and `offset` selects the channel.
pub open spec fn texel_start(k: nat, pitch: nat, stride: nat, offset: nat) -> int {
    (k as int / 4) * pitch + (k as int % 4) * stride + offset
}

/// `s` after writing the first `n` of the `texels` of a block in order.
pub open spec fn paint<T>(
    s: Seq<T>,
    pitch: nat,
    stride: nat,
    offset: nat,
    texels: Seq<Seq<T>>,
    n: nat,
) -> Seq<T>
    decreases n,
{
    if n == 0 {
        s
    } else {
        let k = (n - 1) as nat;
        splice(
            paint(s, pitch, stride, offset, texels, k),
            texel_start(k, pitch, stride, offset),
            texels[k as int],
        )
    }
}

/// The buffer length needed to write `size` elements at texel positions of a block.
pub open spec fn block_extent(pitch: nat, stride: nat, offset: nat, size: nat) -> int {
    3 * pitch as int + 3 * stride as int + offset + size
}

/// The start of texel `k`, which lies within the block's extent.
pub fn texel_index(k: usize, pitch: usize, stride: usize, offset: usize, size: usize, len: usize) -> (r: usize)
    requires
        k < 16,
        block_extent(pitch as nat, stride as nat, offset as nat, size as nat) <= len,
    ensures
        r == texel_start(k as nat, pitch as nat, stride as nat, offset as nat),
        r + size <= len,
{
    proof {
        assert((k / 4) * pitch <= 3 * pitch) by (nonlinear_arith)
            requires
                k < 16,
        ;
        assert((k % 4) * stride <= 3 * stride) by (nonlinear_arith)
            requires
                k < 16,
        ;
    }
    (k / 4) * pitch + (k % 4) * stride + offset
}

/// Write the values `v` to `out` starting at `start`.
pub fn put_values<T: Copy>(out: &mut [T], start: usize, v: &[T])
    requires
        start + v@.len() <= old(out)@.len(),
    ensures
        final(out)@.len() == old(out)@.len(),
        final(out)@ == splice(old(out)@, start as int, v@),
{
    let n = v.len();
    let len = out.len();
    let mut i: usize = 0;
    while i < n
        invariant
            n == v@.len(),
            len == out@.len(),
            start + n <= out@.len(),
            out@.len() == old(out)@.len(),
            i <= n,
            forall|j: int| 0 <= j < start ==> out@[j] == old(out)@[j],
            forall|j: int| start + n <= j < out@.len() ==> out@[j] == old(out)@[j],
            forall|j: int| 0 <= j < i ==> out@[start + j] == #[trigger] v@[j],
            forall|j: int| start + i <= j < start + n ==> out@[j] == old(out)@[j],
        decreases n - i,
    {
        out[start + i] = v[i];
        i = i + 1;
    }
    assert(out@ =~= splice(old(out)@, start as int, v@));
}

/// A little endian `u16` read from `s` at `i`.
pub open spec fn le16(s: Seq<u8>, i: int) -> int {
    s[i] + s[i + 1] * 256
}

/// A 5 bit color channel expanded to 8 bits.
pub open spec fn expand5(x: int) -> int {
    (x * 527 + 23) / 64
}

/// A 6 bit color channel expanded to 8 bits.
pub open spec fn expand6(x: int) -> int {
    (x * 259 + 33) / 64
}

/// Expanding a 5 bit channel to 8 bits rounds `x * 255 / 31` to nearest, and expanding a
/// 6 bit channel rounds `x * 255 / 63` to nearest.
pub proof fn lemma_expand_nearest(x: int)
    requires
        0 <= x < 64,
    ensures
        x < 32 ==> 255 * x - 15 <= 31 * expand5(x) <= 255 * x + 15,
        255 * x - 31 <= 63 * expand6(x) <= 255 * x + 31,
{
    let y = x as u32;
    let e5 = ((y * 527 + 23) / 64) as u32;
    let e6 = ((y * 259 + 33) / 64) as u32;
    assert(y < 32 ==> (255 * y - 15 <= 31 * e5 && 31 * e5 <= 255 * y + 15)) by (bit_vector)
        requires
            y < 64,
            e5 == (y * 527 + 23) / 64,
    ;
    assert(255 * y <= 63 * e6 + 31 && 63 * e6 <= 255 * y + 31) by (bit_vector)
        requires
            y < 64,
            e6 == (y * 259 + 33) / 64,
    ;
}

/// An opaque RGBA8 texel.
pub open spec fn rgb_texel(r: int, g: int, b: int) -> Seq<u8> {
    seq![r as u8, g as u8, b as u8, 255u8]
}

/// The four reference colors of a BC1 color block.
/// In the opaque mode the last two colors lie at one and two thirds between the first two.
/// Otherwise the third color is their midpoint and the fourth is transparent black.
pub open spec fn bc1_palette(c: Seq<u8>, only_opaque_mode: bool) -> Seq<Seq<u8>> {
    let c0 = le16(c, 0);
    let c1 = le16(c, 2);
    let (r0, g0, b0) = (c0 / 2048, (c0 / 32) % 64, c0 % 32);
    let (r1, g1, b1) = (c1 / 2048, (c1 / 32) % 64, c1 % 32);
    let color0 = rgb_texel(expand5(r0), expand6(g0), expand5(b0));
    let color1 = rgb_texel(expand5(r1), expand6(g1), expand5(b1));
    if c0 > c1 || only_opaque_mode {
        seq![
            color0,
            color1,
            rgb_texel(
                ((2 * r0 + r1) * 351 + 61) / 128,
                ((2 * g0 + g1) * 2763 + 1039) / 2048,
                ((2 * b0 + b1) * 351 + 61) / 128,
            ),
            rgb_texel(
                ((r0 + r1 * 2) * 351 + 61) / 128,
                ((g0 + g1 * 2) * 2763 + 1039) / 2048,
                ((b0 + b1 * 2) * 351 + 61) / 128,
            ),
        ]
    } else {
        seq![
            color0,
            color1,
            rgb_texel(
                ((r0 + r1) * 1053 + 125) / 256,
                ((g0 + g1) * 4145 + 1019) / 2048,
                ((b0 + b1) * 1053 + 125) / 256,
            ),
            seq![0u8, 0u8, 0u8, 0u8],
        ]
    }
}

/// The blends of two 5 bit channels `a` and `b` lie at one and two thirds of the way from
/// the expansion of `a` to 8 bits to that of `b`, within one, and halfway, within one; the
/// blend nearer `a` never lies beyond the one nearer `b`.
proof fn lemma_blend5(a: int, b: int)
    requires
        0 <= a < 32,
        0 <= b < 32,
    ensures
        ({
            let t2 = ((2 * a + b) * 351 + 61) / 128;
            let t3 = ((a + b * 2) * 351 + 61) / 128;
            let m = ((a + b) * 1053 + 125) / 256;
            let ea = expand5(a);
            let eb = expand5(b);
            &&& 2 * ea + eb - 3 <= 3 * t2 <= 2 * ea + eb + 3
            &&& ea + 2 * eb - 3 <= 3 * t3 <= ea + 2 * eb + 3
            &&& ea + eb - 2 <= 2 * m <= ea + eb + 2
            &&& (b <= a ==> t3 <= t2) && (a <= b ==> t2 <= t3)
            &&& (a <= b <==> ea <= eb)
            &&& 0 <= ea <= 255 && 0 <= eb <= 255 && 0 <= t2 <= 255 && 0 <= t3 <= 255 && 0 <= m <= 255
        }),
{
    let n2 = (2 * a + b) * 351 + 61;
    let n3 = (a + b * 2) * 351 + 61;
    let nm = (a + b) * 1053 + 125;
    let na = a * 527 + 23;
    let nb = b * 527 + 23;
    lemma_floor(n2, 128);
    lemma_floor(n3, 128);
    lemma_floor(nm, 256);
    lemma_floor(na, 64);
    lemma_floor(nb, 64);
    let t2 = n2 / 128;
    let t3 = n3 / 128;
    let m = nm / 256;
    let ea = na / 64;
    let eb = nb / 64;
}

/// The blends of two 6 bit channels `a` and `b` lie at one and two thirds of the way from
/// the expansion of `a` to 8 bits to that of `b`, within one, and halfway, within one; the
/// blend nearer `a` never lies beyond the one nearer `b`.
proof fn lemma_blend6(a: int, b: int)
    requires
        0 <= a < 64,
        0 <= b < 64,
    ensures
        ({
            let t2 = ((2 * a + b) * 2763 + 1039) / 2048;
            let t3 = ((a + b * 2) * 2763 + 1039) / 2048;
            let m = ((a + b) * 4145 + 1019) / 2048;
            let ea = expand6(a);
            let eb = expand6(b);
            &&& 2 * ea + eb - 3 <= 3 * t2 <= 2 * ea + eb + 3
            &&& ea + 2 * eb - 3 <= 3 * t3 <= ea + 2 * eb + 3
            &&& ea + eb - 2 <= 2 * m <= ea + eb + 2
            &&& (b <= a ==> t3 <= t2) && (a <= b ==> t2 <= t3)
            &&& (a <= b <==> ea <= eb)
            &&& 0 <= ea <= 255 && 0 <= eb <= 255 && 0 <= t2 <= 255 && 0 <= t3 <= 255 && 0 <= m <= 255
        }),
{
    let n2 = (2 * a + b) * 2763 + 1039;
    let n3 = (a + b * 2) * 2763 + 1039;
    let nm = (a + b) * 4145 + 1019;
    let na = a * 259 + 33;
    let nb = b * 259 + 33;
    lemma_floor(n2, 2048);
    lemma_floor(n3, 2048);
    lemma_floor(nm, 2048);
    lemma_floor(na, 64);
    lemma_floor(nb, 64);
    let t2 = n2 / 2048;
    let t3 = n3 / 2048;
    let m = nm / 2048;
    let ea = na / 64;
    let eb = nb / 64;
}

/// Division by `d` rounds down.
proof fn lemma_floor(n: int, d: int)
    requires
        0 <= n,
        0 < d,
    ensures
        d * (n / d) <= n < d * (n / d) + d,
{
    vstd::arithmetic::div_mod::lemma_fundamental_div_mod(n, d);
    vstd::arithmetic::div_mod::lemma_mod_bound(n, d);
}

/// The reference colors of a BC1 block start with its two endpoint colors, each 5:6:5
/// channel expanded to 8 bits. In the opaque mode the third and fourth lie, in each of
/// red, green and blue, at one and two thirds of the way from the first to the second,
/// within one; otherwise the third lies halfway between them, within one, and the fourth is
/// transparent black. The colors other than that one are opaque.
pub proof fn lemma_bc1_palette_blends(c: Seq<u8>, only_opaque_mode: bool, ch: int)
    requires
        c.len() >= 4,
        0 <= ch < 3,
    ensures
        ({
            let p = bc1_palette(c, only_opaque_mode);
            let c0 = le16(c, 0);
            let c1 = le16(c, 2);
            let e0 = p[0][ch] as int;
            let e1 = p[1][ch] as int;
            &&& p.len() == 4
            &&& p[0] == rgb_texel(expand5(c0 / 2048), expand6((c0 / 32) % 64), expand5(c0 % 32))
            &&& p[1] == rgb_texel(expand5(c1 / 2048), expand6((c1 / 32) % 64), expand5(c1 % 32))
            &&& p[0][3] == 255 && p[1][3] == 255 && p[2][3] == 255
            &&& (c0 > c1 || only_opaque_mode) ==> {
                &&& 2 * e0 + e1 - 3 <= 3 * p[2][ch] <= 2 * e0 + e1 + 3
                &&& e0 + 2 * e1 - 3 <= 3 * p[3][ch] <= e0 + 2 * e1 + 3
                &&& (e1 <= e0 ==> p[3][ch] <= p[2][ch]) && (e0 <= e1 ==> p[2][ch] <= p[3][ch])
                &&& p[3][3] == 255
            }
            &&& !(c0 > c1 || only_opaque_mode) ==> {
                &&& e0 + e1 - 2 <= 2 * p[2][ch] <= e0 + e1 + 2
                &&& p[3] == seq![0u8, 0u8, 0u8, 0u8]
            }
        }),
{
    let c0 = le16(c, 0);
    let c1 = le16(c, 2);
    assert(0 <= c0 < 65536 && 0 <= c1 < 65536);
    let (r0, g0, b0) = (c0 / 2048, (c0 / 32) % 64, c0 % 32);
    let (r1, g1, b1) = (c1 / 2048, (c1 / 32) % 64, c1 % 32);
    assert(0 <= r0 < 32 && 0 <= r1 < 32 && 0 <= g0 < 64 && 0 <= g1 < 64 && 0 <= b0 < 32 && 0 <= b1 < 32);
    lemma_blend5(r0, r1);
    lemma_blend6(g0, g1);
    lemma_blend5(b0, b1);
}

/// The 2 bit palette index of texel `k` of a BC1 color block.
pub open spec fn bc1_index(c: Seq<u8>, k: nat) -> int {
    ((c[4 + k as int / 4] >> (2 * (k % 4)) as u8) & 3u8) as int
}

/// The 16 RGBA8 texels of the BC1 color block at the start of `c`.
pub open spec fn bc1_texels(c: Seq<u8>, only_opaque_mode: bool) -> Seq<Seq<u8>> {
    Seq::new(16, |k: int| bc1_palette(c, only_opaque_mode)[bc1_index(c, k as nat)])
}

fn expand_color(c: u32) -> (r: [u8; 4])
    requires
        c < 65536,
    ensures
        r@ == rgb_texel(
            expand5(c as int / 2048),
            expand6((c as int / 32) % 64),
            expand5(c as int % 32),
        ),
{
    let r = (c >> 11) & 0x1F;
    let g = (c >> 5) & 0x3F;
    let b = c & 0x1F;
    assert(r == c / 2048 && g == (c / 32) % 64 && b == c % 32 && r < 32 && g < 64 && b < 32)
        by (bit_vector)
        requires
            c < 65536,
            r == (c >> 11) & 0x1F,
            g == (c >> 5) & 0x3F,
            b == c & 0x1F,
    ;
    let out = [((r * 527 + 23) / 64) as u8, ((g * 259 + 33) / 64) as u8, ((b * 527 + 23) / 64) as u8, 255u8];
    assert(out@ =~= rgb_texel(expand5(r as int), expand6(g as int), expand5(b as int)));
    out
}

/// Decode the BC1 color block in the first 8 bytes of `compressed_block`.
fn color_block(
    compressed_block: &[u8],
    decompressed_block: &mut [u8],
    destination_pitch: usize,
    only_opaque_mode: bool,
)
    requires
        compressed_block@.len() >= 8,
        block_extent(destination_pitch as nat, 4, 0, 4) <= old(decompressed_block)@.len(),
    ensures
        final(decompressed_block)@.len() == old(decompressed_block)@.len(),
        final(decompressed_block)@ == paint(
            old(decompressed_block)@,
            destination_pitch as nat,
            4,
            0,
            bc1_texels(compressed_block@, only_opaque_mode),
            16,
        ),
{
    let ghost c = compressed_block@;
    let c0 = compressed_block[0] as u32 + compressed_block[1] as u32 * 256;
    let c1 = compressed_block[2] as u32 + compressed_block[3] as u32 * 256;

    // Unpack 565 ref colors
    let r0 = (c0 >> 11) & 0x1F;
    let g0 = (c0 >> 5) & 0x3F;
    let b0 = c0 & 0x1F;
    let r1 = (c1 >> 11) & 0x1F;
    let g1 = (c1 >> 5) & 0x3F;
    let b1 = c1 & 0x1F;
    assert(r0 == c0 / 2048 && g0 == (c0 / 32) % 64 && b0 == c0 % 32 && r0 < 32 && g0 < 64 && b0 < 32)
        by (bit_vector)
        requires
            c0 < 65536,
            r0 == (c0 >> 11) & 0x1F,
            g0 == (c0 >> 5) & 0x3F,
            b0 == c0 & 0x1F,
    ;
    assert(r1 == c1 / 2048 && g1 == (c1 / 32) % 64 && b1 == c1 % 32 && r1 < 32 && g1 < 64 && b1 < 32)
        by (bit_vector)
        requires
            c1 < 65536,
            r1 == (c1 >> 11) & 0x1F,
            g1 == (c1 >> 5) & 0x3F,
            b1 == c1 & 0x1F,
    ;

    // Expand 565 ref colors to 888
    let color0 = expand_color(c0);
    let color1 = expand_color(c1);
    let color2: [u8; 4];
    let color3: [u8; 4];
    if c0 > c1 || only_opaque_mode {
        // Standard BC1 mode (also BC3 color block uses ONLY this mode)
        // color_2 = 2/3*color_0 + 1/3*color_1
        // color_3 = 1/3*color_0 + 2/3*color_1
        color2 = [
            (((2 * r0 + r1) * 351 + 61) / 128) as u8,
            (((2 * g0 + g1) * 2763 + 1039) / 2048) as u8,
            (((2 * b0 + b1) * 351 + 61) / 128) as u8,
            255u8,
        ];
        color3 = [
            (((r0 + r1 * 2) * 351 + 61) / 128) as u8,
            (((g0 + g1 * 2) * 2763 + 1039) / 2048) as u8,
            (((b0 + b1 * 2) * 351 + 61) / 128) as u8,
            255u8,
        ];
    } else {
        // Quite rare BC1A mode
        // color_2 = 1/2*color_0 + 1/2*color_1;
        // color_3 = 0;
        color2 = [
            (((r0 + r1) * 1053 + 125) / 256) as u8,
            (((g0 + g1) * 4145 + 1019) / 2048) as u8,
            (((b0 + b1) * 1053 + 125) / 256) as u8,
            255u8,
        ];
        color3 = [0u8; 4];
    }
    let ref_colors = [color0, color1, color2, color3];
    let ghost palette = bc1_palette(c, only_opaque_mode);
    assert(color0@ == palette[0] && color1@ == palette[1]);
    assert(color2@ =~= palette[2]);
    assert(color3@ =~= palette[3]);

    // Fill out the decompressed color block
    let len = decompressed_block.len();
    let mut k: usize = 0;
    while k < 16
        invariant
            k <= 16,
            c == compressed_block@,
            c.len() >= 8,
            len == old(decompressed_block)@.len(),
            decompressed_block@.len() == len,
            block_extent(destination_pitch as nat, 4, 0, 4) <= len,
            palette == bc1_palette(c, only_opaque_mode),
            forall|m: int| 0 <= m < 4 ==> (#[trigger] ref_colors[m])@ == palette[m],
            decompressed_block@ == paint(
                old(decompressed_block)@,
                destination_pitch as nat,
                4,
                0,
                bc1_texels(c, only_opaque_mode),
                k as nat,
            ),
        decreases 16 - k,
    {
        let byte = compressed_block[4 + k / 4];
        let idx = (byte >> (2 * (k % 4)) as u8) & 3;
        assert(idx < 4) by (bit_vector)
            requires
                idx == (byte >> (2 * (k % 4)) as u8) & 3u8,
        ;
        let start = texel_index(k, destination_pitch, 4, 0, 4, len);
        put_values(decompressed_block, start, &ref_colors[idx as usize]);
        assert(bc1_texels(c, only_opaque_mode)[k as int] == palette[idx as int]);
        k = k + 1;
    }
}


/// The alpha of texel `k` of a BC2 alpha block: a 4 bit value expanded to 8 bits.
pub open spec fn sharp_alpha(c: Seq<u8>, k: int) -> u8 {
    (((c[k / 2] >> (4 * (k % 2)) as u8) & 15u8) * 17) as u8
}

/// The explicit alpha of texel `k` of a BC2 block is its 4 bit value scaled to 8 bits: the
/// low half of byte `k / 2` for even `k` and the high half for odd `k`, times 255 / 15.
pub proof fn lemma_sharp_alpha_scales(c: Seq<u8>, k: int)
    requires
        0 <= k < 16,
        c.len() >= 8,
    ensures
        sharp_alpha(c, k) as int * 15 == 255 * (if k % 2 == 0 { c[k / 2] % 16 } else { c[k / 2] / 16 }),
{
    let b = c[k / 2];
    assert((b >> 0u8) & 15u8 == b % 16 && (b >> 4u8) & 15u8 == b / 16 && ((b >> 0u8) & 15u8) < 16 && ((b >> 4u8)
        & 15u8) < 16) by (bit_vector);
    assert((4 * (k % 2)) as u8 == if k % 2 == 0 { 0u8 } else { 4u8 });
}

/// The 16 alpha values of the BC2 alpha block at the start of `c`.
pub open spec fn sharp_alpha_texels(c: Seq<u8>) -> Seq<Seq<u8>> {
    Seq::new(16, |k: int| seq![sharp_alpha(c, k)])
}

/// Decode the explicit 4 bit alpha values of a BC2 block into every fourth byte.
fn sharp_alpha_block(compressed_block: &[u8], decompressed_block: &mut [u8], destination_pitch: usize)
    requires
        compressed_block@.len() >= 8,
        block_extent(destination_pitch as nat, 4, 3, 1) <= old(decompressed_block)@.len(),
    ensures
        final(decompressed_block)@.len() == old(decompressed_block)@.len(),
        final(decompressed_block)@ == paint(
            old(decompressed_block)@,
            destination_pitch as nat,
            4,
            3,
            sharp_alpha_texels(compressed_block@),
            16,
        ),
{
    let len = decompressed_block.len();
    let mut k: usize = 0;
    while k < 16
        invariant
            k <= 16,
            compressed_block@.len() >= 8,
            len == old(decompressed_block)@.len(),
            decompressed_block@.len() == len,
            block_extent(destination_pitch as nat, 4, 3, 1) <= len,
            decompressed_block@ == paint(
                old(decompressed_block)@,
                destination_pitch as nat,
                4,
                3,
                sharp_alpha_texels(compressed_block@),
                k as nat,
            ),
        decreases 16 - k,
    {
        // Each byte holds the 4 bit alpha of two horizontally adjacent texels.
        let byte = compressed_block[k / 2];
        let nibble = (byte >> (4 * (k % 2)) as u8) & 0x0F;
        assert(nibble < 16) by (bit_vector)
            requires
                nibble == (byte >> (4 * (k % 2)) as u8) & 15u8,
        ;
        let alpha = nibble * 17;
        let index = texel_index(k, destination_pitch, 4, 3, 1, len);
        put_values(decompressed_block, index, &[alpha]);
        assert(seq![alpha] =~= sharp_alpha_texels(compressed_block@)[k as int]);
        k = k + 1;
    }
}

/// The eight alpha values of a BC3 alpha block with endpoints `a0` and `a1`.
/// With `a0 > a1` six values are interpolated between them,
/// otherwise four values are interpolated and the last two are 0 and 255.
pub open spec fn alpha_palette(a0: int, a1: int) -> Seq<int> {
    if a0 > a1 {
        seq![
            a0,
            a1,
            (6 * a0 + a1 + 1) / 7,
            (5 * a0 + 2 * a1 + 1) / 7,
            (4 * a0 + 3 * a1 + 1) / 7,
            (3 * a0 + 4 * a1 + 1) / 7,
            (2 * a0 + 5 * a1 + 1) / 7,
            (a0 + 6 * a1 + 1) / 7,
        ]
    } else {
        seq![
            a0,
            a1,
            (4 * a0 + a1 + 1) / 5,
            (3 * a0 + 2 * a1 + 1) / 5,
            (2 * a0 + 3 * a1 + 1) / 5,
            (a0 + 4 * a1 + 1) / 5,
            0,
            255,
        ]
    }
}

/// The alpha palette starts with its two endpoints. With `a0 > a1` its other six values run
/// down from `a0` to `a1` in sevenths: value `k` is `((8 - k) * a0 + (k - 1) * a1) / 7`
/// rounded to nearest. Otherwise four values run up from `a0` to `a1` in fifths, rounded to
/// nearest, and the last two are 0 and 255.
pub proof fn lemma_alpha_palette_steps(a0: int, a1: int)
    requires
        0 <= a0 <= 255,
        0 <= a1 <= 255,
    ensures
        alpha_palette(a0, a1).len() == 8,
        alpha_palette(a0, a1)[0] == a0,
        alpha_palette(a0, a1)[1] == a1,
        a0 > a1 ==> forall|k: int|
            2 <= k <= 7 ==> {
                let n = (8 - k) * a0 + (k - 1) * a1;
                &&& n - 5 <= 7 * #[trigger] alpha_palette(a0, a1)[k] <= n + 1
                &&& a1 <= alpha_palette(a0, a1)[k] <= a0
                &&& k < 7 ==> alpha_palette(a0, a1)[k + 1] <= alpha_palette(a0, a1)[k]
            },
        a0 <= a1 ==> forall|k: int|
            2 <= k <= 5 ==> {
                let n = (6 - k) * a0 + (k - 1) * a1;
                &&& n - 3 <= 5 * #[trigger] alpha_palette(a0, a1)[k] <= n + 1
                &&& a0 <= alpha_palette(a0, a1)[k] <= a1
                &&& k < 5 ==> alpha_palette(a0, a1)[k] <= alpha_palette(a0, a1)[k + 1]
            },
        a0 <= a1 ==> alpha_palette(a0, a1)[6] == 0 && alpha_palette(a0, a1)[7] == 255,
{
    let p = alpha_palette(a0, a1);
    if a0 > a1 {
        assert forall|k: int|
            2 <= k <= 7 implies {
                let n = (8 - k) * a0 + (k - 1) * a1;
                &&& n - 5 <= 7 * #[trigger] p[k] <= n + 1
                &&& a1 <= p[k] <= a0
                &&& k < 7 ==> p[k + 1] <= p[k]
            } by {
            let n = (8 - k) * a0 + (k - 1) * a1;
            let m = (7 - k) * a0 + k * a1;
            assert(p[2] == (6 * a0 + a1 + 1) / 7);
            assert(p[3] == (5 * a0 + 2 * a1 + 1) / 7);
            assert(p[4] == (4 * a0 + 3 * a1 + 1) / 7);
            assert(p[5] == (3 * a0 + 4 * a1 + 1) / 7);
            assert(p[6] == (2 * a0 + 5 * a1 + 1) / 7);
            assert(p[7] == (a0 + 6 * a1 + 1) / 7);
            assert(p[k] == (n + 1) / 7 && (k < 7 ==> p[k + 1] == (m + 1) / 7)) by {
                if k == 2 {
                    assert(n == 6 * a0 + 1 * a1 && m == 5 * a0 + 2 * a1) by (nonlinear_arith)
                        requires
                            k == 2,
                            n == (8 - k) * a0 + (k - 1) * a1,
                            m == (7 - k) * a0 + k * a1,
                    ;
                } else if k == 3 {
                    assert(n == 5 * a0 + 2 * a1 && m == 4 * a0 + 3 * a1) by (nonlinear_arith)
                        requires
                            k == 3,
                            n == (8 - k) * a0 + (k - 1) * a1,
                            m == (7 - k) * a0 + k * a1,
                    ;
                } else if k == 4 {
                    assert(n == 4 * a0 + 3 * a1 && m == 3 * a0 + 4 * a1) by (nonlinear_arith)
                        requires
                            k == 4,
                            n == (8 - k) * a0 + (k - 1) * a1,
                            m == (7 - k) * a0 + k * a1,
                    ;
                } else if k == 5 {
                    assert(n == 3 * a0 + 4 * a1 && m == 2 * a0 + 5 * a1) by (nonlinear_arith)
                        requires
                            k == 5,
                            n == (8 - k) * a0 + (k - 1) * a1,
                            m == (7 - k) * a0 + k * a1,
                    ;
                } else if k == 6 {
                    assert(n == 2 * a0 + 5 * a1 && m == 1 * a0 + 6 * a1) by (nonlinear_arith)
                        requires
                            k == 6,
                            n == (8 - k) * a0 + (k - 1) * a1,
                            m == (7 - k) * a0 + k * a1,
                    ;
                } else {
                    assert(n == 1 * a0 + 6 * a1 && m == 0 * a0 + 7 * a1) by (nonlinear_arith)
                        requires
                            k == 7,
                            n == (8 - k) * a0 + (k - 1) * a1,
                            m == (7 - k) * a0 + k * a1,
                    ;
                }
            }
            assert(n - 5 <= 7 * ((n + 1) / 7) <= n + 1);
            assert(7 * a1 + 1 <= n <= 7 * a0 - 1) by (nonlinear_arith)
                requires
                    2 <= k <= 7,
                    n == (8 - k) * a0 + (k - 1) * a1,
                    a1 + 1 <= a0,
            ;
            assert(m <= n) by (nonlinear_arith)
                requires
                    n == (8 - k) * a0 + (k - 1) * a1,
                    m == (7 - k) * a0 + k * a1,
                    a1 <= a0,
            ;
            vstd::arithmetic::div_mod::lemma_div_is_ordered(m + 1, n + 1, 7);
        }
    } else {
        assert forall|k: int|
            2 <= k <= 5 implies {
                let n = (6 - k) * a0 + (k - 1) * a1;
                &&& n - 3 <= 5 * #[trigger] p[k] <= n + 1
                &&& a0 <= p[k] <= a1
                &&& k < 5 ==> p[k] <= p[k + 1]
            } by {
            let n = (6 - k) * a0 + (k - 1) * a1;
            let m = (5 - k) * a0 + k * a1;
            assert(p[2] == (4 * a0 + a1 + 1) / 5);
            assert(p[3] == (3 * a0 + 2 * a1 + 1) / 5);
            assert(p[4] == (2 * a0 + 3 * a1 + 1) / 5);
            assert(p[5] == (a0 + 4 * a1 + 1) / 5);
            assert(p[k] == (n + 1) / 5 && (k < 5 ==> p[k + 1] == (m + 1) / 5)) by {
                if k == 2 {
                    assert(n == 4 * a0 + 1 * a1 && m == 3 * a0 + 2 * a1) by (nonlinear_arith)
                        requires
                            k == 2,
                            n == (6 - k) * a0 + (k - 1) * a1,
                            m == (5 - k) * a0 + k * a1,
                    ;
                } else if k == 3 {
                    assert(n == 3 * a0 + 2 * a1 && m == 2 * a0 + 3 * a1) by (nonlinear_arith)
                        requires
                            k == 3,
                            n == (6 - k) * a0 + (k - 1) * a1,
                            m == (5 - k) * a0 + k * a1,
                    ;
                } else if k == 4 {
                    assert(n == 2 * a0 + 3 * a1 && m == 1 * a0 + 4 * a1) by (nonlinear_arith)
                        requires
                            k == 4,
                            n == (6 - k) * a0 + (k - 1) * a1,
                            m == (5 - k) * a0 + k * a1,
                    ;
                } else {
                    assert(n == 1 * a0 + 4 * a1 && m == 0 * a0 + 5 * a1) by (nonlinear_arith)
                        requires
                            k == 5,
                            n == (6 - k) * a0 + (k - 1) * a1,
                            m == (5 - k) * a0 + k * a1,
                    ;
                }
            }
            assert(n - 3 <= 5 * ((n + 1) / 5) <= n + 1);
            assert(5 * a0 <= n <= 5 * a1) by (nonlinear_arith)
                requires
                    2 <= k <= 5,
                    n == (6 - k) * a0 + (k - 1) * a1,
                    a0 <= a1,
            ;
            assert(n <= m) by (nonlinear_arith)
                requires
                    n == (6 - k) * a0 + (k - 1) * a1,
                    m == (5 - k) * a0 + k * a1,
                    a0 <= a1,
            ;
            vstd::arithmetic::div_mod::lemma_div_is_ordered(n + 1, m + 1, 5);
        }
    }
}

/// The first 8 bytes of `c` as a little endian `u64`.
pub open spec fn le64(c: Seq<u8>) -> u64 {
    (c[0] as u64) | ((c[1] as u64) << 8u64) | ((c[2] as u64) << 16u64) | ((c[3] as u64) << 24u64)
        | ((c[4] as u64) << 32u64) | ((c[5] as u64) << 40u64) | ((c[6] as u64) << 48u64) | ((
    c[7] as u64) << 56u64)
}

/// The 3 bit palette index of texel `k` of a BC3 alpha block, stored after the two endpoints.
pub open spec fn alpha_index(c: Seq<u8>, k: int) -> int {
    (((le64(c) >> 16u64) >> (3 * k) as u64) & 7u64) as int
}

/// The 16 values of the BC3/BC4 alpha block at the start of `c`.
pub open spec fn smooth_alpha_texels(c: Seq<u8>) -> Seq<Seq<u8>> {
    Seq::new(16, |k: int| seq![alpha_palette(c[0] as int, c[1] as int)[alpha_index(c, k)] as u8])
}

pub(crate) fn read_u64_le(c: &[u8]) -> (r: u64)
    requires
        c@.len() >= 8,
    ensures
        r == le64(c@),
{
    (c[0] as u64) | ((c[1] as u64) << 8u64) | ((c[2] as u64) << 16u64) | ((c[3] as u64) << 24u64)
        | ((c[4] as u64) << 32u64) | ((c[5] as u64) << 40u64) | ((c[6] as u64) << 48u64) | ((
    c[7] as u64) << 56u64)
}

/// Decode an interpolated alpha block into every `pixel_size`-th byte starting at `offset`.
pub(crate) fn smooth_alpha_block(
    compressed_block: &[u8],
    decompressed_block: &mut [u8],
    offset: usize,
    destination_pitch: usize,
    pixel_size: usize,
)
    requires
        compressed_block@.len() >= 8,
        block_extent(destination_pitch as nat, pixel_size as nat, offset as nat, 1) <= old(
            decompressed_block,
        )@.len(),
    ensures
        final(decompressed_block)@.len() == old(decompressed_block)@.len(),
        final(decompressed_block)@ == paint(
            old(decompressed_block)@,
            destination_pitch as nat,
            pixel_size as nat,
            offset as nat,
            smooth_alpha_texels(compressed_block@),
            16,
        ),
{
    let a0 = compressed_block[0] as u32;
    let a1 = compressed_block[1] as u32;
    let alpha: [u32; 8] = if a0 > a1 {
        // 6 interpolated alpha values.
        [
            a0,
            a1,
            (6 * a0 + a1 + 1) / 7,
            (5 * a0 + 2 * a1 + 1) / 7,
            (4 * a0 + 3 * a1 + 1) / 7,
            (3 * a0 + 4 * a1 + 1) / 7,
            (2 * a0 + 5 * a1 + 1) / 7,
            (a0 + 6 * a1 + 1) / 7,
        ]
    } else {
        // 4 interpolated alpha values.
        [
            a0,
            a1,
            (4 * a0 + a1 + 1) / 5,
            (3 * a0 + 2 * a1 + 1) / 5,
            (2 * a0 + 3 * a1 + 1) / 5,
            (a0 + 4 * a1 + 1) / 5,
            0x00,
            0xFF,
        ]
    };
    let ghost palette = alpha_palette(a0 as int, a1 as int);
    assert(forall|m: int| 0 <= m < 8 ==> alpha[m] == #[trigger] palette[m] && alpha[m] < 256);

    let block = read_u64_le(compressed_block);
    let indices = block >> 16;
    let len = decompressed_block.len();
    let mut k: usize = 0;
    while k < 16
        invariant
            k <= 16,
            compressed_block@.len() >= 8,
            indices == le64(compressed_block@) >> 16u64,
            palette == alpha_palette(compressed_block@[0] as int, compressed_block@[1] as int),
            forall|m: int| 0 <= m < 8 ==> alpha[m] == #[trigger] palette[m] && alpha[m] < 256,
            len == old(decompressed_block)@.len(),
            decompressed_block@.len() == len,
            block_extent(destination_pitch as nat, pixel_size as nat, offset as nat, 1) <= len,
            decompressed_block@ == paint(
                old(decompressed_block)@,
                destination_pitch as nat,
                pixel_size as nat,
                offset as nat,
                smooth_alpha_texels(compressed_block@),
                k as nat,
            ),
        decreases 16 - k,
    {
        let idx = (indices >> (3 * k) as u64) & 7;
        assert(idx < 8) by (bit_vector)
            requires
                idx == (indices >> (3 * k) as u64) & 7u64,
        ;
        let value = alpha[idx as usize] as u8;
        let index = texel_index(k, destination_pitch, pixel_size, offset, 1, len);
        put_values(decompressed_block, index, &[value]);
        assert(seq![value] =~= smooth_alpha_texels(compressed_block@)[k as int]);
        k = k + 1;
    }
}

/// Decode 8 bytes from `compressed_block` to RGBA8
/// with `destination_pitch` many bytes per output row.
pub fn bc1(compressed_block: &[u8], decompressed_block: &mut [u8], destination_pitch: usize)
    requires
        compressed_block@.len() >= 8,
        block_extent(destination_pitch as nat, 4, 0, 4) <= old(decompressed_block)@.len(),
    ensures
        final(decompressed_block)@.len() == old(decompressed_block)@.len(),
        final(decompressed_block)@ == paint(
            old(decompressed_block)@,
            destination_pitch as nat,
            4,
            0,
            bc1_texels(compressed_block@, false),
            16,
        ),
{
    color_block(compressed_block, decompressed_block, destination_pitch, false)
}

/// Decode 16 bytes from `compressed_block` to RGBA8
/// with `destination_pitch` many bytes per output row.
pub fn bc2(compressed_block: &[u8], decompressed_block: &mut [u8], destination_pitch: usize)
    requires
        compressed_block@.len() >= 16,
        block_extent(destination_pitch as nat, 4, 0, 4) <= old(decompressed_block)@.len(),
    ensures
        final(decompressed_block)@.len() == old(decompressed_block)@.len(),
        final(decompressed_block)@ == paint(
            paint(
                old(decompressed_block)@,
                destination_pitch as nat,
                4,
                0,
                bc1_texels(compressed_block@.subrange(8, 16), true),
                16,
            ),
            destination_pitch as nat,
            4,
            3,
            sharp_alpha_texels(compressed_block@),
            16,
        ),
{
    color_block(&compressed_block[8..16], decompressed_block, destination_pitch, true);
    sharp_alpha_block(compressed_block, decompressed_block, destination_pitch);
}

/// Decode 16 bytes from `compressed_block` to RGBA8
/// with `destination_pitch` many bytes per output row.
pub fn bc3(compressed_block: &[u8], decompressed_block: &mut [u8], destination_pitch: usize)
    requires
        compressed_block@.len() >= 16,
        block_extent(destination_pitch as nat, 4, 0, 4) <= old(decompressed_block)@.len(),
    ensures
        final(decompressed_block)@.len() == old(decompressed_block)@.len(),
        final(decompressed_block)@ == paint(
            paint(
                old(decompressed_block)@,
                destination_pitch as nat,
                4,
                0,
                bc1_texels(compressed_block@.subrange(8, 16), true),
                16,
            ),
            destination_pitch as nat,
            4,
            3,
            smooth_alpha_texels(compressed_block@),
            16,
        ),
{
    color_block(&compressed_block[8..16], decompressed_block, destination_pitch, true);
    smooth_alpha_block(compressed_block, decompressed_block, 3, destination_pitch, 4);
}

} // verus!
