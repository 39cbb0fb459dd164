//! Padding of RGBA8 mipmaps to whole blocks and generation of smaller mipmaps.
//!
//! A mipmap is generated by averaging each 2x2x2 region of the previous level, with the
//! channels taken as single-precision values in `[0, 1]`. The average is computed exactly
//! as single-precision arithmetic computes it: the channel values summed in order, divided
//! by their count and scaled back by 255, each step rounded to nearest, and the result
//! truncated.
use vstd::prelude::*;
use vstd::arithmetic::power2::pow2;
use crate::floatbits::{unorm8_f32_significand, unorm8_shift};
use crate::layout::div_ceil;
use crate::rounding::{rne24, rne24_ratio, spec_rne24, spec_rne24_ratio};

verus! {

/// `x` rounded up to a multiple of `b`.
pub open spec fn round_up(x: nat, b: nat) -> nat {
    div_ceil(x, b) * b
}

/// The dimensions of a `width` x `height` x `depth` mipmap padded to whole blocks.
pub open spec fn spec_physical_dimensions(
    width: u32,
    height: u32,
    depth: u32,
    block_dimensions: (u32, u32, u32),
) -> (usize, usize, usize) {
    (
        round_up(width as nat, block_dimensions.0 as nat) as usize,
        round_up(height as nat, block_dimensions.1 as nat) as usize,
        round_up(depth as nat, block_dimensions.2 as nat) as usize,
    )
}

/// Whether the padded dimensions fit in `u32`.
pub open spec fn physical_dimensions_fit(
    width: u32,
    height: u32,
    depth: u32,
    block_dimensions: (u32, u32, u32),
) -> bool {
    &&& block_dimensions.0 > 0 && block_dimensions.1 > 0 && block_dimensions.2 > 0
    &&& round_up(width as nat, block_dimensions.0 as nat) <= u32::MAX
    &&& round_up(height as nat, block_dimensions.1 as nat) <= u32::MAX
    &&& round_up(depth as nat, block_dimensions.2 as nat) <= u32::MAX
}

fn next_multiple_of(x: u32, b: u32) -> (r: u32)
    requires
        b > 0,
        round_up(x as nat, b as nat) <= u32::MAX,
    ensures
        r == round_up(x as nat, b as nat),
{
    let q = x / b;
    if x % b == 0 {
        proof {
            vstd::arithmetic::div_mod::lemma_fundamental_div_mod(x as int, b as int);
        }
        x
    } else {
        assert((q + 1) * b == round_up(x as nat, b as nat));
        assert((q + 1) * b == q * b + b) by (nonlinear_arith);
        proof {
            vstd::arithmetic::div_mod::lemma_fundamental_div_mod(x as int, b as int);
        }
        x - x % b + b
    }
}

/// The dimensions of a mipmap padded to whole blocks.
///
/// The physical size must have integral dimensions in blocks. Applications or the GPU use
/// the smaller virtual size and ignore the padding. For example, a 1x1 BCN mipmap still
/// requires 4x4 pixels of data.
pub fn physical_dimensions(
    width: u32,
    height: u32,
    depth: u32,
    block_dimensions: (u32, u32, u32),
) -> (r: (usize, usize, usize))
    requires
        physical_dimensions_fit(width, height, depth, block_dimensions),
    ensures
        r == spec_physical_dimensions(width, height, depth, block_dimensions),
{
    let (block_width, block_height, block_depth) = block_dimensions;
    (
        next_multiple_of(width, block_width) as usize,
        next_multiple_of(height, block_height) as usize,
        next_multiple_of(depth, block_depth) as usize,
    )
}

/// The index of channel `c` of the pixel at `(x, y, z)` of a `width` x `height` RGBA volume.
pub open spec fn voxel_index(width: int, height: int, x: int, y: int, z: int, c: int) -> int {
    ((z * width * height) + y * width + x) * 4 + c
}

/// The coordinates `(x, y, z, c)` of index `i` of a `width` x `height` RGBA volume.
pub open spec fn index_voxel(width: int, height: int, i: int) -> (int, int, int, int) {
    let p = i / 4;
    (p % width, (p / width) % height, p / (width * height), i % 4)
}

/// Channel `c` of the pixel at `(x, y, z)`, with 0 outside a `width` x `height` x `depth`
/// volume `data`.
pub open spec fn padded_channel(
    data: Seq<u8>,
    width: int,
    height: int,
    depth: int,
    x: int,
    y: int,
    z: int,
    c: int,
) -> u8 {
    if x < width && y < height && z < depth {
        data[voxel_index(width, height, x, y, z, c)]
    } else {
        0
    }
}

/// The `width` x `height` x `depth` RGBA volume `data` zero padded to `new_width` x
/// `new_height` x `new_depth`.
pub open spec fn padded(
    data: Seq<u8>,
    width: nat,
    height: nat,
    depth: nat,
    new_width: nat,
    new_height: nat,
    new_depth: nat,
) -> Seq<u8> {
    Seq::new(
        new_width * new_height * new_depth * 4,
        |i: int|
            {
                let (x, y, z, c) = index_voxel(new_width as int, new_height as int, i);
                padded_channel(data, width as int, height as int, depth as int, x, y, z, c)
            },
    )
}

/// The coordinates of an index of a volume lie in the volume, and a point of a volume has an
/// index in it.
pub proof fn lemma_index_voxel(width: int, height: int, depth: int, i: int)
    requires
        width > 0,
        height > 0,
        0 <= i < width * height * depth * 4,
    ensures
        ({
            let (x, y, z, c) = index_voxel(width, height, i);
            &&& 0 <= x < width
            &&& 0 <= y < height
            &&& 0 <= z < depth
            &&& 0 <= c < 4
            &&& i == voxel_index(width, height, x, y, z, c)
        }),
{
    let p = i / 4;
    let wh = width * height;
    assert(width * height > 0) by (nonlinear_arith)
        requires
            width > 0,
            height > 0,
    ;
    vstd::arithmetic::div_mod::lemma_fundamental_div_mod(i, 4);
    vstd::arithmetic::div_mod::lemma_mod_bound(i, 4);
    vstd::arithmetic::div_mod::lemma_fundamental_div_mod(p, width);
    vstd::arithmetic::div_mod::lemma_mod_bound(p, width);
    vstd::arithmetic::div_mod::lemma_fundamental_div_mod(p / width, height);
    vstd::arithmetic::div_mod::lemma_mod_bound(p / width, height);
    vstd::arithmetic::div_mod::lemma_div_denominator(p, width, height);
    assert(p < wh * depth) by (nonlinear_arith)
        requires
            0 <= i < width * height * depth * 4,
            p == i / 4,
            wh == width * height,
    ;
    assert(p / wh < depth) by (nonlinear_arith)
        requires
            0 <= p < wh * depth,
            wh > 0,
    ;
    assert(p >= 0 && p / width >= 0);
    assert(i == ((p / wh * width * height) + ((p / width) % height) * width + p % width) * 4 + i % 4)
        by (nonlinear_arith)
        requires
            i == 4 * p + i % 4,
            p == width * (p / width) + p % width,
            p / width == height * ((p / width) / height) + (p / width) % height,
            (p / width) / height == p / wh,
            wh == width * height,
    ;
}

/// A point inside a volume has an index inside its data.
pub proof fn lemma_voxel_index_bound(width: int, height: int, depth: int, x: int, y: int, z: int, c: int)
    requires
        0 <= x < width,
        0 <= y < height,
        0 <= z < depth,
        0 <= c < 4,
    ensures
        0 <= voxel_index(width, height, x, y, z, c) < width * height * depth * 4,
{
    assert(0 <= voxel_index(width, height, x, y, z, c) < width * height * depth * 4) by (nonlinear_arith)
        requires
            0 <= x < width,
            0 <= y < height,
            0 <= z < depth,
            0 <= c < 4,
    ;
}

/// A copy of `data`.
pub fn copy_bytes(data: &[u8]) -> (r: Vec<u8>)
    ensures
        r@ == data@,
{
    let mut out: Vec<u8> = Vec::new();
    let mut i: usize = 0;
    while i < data.len()
        invariant
            i <= data@.len(),
            out@ == data@.subrange(0, i as int),
        decreases data@.len() - i,
    {
        out.push(data[i]);
        assert(out@ =~= data@.subrange(0, i + 1));
        i += 1;
    }
    assert(out@ =~= data@);
    out
}

/// Zero pad the `width` x `height` x `depth` RGBA volume `data` to `new_width` x `new_height`
/// x `new_depth`, unless `data` already holds that many elements.
pub fn pad_mipmap_rgba(
    width: usize,
    height: usize,
    depth: usize,
    new_width: usize,
    new_height: usize,
    new_depth: usize,
    data: &[u8],
) -> (r: Vec<u8>)
    requires
        width <= new_width,
        height <= new_height,
        depth <= new_depth,
        new_width * new_height <= usize::MAX,
        new_width * new_height * new_depth <= usize::MAX,
        new_width * new_height * new_depth * 4 <= usize::MAX,
        data@.len() < new_width * new_height * new_depth * 4 ==> width * height * depth * 4 <= data@.len(),
    ensures
        r@ == if data@.len() < new_width * new_height * new_depth * 4 {
            padded(data@, width as nat, height as nat, depth as nat, new_width as nat, new_height as nat, new_depth as nat)
        } else {
            data@
        },
{
    let channels: usize = 4;
    let new_size = new_width * new_height * new_depth * channels;
    if data.len() >= new_size {
        return copy_bytes(data);
    }
    let ghost target = padded(
        data@,
        width as nat,
        height as nat,
        depth as nat,
        new_width as nat,
        new_height as nat,
        new_depth as nat,
    );
    // Zero pad the data to the appropriate size.
    let mut padded_data: Vec<u8> = Vec::new();
    let nwh = new_width * new_height;
    let len = data.len();
    let mut i: usize = 0;
    while i < new_size
        invariant
            i <= new_size,
            new_size == new_width * new_height * new_depth * 4,
            nwh == new_width * new_height,
            width <= new_width && height <= new_height && depth <= new_depth,
            width * height * depth * 4 <= data@.len(),
            len == data@.len(),
            target == padded(
                data@,
                width as nat,
                height as nat,
                depth as nat,
                new_width as nat,
                new_height as nat,
                new_depth as nat,
            ),
            padded_data@ == target.subrange(0, i as int),
        decreases new_size - i,
    {
        proof {
            assert(new_width > 0 && new_height > 0) by (nonlinear_arith)
                requires
                    i < new_width * new_height * new_depth * 4,
            ;
            lemma_index_voxel(new_width as int, new_height as int, new_depth as int, i as int);
        }
        let p = i / 4;
        let x = p % new_width;
        let y = (p / new_width) % new_height;
        let z = p / nwh;
        let c = i % 4;
        let value = if x < width && y < height && z < depth {
            proof {
                lemma_voxel_index_bound(width as int, height as int, depth as int, x as int, y as int, z as int, c as int);
            }
            assert(z * width <= width * depth && width * depth <= width * height * depth && z * width * height
                + y * width + x < width * height * depth && y * width <= width * height) by (nonlinear_arith)
                requires
                    x < width,
                    y < height,
                    z < depth,
            ;
            data[((z * width * height) + y * width + x) * 4 + c]
        } else {
            0
        };
        padded_data.push(value);
        assert(padded_data@ =~= target.subrange(0, i + 1));
        i += 1;
    }
    assert(padded_data@ =~= target);
    padded_data
}

/// The single-precision value nearest to `u / 255`, in units of `2^-40`.
pub open spec fn unorm8_value(u: u8) -> nat {
    if u == 0 {
        0
    } else {
        (unorm8_f32_significand(u as int) * pow2((17 - unorm8_shift(u as int)) as nat)) as nat
    }
}

/// The single-precision value nearest to `u / 255`, in units of `2^-40`.
fn unorm8_value_exec(u: u8) -> (r: u64)
    ensures
        r == unorm8_value(u),
        r <= 0x100_0000_0000,
{
    if u == 0 {
        return 0;
    }
    proof {
        vstd::arithmetic::power2::lemma2_to64();
    }
    let s: u64 = if u >= 255 {
        0
    } else if u >= 128 {
        1
    } else if u >= 64 {
        2
    } else if u >= 32 {
        3
    } else if u >= 16 {
        4
    } else if u >= 8 {
        5
    } else if u >= 4 {
        6
    } else if u >= 2 {
        7
    } else {
        8
    };
    assert(s == unorm8_shift(u as int));
    let sig = crate::floatbits::unorm8_significand(u);
    proof {
        vstd::bits::lemma_u64_pow2_no_overflow((17 - s) as nat);
        vstd::bits::lemma_u64_shl_is_mul(1u64, (17 - s) as u64);
        lemma_unorm8_value_bound(u);
    }
    let scale: u64 = 1 << (17 - s);
    assert(sig * scale <= 0x100_0000_0000);
    sig * scale
}

/// The single-precision value of a unorm8 channel is at most 1.
proof fn lemma_unorm8_value_bound(u: u8)
    requires
        u >= 1,
    ensures
        unorm8_value(u) <= 0x100_0000_0000,
{
    vstd::arithmetic::power2::lemma2_to64();
    vstd::arithmetic::power2::lemma2_to64_rest();
    let s = unorm8_shift(u as int);
    let sig = unorm8_f32_significand(u as int);
    crate::floatbits::lemma_unorm8_significand_bound(u);
    vstd::arithmetic::power2::lemma_pow2_adds(s + 23, (17 - s) as nat);
    assert(s + 23 + (17 - s) == 40);
    let a = pow2(s + 23);
    let b = pow2((17 - s) as nat);
    assert(a * b == 0x100_0000_0000);
    assert(b <= 0x2_0000) by {
        if s > 0 {
            vstd::arithmetic::power2::lemma_pow2_strictly_increases((17 - s) as nat, 17);
        }
    }
    if u == 255 {
        assert(s == 0);
        vstd::arithmetic::div_mod::lemma_fundamental_div_mod_converse(255 * 0x80_0000int, 255, 0x80_0000, 0);
        assert(sig == 0x80_0000);
    } else {
        assert(sig * b <= 0x100_0000_0000) by (nonlinear_arith)
            requires
                255 * sig <= u * a + 255,
                u <= 254,
                a * b == 0x100_0000_0000,
                b <= 0x2_0000,
                b >= 1,
        ;
    }
}

/// The running single-precision sum and the count of the first `j` samples of channel `c`
/// of the 2x2x2 region at `(x, y, z)` of the `width` x `height` x `depth` volume `data`,
/// taken with z outermost and x innermost and skipping samples outside the volume.
pub open spec fn downsample_acc(
    data: Seq<u8>,
    width: int,
    height: int,
    depth: int,
    x: int,
    y: int,
    z: int,
    c: int,
    j: nat,
) -> (nat, nat)
    decreases j,
{
    if j == 0 {
        (0, 0)
    } else {
        let (s, n) = downsample_acc(data, width, height, depth, x, y, z, c, (j - 1) as nat);
        let k = j - 1;
        let sx = 2 * x + k % 2;
        let sy = 2 * y + (k / 2) % 2;
        let sz = 2 * z + k / 4;
        if sx < width && sy < height && sz < depth {
            (spec_rne24(s + unorm8_value(data[voxel_index(width, height, sx, sy, sz, c)])), n + 1)
        } else {
            (s, n)
        }
    }
}

/// Channel `c` of the pixel at `(x, y, z)` of the downsampled volume: the single-precision
/// average of the samples divided by their count (at least 1), scaled by 255 and truncated.
pub open spec fn downsampled_channel(
    data: Seq<u8>,
    width: int,
    height: int,
    depth: int,
    x: int,
    y: int,
    z: int,
    c: int,
) -> u8 {
    let (s, n) = downsample_acc(data, width, height, depth, x, y, z, c, 8);
    let q = spec_rne24_ratio(s, if n == 0 { 1 } else { n });
    let v = spec_rne24(q * 255) / pow2(40);
    if v > 255 {
        255
    } else {
        v as u8
    }
}

/// The `width` x `height` x `depth` RGBA volume `data` reduced to `new_width` x `new_height`
/// x `new_depth` by averaging 2x2x2 regions.
pub open spec fn downsampled(
    data: Seq<u8>,
    width: nat,
    height: nat,
    depth: nat,
    new_width: nat,
    new_height: nat,
    new_depth: nat,
) -> Seq<u8> {
    Seq::new(
        new_width * new_height * new_depth * 4,
        |i: int|
            {
                let (x, y, z, c) = index_voxel(new_width as int, new_height as int, i);
                downsampled_channel(data, width as int, height as int, depth as int, x, y, z, c)
            },
    )
}

/// Average channel `c` of the 2x2x2 region at `(x, y, z)`.
fn downsample_channel(
    data: &[u8],
    width: usize,
    height: usize,
    depth: usize,
    x: usize,
    y: usize,
    z: usize,
    c: usize,
) -> (r: u8)
    requires
        width * height * depth * 4 <= data@.len(),
        x <= usize::MAX / 4,
        y <= usize::MAX / 4,
        z <= usize::MAX / 4,
        c < 4,
    ensures
        r == downsampled_channel(data@, width as int, height as int, depth as int, x as int, y as int, z as int, c as int),
{
    proof {
        vstd::arithmetic::power2::lemma2_to64();
        vstd::arithmetic::power2::lemma2_to64_rest();
    }
    let len = data.len();
    let mut sum: u64 = 0;
    let mut count: u64 = 0;
    let mut k: usize = 0;
    while k < 8
        invariant
            k <= 8,
            len == data@.len(),
            width * height * depth * 4 <= len,
            x <= usize::MAX / 4,
            y <= usize::MAX / 4,
            z <= usize::MAX / 4,
            c < 4,
            count <= k,
            (sum as nat, count as nat) == downsample_acc(
                data@,
                width as int,
                height as int,
                depth as int,
                x as int,
                y as int,
                z as int,
                c as int,
                k as nat,
            ),
            sum + 0x200_0000_0000 <= pow2((k + 1) as nat) * 0x100_0000_0000,
        decreases 8 - k,
    {
        proof {
            vstd::arithmetic::power2::lemma2_to64();
            vstd::arithmetic::power2::lemma_pow2_unfold((k + 2) as nat);
        }
        let sx = 2 * x + k % 2;
        let sy = 2 * y + (k / 2) % 2;
        let sz = 2 * z + k / 4;
        if sx < width && sy < height && sz < depth {
            proof {
                lemma_voxel_index_bound(width as int, height as int, depth as int, sx as int, sy as int, sz as int, c as int);
            }
            assert(sz * width <= width * depth && width * depth <= width * height * depth && sz * width * height
                + sy * width + sx < width * height * depth && sy * width <= width * height) by (nonlinear_arith)
                requires
                    sx < width,
                    sy < height,
                    sz < depth,
            ;
            let v = unorm8_value_exec(data[((sz * width * height) + sy * width + sx) * 4 + c]);
            sum = rne24(sum + v);
            count += 1;
        } else {
            assert(sum + 0x200_0000_0000 <= pow2((k + 2) as nat) * 0x100_0000_0000);
        }
        k += 1;
    }
    // Divide by the count, which is at least 1.
    let n = if count == 0 { 1 } else { count };
    let q = rne24_ratio(sum, n);
    assert(q * 255 < 0x8000_0000_0000_0000);
    let p = rne24(q * 255);
    proof {
        vstd::bits::lemma_u64_shr_is_div(p, 40);
    }
    let v = p >> 40;
    if v > 255 {
        255
    } else {
        v as u8
    }
}

/// Halve the width, height and depth of the `width` x `height` x `depth` RGBA volume `data`
/// to `new_width` x `new_height` x `new_depth` by averaging each 2x2x2 region of pixels, or
/// the part of it inside the volume.
pub fn downsample_rgba(
    new_width: usize,
    new_height: usize,
    new_depth: usize,
    width: usize,
    height: usize,
    depth: usize,
    data: &[u8],
) -> (r: Vec<u8>)
    requires
        new_width * new_height <= usize::MAX,
        new_width * new_height * new_depth <= usize::MAX,
        new_width * new_height * new_depth * 4 <= usize::MAX,
        width * height * depth * 4 <= data@.len(),
    ensures
        r@ == downsampled(data@, width as nat, height as nat, depth as nat, new_width as nat, new_height as nat, new_depth as nat),
{
    let ghost target = downsampled(
        data@,
        width as nat,
        height as nat,
        depth as nat,
        new_width as nat,
        new_height as nat,
        new_depth as nat,
    );
    let nwh = new_width * new_height;
    let new_size = nwh * new_depth * 4;
    let mut new_data: Vec<u8> = Vec::new();
    let mut i: usize = 0;
    while i < new_size
        invariant
            i <= new_size,
            new_size == new_width * new_height * new_depth * 4,
            nwh == new_width * new_height,
            width * height * depth * 4 <= data@.len(),
            target == downsampled(
                data@,
                width as nat,
                height as nat,
                depth as nat,
                new_width as nat,
                new_height as nat,
                new_depth as nat,
            ),
            new_data@ == target.subrange(0, i as int),
        decreases new_size - i,
    {
        proof {
            assert(new_width > 0 && new_height > 0 && new_depth > 0) by (nonlinear_arith)
                requires
                    i < new_width * new_height * new_depth * 4,
            ;
            lemma_index_voxel(new_width as int, new_height as int, new_depth as int, i as int);
        }
        let p = i / 4;
        let x = p % new_width;
        let y = (p / new_width) % new_height;
        let z = p / nwh;
        let c = i % 4;
        assert(new_width * 4 <= usize::MAX && new_height * 4 <= usize::MAX && new_depth * 4 <= usize::MAX)
            by (nonlinear_arith)
            requires
                new_width * new_height * new_depth * 4 <= usize::MAX,
                new_width >= 1,
                new_height >= 1,
                new_depth >= 1,
        ;
        // Average a 2x2x2 pixel region from data into a 1x1x1 pixel region.
        // This is equivalent to a 3D convolution or pooling operation over the pixels.
        let value = downsample_channel(data, width, height, depth, x, y, z, c);
        new_data.push(value);
        assert(new_data@ =~= target.subrange(0, i + 1));
        i += 1;
    }
    assert(new_data@ =~= target);
    new_data
}

} // verus!
