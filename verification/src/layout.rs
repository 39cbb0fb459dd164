//! Sizes and offsets of mipmaps, depth slices and array layers in surface data.
//!
//! Surfaces use a row-major layout like `surface[layer][mipmap][z][y][x]`.
//! Each array layer stores all of its mipmaps tightly packed, and each mipmap
//! is stored as a whole number of blocks.
use vstd::prelude::*;
use vstd::arithmetic::power2::{pow2, lemma_pow2_pos};

verus! {

/// The value of `base_dimension` at level `mipmap`: halved for each level, but never below 1.
pub open spec fn spec_mip_dimension(base_dimension: u32, mipmap: u32) -> u32 {
    let halved = (base_dimension as nat / pow2(mipmap as nat)) as u32;
    if halved < 1 { 1 } else { halved }
}

/// The reduced value for `base_dimension` at level `mipmap`.
pub fn mip_dimension(base_dimension: u32, mipmap: u32) -> (r: u32)
    requires
        mipmap < 32,
    ensures
        r == spec_mip_dimension(base_dimension, mipmap),
        1 <= r,
        r <= base_dimension || base_dimension == 0,
{
    proof {
        vstd::bits::lemma_u32_shr_is_div(base_dimension, mipmap);
        lemma_pow2_pos(mipmap as nat);
        vstd::arithmetic::div_mod::lemma_div_is_ordered_by_denominator(
            base_dimension as int,
            1,
            pow2(mipmap as nat) as int,
        );
    }
    // Halve for each mip level.
    let halved = base_dimension >> mipmap;
    if halved < 1 {
        1
    } else {
        halved
    }
}

/// The number of bits needed to write `x`, which is `floor(log2(x)) + 1` for positive `x`.
pub open spec fn bit_length(x: nat) -> nat
    decreases x,
{
    if x == 0 {
        0
    } else {
        1 + bit_length(x / 2)
    }
}

/// A number below `2^k` needs at most `k` bits.
pub proof fn lemma_bit_length_bound(x: nat, k: nat)
    requires
        x < pow2(k),
    ensures
        bit_length(x) <= k,
    decreases k,
{
    if x > 0 {
        if k == 0 {
            vstd::arithmetic::power2::lemma2_to64();
        } else {
            vstd::arithmetic::power2::lemma_pow2_unfold(k);
            lemma_bit_length_bound(x / 2, (k - 1) as nat);
        }
    }
}

/// The number of mip levels from a dimension of `max_dimension` down to a dimension of 1.
pub fn max_mipmap_count(max_dimension: u32) -> (r: u32)
    ensures
        r == bit_length(max_dimension as nat),
        r <= 32,
{
    proof {
        vstd::arithmetic::power2::lemma2_to64();
        lemma_bit_length_bound(max_dimension as nat, 32);
    }
    // log2(x) + 1
    let mut count: u32 = 0;
    let mut x = max_dimension;
    while x > 0
        invariant
            count + bit_length(x as nat) == bit_length(max_dimension as nat),
            bit_length(max_dimension as nat) <= 32,
        decreases x,
    {
        x = x / 2;
        count = count + 1;
    }
    count
}

/// `a / b` rounded up.
pub open spec fn div_ceil(a: nat, b: nat) -> nat {
    if a % b == 0 {
        a / b
    } else {
        a / b + 1
    }
}

/// The size in bytes of a `width` x `height` x `depth` mipmap stored as whole blocks,
/// or `None` if computing it overflows `usize`.
pub open spec fn spec_mip_size(
    width: usize,
    height: usize,
    depth: usize,
    block_width: usize,
    block_height: usize,
    block_depth: usize,
    block_size_in_bytes: usize,
) -> Option<usize> {
    let x = div_ceil(width as nat, block_width as nat);
    let y = div_ceil(height as nat, block_height as nat);
    let z = div_ceil(depth as nat, block_depth as nat);
    if x * y > usize::MAX || x * y * z > usize::MAX || x * y * z * block_size_in_bytes
        > usize::MAX {
        None
    } else {
        Some((x * y * z * block_size_in_bytes) as usize)
    }
}

fn div_ceil_usize(a: usize, b: usize) -> (r: usize)
    requires
        b > 0,
    ensures
        r == div_ceil(a as nat, b as nat),
{
    let q = a / b;
    if a % b == 0 {
        q
    } else {
        proof {
            vstd::arithmetic::div_mod::lemma_fundamental_div_mod(a as int, b as int);
            vstd::arithmetic::mul::lemma_mul_inequality(1, b as int, q as int);
        }
        q + 1
    }
}

/// The size in bytes of a mipmap, stored as whole blocks.
pub fn mip_size(
    width: usize,
    height: usize,
    depth: usize,
    block_width: usize,
    block_height: usize,
    block_depth: usize,
    block_size_in_bytes: usize,
) -> (r: Option<usize>)
    requires
        block_width > 0,
        block_height > 0,
        block_depth > 0,
    ensures
        r == spec_mip_size(
            width,
            height,
            depth,
            block_width,
            block_height,
            block_depth,
            block_size_in_bytes,
        ),
{
    let x = div_ceil_usize(width, block_width);
    let y = div_ceil_usize(height, block_height);
    let z = div_ceil_usize(depth, block_depth);
    match x.checked_mul(y) {
        None => None,
        Some(xy) => match xy.checked_mul(z) {
            None => None,
            Some(xyz) => xyz.checked_mul(block_size_in_bytes),
        },
    }
}

} // verus!

verus! {

/// The size of mip level `level` of a surface with the given base `dimensions`.
pub open spec fn level_size(
    dimensions: (u32, u32, u32),
    block_dimensions: (u32, u32, u32),
    block_size_in_bytes: usize,
    level: u32,
) -> Option<usize> {
    spec_mip_size(
        spec_mip_dimension(dimensions.0, level) as usize,
        spec_mip_dimension(dimensions.1, level) as usize,
        spec_mip_dimension(dimensions.2, level) as usize,
        block_dimensions.0 as usize,
        block_dimensions.1 as usize,
        block_dimensions.2 as usize,
        block_size_in_bytes,
    )
}

/// Whether the sizes of the first `n` mip levels all fit in `usize`.
pub open spec fn levels_fit(
    dimensions: (u32, u32, u32),
    block_dimensions: (u32, u32, u32),
    block_size_in_bytes: usize,
    n: nat,
) -> bool {
    forall|i: u32| i < n ==> #[trigger] level_size(dimensions, block_dimensions, block_size_in_bytes, i) is Some
}

/// The combined size of the first `n` mip levels.
pub open spec fn levels_size(
    dimensions: (u32, u32, u32),
    block_dimensions: (u32, u32, u32),
    block_size_in_bytes: usize,
    n: nat,
) -> int
    decreases n,
{
    if n == 0 {
        0
    } else {
        levels_size(dimensions, block_dimensions, block_size_in_bytes, (n - 1) as nat)
            + level_size(dimensions, block_dimensions, block_size_in_bytes, (n - 1) as u32)->0
    }
}

/// The offset in bytes of depth slice `depth_level` of mip level `mipmap` in array layer `layer`,
/// where each layer holds `mipmaps_per_layer` tightly packed mip levels.
/// `None` if a size is not representable or `mipmap` is past the layer's mip levels.
pub open spec fn spec_calculate_offset(
    layer: u32,
    depth_level: u32,
    mipmap: u32,
    dimensions: (u32, u32, u32),
    block_dimensions: (u32, u32, u32),
    block_size_in_bytes: usize,
    mipmaps_per_layer: u32,
) -> Option<usize> {
    let bs = block_size_in_bytes;
    let size2d = spec_mip_size(
        spec_mip_dimension(dimensions.0, mipmap) as usize,
        spec_mip_dimension(dimensions.1, mipmap) as usize,
        1,
        block_dimensions.0 as usize,
        block_dimensions.1 as usize,
        block_dimensions.2 as usize,
        bs,
    );
    let layer_size = levels_size(dimensions, block_dimensions, bs, mipmaps_per_layer as nat);
    let offset = layer * layer_size + levels_size(dimensions, block_dimensions, bs, mipmap as nat)
        + size2d->0 * depth_level;
    if !levels_fit(dimensions, block_dimensions, bs, mipmaps_per_layer as nat) || size2d is None
        || layer_size > usize::MAX || mipmap > mipmaps_per_layer || offset > usize::MAX {
        None
    } else {
        Some(offset as usize)
    }
}

proof fn lemma_levels_size_monotonic(
    dimensions: (u32, u32, u32),
    block_dimensions: (u32, u32, u32),
    block_size_in_bytes: usize,
    m: nat,
    n: nat,
)
    requires
        m <= n,
    ensures
        levels_size(dimensions, block_dimensions, block_size_in_bytes, m) <= levels_size(
            dimensions,
            block_dimensions,
            block_size_in_bytes,
            n,
        ),
    decreases n - m,
{
    if m < n {
        lemma_levels_size_monotonic(
            dimensions,
            block_dimensions,
            block_size_in_bytes,
            m,
            (n - 1) as nat,
        );
    }
}

/// The offset in bytes of the given layer, depth slice and mip level.
pub fn calculate_offset(
    layer: u32,
    depth_level: u32,
    mipmap: u32,
    dimensions: (u32, u32, u32),
    block_dimensions: (u32, u32, u32),
    block_size_in_bytes: usize,
    mipmaps_per_layer: u32,
) -> (r: Option<usize>)
    requires
        mipmap < 32,
        mipmaps_per_layer <= 32,
        block_dimensions.0 > 0,
        block_dimensions.1 > 0,
        block_dimensions.2 > 0,
    ensures
        r == spec_calculate_offset(
            layer,
            depth_level,
            mipmap,
            dimensions,
            block_dimensions,
            block_size_in_bytes,
            mipmaps_per_layer,
        ),
{
    let (width, height, depth) = dimensions;
    let (block_width, block_height, block_depth) = block_dimensions;
    let bs = block_size_in_bytes;

    // The size of each mip level and the running sums of those sizes.
    let mut layer_size: usize = 0;
    let mut mip_offset: usize = 0;
    let mut i: u32 = 0;
    while i < mipmaps_per_layer
        invariant
            i <= mipmaps_per_layer <= 32,
            mipmap < 32,
            bs == block_size_in_bytes,
            block_width > 0 && block_height > 0 && block_depth > 0,
            dimensions == (width, height, depth),
            block_dimensions == (block_width, block_height, block_depth),
            levels_fit(dimensions, block_dimensions, bs, i as nat),
            layer_size == levels_size(dimensions, block_dimensions, bs, i as nat),
            mip_offset == levels_size(
                dimensions,
                block_dimensions,
                bs,
                if mipmap < i { mipmap as nat } else { i as nat },
            ),
        decreases mipmaps_per_layer - i,
    {
        let size = mip_size(
            mip_dimension(width, i) as usize,
            mip_dimension(height, i) as usize,
            mip_dimension(depth, i) as usize,
            block_width as usize,
            block_height as usize,
            block_depth as usize,
            bs,
        );
        assert(size == level_size(dimensions, block_dimensions, bs, i));
        match size {
            None => {
                assert(!levels_fit(dimensions, block_dimensions, bs, mipmaps_per_layer as nat));
                return None;
            },
            Some(size) => {
                assert(levels_fit(dimensions, block_dimensions, bs, (i + 1) as nat));
                match layer_size.checked_add(size) {
                    None => {
                        proof {
                            lemma_levels_size_monotonic(
                                dimensions,
                                block_dimensions,
                                bs,
                                (i + 1) as nat,
                                mipmaps_per_layer as nat,
                            );
                        }
                        return None;
                    },
                    Some(new_size) => {
                        if i < mipmap {
                            mip_offset = new_size;
                        }
                        layer_size = new_size;
                    },
                }
            },
        }
        i = i + 1;
    }

    // Each depth level adds another rounded 2D slice.
    let size2d = mip_size(
        mip_dimension(width, mipmap) as usize,
        mip_dimension(height, mipmap) as usize,
        1,
        block_width as usize,
        block_height as usize,
        block_depth as usize,
        bs,
    );
    let size2d = match size2d {
        None => return None,
        Some(s) => s,
    };
    if mipmap > mipmaps_per_layer {
        return None;
    }
    // Each layer has the same number of mipmaps.
    let layer_offset = match (layer as usize).checked_mul(layer_size) {
        None => return None,
        Some(o) => o,
    };
    let depth_offset = match size2d.checked_mul(depth_level as usize) {
        None => return None,
        Some(o) => o,
    };
    match layer_offset.checked_add(mip_offset) {
        None => None,
        Some(o) => o.checked_add(depth_offset),
    }
}

} // verus!
