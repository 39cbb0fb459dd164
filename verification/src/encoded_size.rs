//! The sizes of the encoded mipmaps of a surface: each encoded part stands for as many
//! bytes as the surface layout gives its mip level.
use vstd::prelude::*;
use crate::bcn_encode::{compressed_size, compressor_input, part_len, PartView};
use crate::encode::{levels_encoded, spec_encode_surface, spec_downsample_mip, spec_encode_layers, spec_encode_mip, spec_encode_mips, spec_encode_rgba8_data, spec_get_mipmap_data, spec_mip_chain, MipView};
use crate::format::{is_block_compressed, spec_block_dimensions, spec_block_size_in_bytes, ImageFormat, Quality};
use crate::format::Mipmaps;
use crate::layout::{div_ceil, level_size, spec_mip_dimension};
use crate::mipgen::{physical_dimensions_fit, round_up};
use crate::rgba::{
    encoded_rgba, spec_encode_rgba, Bgr5A1, Bgr8, Bgra4, Bgra8, FromRgba, GetPixel, R16, R16Snorm, R8,
    R8Snorm, Rf16, Rf32, Rg16, Rg16Snorm, Rg8, Rg8Snorm, Rgba16, Rgba16Snorm, Rgba8, Rgba8Snorm, Rgbaf16,
    Rgbaf32, Rgbf32, Rgf16, Rgf32,
};

verus! {

/// Whether the bytes of the pixel `P` made from any RGBA8 color have the pixel size of `P`.
pub open spec fn sized<P: GetPixel + FromRgba<u8>>() -> bool {
    forall|c: Seq<u8>|
        c.len() == 4 ==> (#[trigger] P::spec_from_rgba(c)).spec_pixel_bytes().len() == P::spec_pixel_size()
}

/// Every pixel type that RGBA8 data is encoded to writes pixels of its pixel size.
proof fn lemma_pixels_sized()
    ensures
        sized::<R8>(),
        sized::<R8Snorm>(),
        sized::<Rg8>(),
        sized::<Rg8Snorm>(),
        sized::<Rgba8>(),
        sized::<Rgba8Snorm>(),
        sized::<Bgra8>(),
        sized::<Bgra4>(),
        sized::<Bgr8>(),
        sized::<R16>(),
        sized::<R16Snorm>(),
        sized::<Rg16>(),
        sized::<Rg16Snorm>(),
        sized::<Rgba16>(),
        sized::<Rgba16Snorm>(),
        sized::<Rf16>(),
        sized::<Rf32>(),
        sized::<Rgf16>(),
        sized::<Rgbaf16>(),
        sized::<Rgf32>(),
        sized::<Rgbf32>(),
        sized::<Rgbaf32>(),
        sized::<Bgr5A1>(),
{
}

/// The encoded bytes of the first `n` RGBA8 pixels hold `n` pixels.
pub(crate) proof fn lemma_encoded_pixels_len<P: GetPixel + FromRgba<u8>>(data: Seq<u8>, n: nat)
    requires
        sized::<P>(),
        4 * n <= data.len(),
    ensures
        encoded_rgba::<P, u8>(data, n).len() == n * P::spec_pixel_size(),
    decreases n,
{
    if n > 0 {
        lemma_encoded_pixels_len::<P>(data, (n - 1) as nat);
        let c = data.subrange(4 * (n - 1), (4 * n) as int);
        assert(P::spec_from_rgba(c).spec_pixel_bytes().len() == P::spec_pixel_size());
        assert((n - 1) * P::spec_pixel_size() + P::spec_pixel_size() == n * P::spec_pixel_size())
            by (nonlinear_arith);
    }
}

/// Encoding a `width` by `height` image to pixels `P` of `size` bytes gives `size` bytes
/// per pixel.
proof fn lemma_encode_rgba_len<P: GetPixel + FromRgba<u8>>(width: u32, height: u32, data: Seq<u8>, size: nat)
    requires
        sized::<P>(),
        P::spec_pixel_size() == size,
    ensures
        spec_encode_rgba::<P, u8>(width, height, data) matches Ok(e) ==> e.len() == width * height * size,
{
    if let Ok(e) = spec_encode_rgba::<P, u8>(width, height, data) {
        let n = (width * height) as nat;
        assert(4 * n == width * height * 4) by (nonlinear_arith)
            requires
                n == width * height,
        ;
        lemma_encoded_pixels_len::<P>(data, n);
    }
}

/// The number of bytes that the encoded part of a `width` by `height` image in `format`
/// stands for.
pub open spec fn image_bytes(width: u32, height: u32, format: ImageFormat) -> nat {
    if is_block_compressed(format) {
        compressed_size(width, height, spec_block_size_in_bytes(format) as nat)
    } else {
        (width * height * spec_block_size_in_bytes(format)) as nat
    }
}

/// Encoding RGBA8 data to any format gives a part that stands for the bytes
/// of the image in that format, with the dimensions of the image.
pub(crate) proof fn lemma_encoded_part_len(width: u32, height: u32, data: Seq<u8>, format: ImageFormat, quality: Quality)
    ensures
        spec_encode_rgba8_data(width, height, data, format, quality) matches Ok(p) ==> {
            &&& p.1 == width
            &&& p.2 == height
            &&& part_len(p) == image_bytes(width, height, format)
            &&& compressor_input(p)
        },
{
    reveal(spec_encode_rgba8_data);
    crate::bcn_encode::lemma_blocks_cover_pixels(width as nat, height as nat, 1);
    let n = (width * height) as nat;
    assert(width * 1 * height == n && width * 2 * height == 2 * n && width * 4 * height == 4 * n
        && width * 8 * height == 8 * n && width * height * 4 == 4 * n) by (nonlinear_arith)
        requires
            n == width * height,
    ;
    lemma_pixels_sized();
    lemma_encode_rgba_len::<R8>(width, height, data, 1);
    lemma_encode_rgba_len::<R8Snorm>(width, height, data, 1);
    lemma_encode_rgba_len::<Rg8>(width, height, data, 2);
    lemma_encode_rgba_len::<Rg8Snorm>(width, height, data, 2);
    lemma_encode_rgba_len::<Rgba8>(width, height, data, 4);
    lemma_encode_rgba_len::<Rgba8Snorm>(width, height, data, 4);
    lemma_encode_rgba_len::<Bgra8>(width, height, data, 4);
    lemma_encode_rgba_len::<Bgra4>(width, height, data, 2);
    lemma_encode_rgba_len::<Bgr8>(width, height, data, 3);
    lemma_encode_rgba_len::<R16>(width, height, data, 2);
    lemma_encode_rgba_len::<R16Snorm>(width, height, data, 2);
    lemma_encode_rgba_len::<Rg16>(width, height, data, 4);
    lemma_encode_rgba_len::<Rg16Snorm>(width, height, data, 4);
    lemma_encode_rgba_len::<Rgba16>(width, height, data, 8);
    lemma_encode_rgba_len::<Rgba16Snorm>(width, height, data, 8);
    lemma_encode_rgba_len::<Rf16>(width, height, data, 2);
    lemma_encode_rgba_len::<Rf32>(width, height, data, 4);
    lemma_encode_rgba_len::<Rgf16>(width, height, data, 4);
    lemma_encode_rgba_len::<Rgbaf16>(width, height, data, 8);
    lemma_encode_rgba_len::<Rgf32>(width, height, data, 8);
    lemma_encode_rgba_len::<Rgbf32>(width, height, data, 12);
    lemma_encode_rgba_len::<Rgbaf32>(width, height, data, 16);
    lemma_encode_rgba_len::<Bgr5A1>(width, height, data, 2);
}

/// The size in bytes of a `width` x `height` x `depth` image in `format`, stored as whole
/// blocks.
pub open spec fn mip_bytes(width: u32, height: u32, depth: u32, format: ImageFormat) -> nat {
    let (bw, bh, bd) = spec_block_dimensions(format);
    div_ceil(width as nat, bw as nat) * div_ceil(height as nat, bh as nat) * div_ceil(depth as nat, bd as nat)
        * (spec_block_size_in_bytes(format) as nat)
}

/// The size in bytes of mip level `mipmap` of a surface with base `dimensions` in `format`.
pub open spec fn level_bytes(dimensions: (u32, u32, u32), format: ImageFormat, mipmap: u32) -> nat {
    mip_bytes(
        spec_mip_dimension(dimensions.0, mipmap),
        spec_mip_dimension(dimensions.1, mipmap),
        spec_mip_dimension(dimensions.2, mipmap),
        format,
    )
}

/// Whether `mip` has the dimensions of a `width` x `height` x `depth` image padded to whole
/// blocks of `block_dimensions`.
pub open spec fn padded_to(mip: MipView, width: u32, height: u32, depth: u32, block_dimensions: (u32, u32, u32)) -> bool {
    &&& physical_dimensions_fit(width, height, depth, block_dimensions)
    &&& mip.0 == round_up(width as nat, block_dimensions.0 as nat)
    &&& mip.1 == round_up(height as nat, block_dimensions.1 as nat)
    &&& mip.2 == round_up(depth as nat, block_dimensions.2 as nat)
}

/// Mipmap `m` of a layer, read or generated, is that mip level padded to whole blocks.
proof fn lemma_mip_chain_padded(
    data: Seq<u8>,
    dimensions: (u32, u32, u32),
    mipmaps: u32,
    layer: u32,
    block_dimensions: (u32, u32, u32),
    use_surface: bool,
    m: nat,
)
    requires
        m < 32,
    ensures
        spec_mip_chain(data, dimensions, mipmaps, layer, block_dimensions, use_surface, m) matches Ok(mip)
            ==> padded_to(
            mip,
            spec_mip_dimension(dimensions.0, m as u32),
            spec_mip_dimension(dimensions.1, m as u32),
            spec_mip_dimension(dimensions.2, m as u32),
            block_dimensions,
        ),
{
    reveal(spec_get_mipmap_data);
    reveal(spec_downsample_mip);
}

/// `x` rounded up to a multiple of 1 is `x`.
proof fn lemma_round_up_one(x: nat)
    ensures
        div_ceil(x, 1) == x,
        round_up(x, 1) == x,
{
}

/// Encoding a mipmap padded to whole blocks gives a part that stands for the size of the
/// mip level in `format`.
proof fn lemma_encode_mip_len(mip: MipView, format: ImageFormat, quality: Quality, width: u32, height: u32, depth: u32)
    requires
        padded_to(mip, width, height, depth, spec_block_dimensions(format)),
    ensures
        spec_encode_mip(mip, format, quality) matches Ok(p) ==> part_len(p) == mip_bytes(width, height, depth, format)
            && compressor_input(p),
{
    reveal(spec_encode_mip);
    if let Ok(p) = spec_encode_mip(mip, format, quality) {
        let h = (mip.1 * mip.2) as u32;
        lemma_encoded_part_len(mip.0 as u32, h, mip.3, format, quality);
        let bs = spec_block_size_in_bytes(format) as nat;
        if is_block_compressed(format) {
            let a = div_ceil(width as nat, 4);
            let b = div_ceil(height as nat, 4);
            lemma_round_up_one(depth as nat);
            assert(mip.0 * h == 16 * (a * b * depth)) by (nonlinear_arith)
                requires
                    mip.0 == a * 4,
                    mip.1 == b * 4,
                    mip.2 == depth,
                    h == mip.1 * mip.2,
            ;
            assert((16 * (a * b * depth) + 15) / 16 == a * b * depth) by (nonlinear_arith);
            assert(a * b * depth * bs == a * b * div_ceil(depth as nat, 1) * bs);
        } else {
            lemma_round_up_one(width as nat);
            lemma_round_up_one(height as nat);
            lemma_round_up_one(depth as nat);
            assert(mip.0 * h * bs == width * height * depth * bs) by (nonlinear_arith)
                requires
                    mip.0 == width,
                    mip.1 == height,
                    mip.2 == depth,
                    h == mip.1 * mip.2,
            ;
        }
    }
}

/// The first `n` encoded mipmaps of a layer stand for the sizes of their mip levels.
proof fn lemma_encode_mips_sizes(
    data: Seq<u8>,
    dimensions: (u32, u32, u32),
    mipmaps: u32,
    layer: u32,
    format: ImageFormat,
    quality: Quality,
    use_surface: bool,
    num_mipmaps: u32,
    n: nat,
)
    ensures
        spec_encode_mips(data, dimensions, mipmaps, layer, format, quality, use_surface, num_mipmaps, n) matches Ok(v)
            ==> {
            &&& v.len() == n
            &&& forall|i: int| 0 <= i < n ==> #[trigger] part_len(v[i]) == level_bytes(dimensions, format, i as u32)
            &&& forall|i: int| 0 <= i < n ==> #[trigger] compressor_input(v[i])
        },
    decreases n,
{
    if n > 0 {
        lemma_encode_mips_sizes(data, dimensions, mipmaps, layer, format, quality, use_surface, num_mipmaps, (n - 1) as nat);
        let bd = spec_block_dimensions(format);
        if let Ok(v) = spec_encode_mips(data, dimensions, mipmaps, layer, format, quality, use_surface, num_mipmaps, n) {
            let acc = spec_encode_mips(data, dimensions, mipmaps, layer, format, quality, use_surface, num_mipmaps, (n - 1) as nat)->Ok_0;
            let mip = spec_mip_chain(data, dimensions, mipmaps, layer, bd, use_surface, (n - 1) as nat)->Ok_0;
            let m = (n - 1) as u32;
            lemma_mip_chain_padded(data, dimensions, mipmaps, layer, bd, use_surface, (n - 1) as nat);
            lemma_encode_mip_len(
                mip,
                format,
                quality,
                spec_mip_dimension(dimensions.0, m),
                spec_mip_dimension(dimensions.1, m),
                spec_mip_dimension(dimensions.2, m),
            );
            assert(v == acc.push(spec_encode_mip(mip, format, quality)->Ok_0));
            assert forall|i: int| 0 <= i < n implies #[trigger] part_len(v[i]) == level_bytes(dimensions, format, i as u32) by {
                if i < n - 1 {
                    assert(v[i] == acc[i]);
                }
            }
            assert forall|i: int| 0 <= i < n implies #[trigger] compressor_input(v[i]) by {
                if i < n - 1 {
                    assert(v[i] == acc[i]);
                }
            }
        }
    }
}

/// Part `k` of the first `n` encoded layers is mip level `k % levels` of layer `k / levels`,
/// and stands for the size of that mip level.
proof fn lemma_encode_layers_sizes(
    data: Seq<u8>,
    dimensions: (u32, u32, u32),
    mipmaps: u32,
    format: ImageFormat,
    quality: Quality,
    use_surface: bool,
    num_mipmaps: u32,
    n: nat,
)
    ensures
        spec_encode_layers(data, dimensions, mipmaps, format, quality, use_surface, num_mipmaps, n) matches Ok(v) ==> {
            &&& v.len() == n * levels_encoded(num_mipmaps)
            &&& forall|k: int|
                0 <= k < v.len() ==> #[trigger] part_len(v[k]) == level_bytes(
                    dimensions,
                    format,
                    (k % levels_encoded(num_mipmaps) as int) as u32,
                )
            &&& forall|k: int| 0 <= k < v.len() ==> #[trigger] compressor_input(v[k])
        },
    decreases n,
{
    if n > 0 {
        let levels = levels_encoded(num_mipmaps);
        lemma_encode_layers_sizes(data, dimensions, mipmaps, format, quality, use_surface, num_mipmaps, (n - 1) as nat);
        if let Ok(v) = spec_encode_layers(data, dimensions, mipmaps, format, quality, use_surface, num_mipmaps, n) {
            let acc = spec_encode_layers(data, dimensions, mipmaps, format, quality, use_surface, num_mipmaps, (n - 1) as nat)->Ok_0;
            let layer = spec_encode_mips(data, dimensions, mipmaps, (n - 1) as u32, format, quality, use_surface, num_mipmaps, levels)->Ok_0;
            lemma_encode_mips_sizes(data, dimensions, mipmaps, (n - 1) as u32, format, quality, use_surface, num_mipmaps, levels);
            assert(v == acc + layer);
            assert((n - 1) * levels + levels == n * levels) by (nonlinear_arith);
            assert forall|k: int| 0 <= k < v.len() implies #[trigger] part_len(v[k]) == level_bytes(
                dimensions,
                format,
                (k % levels as int) as u32,
            ) by {
                if k < acc.len() {
                    assert(v[k] == acc[k]);
                } else {
                    let j = k - acc.len();
                    assert(v[k] == layer[j]);
                    assert(k % levels as int == j) by (nonlinear_arith)
                        requires
                            k == (n - 1) * levels + j,
                            0 <= j < levels,
                    ;
                    assert(part_len(layer[j]) == level_bytes(dimensions, format, j as u32));
                }
            }
            assert forall|k: int| 0 <= k < v.len() implies #[trigger] compressor_input(v[k]) by {
                if k < acc.len() {
                    assert(v[k] == acc[k]);
                } else {
                    assert(v[k] == layer[k - acc.len()]);
                }
            }
        }
    }
}

/// Where the size of a mip level in `format` fits in `usize`, the surface layout gives that
/// mip level the size that `level_bytes` states.
pub proof fn lemma_level_size_bytes(dimensions: (u32, u32, u32), format: ImageFormat, mipmap: u32)
    ensures
        level_size(dimensions, spec_block_dimensions(format), spec_block_size_in_bytes(format), mipmap) matches Some(s)
            ==> s == level_bytes(dimensions, format, mipmap),
{
}

/// Encoding an RGBA8 surface to any format gives its parts ordered by array
/// layer and then by mip level, one for each mip level encoded in each layer, and part `k`
/// stands for as many bytes as mip level `k % levels` of the surface takes in `format`.
/// Laid end to end, the encoded parts thus have the surface layout of the encoded surface.
/// Each part can be handed to its compressor.
pub proof fn lemma_encoded_surface_layout(
    data: Seq<u8>,
    dimensions: (u32, u32, u32),
    layers: u32,
    surface_mipmaps: u32,
    format: ImageFormat,
    quality: Quality,
    mipmaps: Mipmaps,
)
    ensures
        spec_encode_surface(data, dimensions, layers, surface_mipmaps, format, quality, mipmaps) matches Ok(
            (num_mipmaps, v),
        ) ==> {
            &&& v.len() == layers * levels_encoded(num_mipmaps)
            &&& forall|k: int|
                0 <= k < v.len() ==> #[trigger] part_len(v[k]) == level_bytes(
                    dimensions,
                    format,
                    (k % levels_encoded(num_mipmaps) as int) as u32,
                )
            &&& forall|k: int| 0 <= k < v.len() ==> #[trigger] compressor_input(v[k])
        },
{
    if let Ok((num_mipmaps, v)) = spec_encode_surface(data, dimensions, layers, surface_mipmaps, format, quality, mipmaps) {
        lemma_encode_layers_sizes(
            data,
            dimensions,
            surface_mipmaps,
            format,
            quality,
            mipmaps == Mipmaps::FromSurface,
            num_mipmaps,
            layers as nat,
        );
    }
}

} // verus!
