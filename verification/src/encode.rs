//! Encoding of RGBA8 surfaces to any format, with mipmaps taken from the surface or generated.
use vstd::prelude::*;
use crate::bcn::{Bc1, Bc2, Bc3, Bc4, Bc5, Bc6, Bc7};
use crate::bcn_encode::{bcn_compression_input, compressor_input, part_len, spec_bcn_from_rgba8, EncodedPart, PartView};
use crate::compress::compress_part;
use crate::error::SurfaceError;
use crate::format::{ImageFormat, Mipmaps, Quality};
use crate::layout::{bit_length, div_ceil, max_mipmap_count, mip_dimension, spec_mip_dimension, spec_mip_size};
use crate::mipgen::{
    downsample_rgba, downsampled, pad_mipmap_rgba, padded, physical_dimensions, physical_dimensions_fit, round_up,
    spec_physical_dimensions,
};
use crate::surface::{layer_mip_slices, layer_slices, max3, spec_mipmap_range, spec_validate, AsElements, Surface, SurfaceRgba8};
use crate::rgba::{encode_rgba, spec_encode_rgba, Bgr5A1, Bgr8, Bgra4, Bgra8, R16, R16Snorm, R8, R8Snorm, Rf16, Rf32, Rg16, Rg16Snorm, Rg8, Rg8Snorm, Rgba16, Rgba16Snorm, Rgba8, Rgba8Snorm, Rgbaf16, Rgbaf32, Rgbf32, Rgf16, Rgf32};

verus! {

/// The part of the bytes `r` of a `width` by `height` image, which need no compressor.
pub open spec fn bytes_part(width: u32, height: u32, r: Result<Seq<u8>, SurfaceError>) -> Result<
    PartView,
    SurfaceError,
> {
    match r {
        Ok(bytes) => Ok((None, width, height, bytes)),
        Err(e) => Err(e),
    }
}

/// The part of the bytes `r` of a `width` by `height` image.
fn bytes_part_exec(width: u32, height: u32, r: Result<Vec<u8>, SurfaceError>) -> (p: Result<
    EncodedPart,
    SurfaceError,
>)
    ensures
        match r {
            Ok(bytes) => p matches Ok(part) && part@ == (None::<crate::bcn_encode::Compressor>, width, height, bytes@),
            Err(e) => p == Err::<EncodedPart, SurfaceError>(e),
        },
{
    match r {
        Ok(bytes) => Ok(EncodedPart { compressor: None, width, height, data: bytes }),
        Err(e) => Err(e),
    }
}

/// The outcome of encoding the `width` by `height` RGBA8 image `data` to `format`: the
/// bytes of an uncompressed format, or the input of the block compressor of a compressed one.
/// Unorm and srgb only affect how the data is read, so both use the same conversion.
#[verifier::opaque]
pub open spec fn spec_encode_rgba8_data(
    width: u32,
    height: u32,
    data: Seq<u8>,
    format: ImageFormat,
    quality: Quality,
) -> Result<PartView, SurfaceError> {
    match format {
        ImageFormat::BC1RgbaUnorm => spec_bcn_from_rgba8::<Bc1>(width, height, 1, data, quality),
        ImageFormat::BC1RgbaUnormSrgb => spec_bcn_from_rgba8::<Bc1>(width, height, 1, data, quality),
        ImageFormat::BC2RgbaUnorm => spec_bcn_from_rgba8::<Bc2>(width, height, 1, data, quality),
        ImageFormat::BC2RgbaUnormSrgb => spec_bcn_from_rgba8::<Bc2>(width, height, 1, data, quality),
        ImageFormat::BC3RgbaUnorm => spec_bcn_from_rgba8::<Bc3>(width, height, 1, data, quality),
        ImageFormat::BC3RgbaUnormSrgb => spec_bcn_from_rgba8::<Bc3>(width, height, 1, data, quality),
        ImageFormat::BC4RUnorm => spec_bcn_from_rgba8::<Bc4>(width, height, 1, data, quality),
        ImageFormat::BC4RSnorm => spec_bcn_from_rgba8::<Bc4>(width, height, 1, data, quality),
        ImageFormat::BC5RgUnorm => spec_bcn_from_rgba8::<Bc5>(width, height, 1, data, quality),
        ImageFormat::BC5RgSnorm => spec_bcn_from_rgba8::<Bc5>(width, height, 1, data, quality),
        ImageFormat::BC6hRgbUfloat => spec_bcn_from_rgba8::<Bc6>(width, height, 1, data, quality),
        ImageFormat::BC6hRgbSfloat => spec_bcn_from_rgba8::<Bc6>(width, height, 1, data, quality),
        ImageFormat::BC7RgbaUnorm => spec_bcn_from_rgba8::<Bc7>(width, height, 1, data, quality),
        ImageFormat::BC7RgbaUnormSrgb => spec_bcn_from_rgba8::<Bc7>(width, height, 1, data, quality),
        ImageFormat::R8Unorm => bytes_part(width, height, spec_encode_rgba::<R8, u8>(width, height, data)),
        ImageFormat::R8Snorm => bytes_part(width, height, spec_encode_rgba::<R8Snorm, u8>(width, height, data)),
        ImageFormat::Rg8Unorm => bytes_part(width, height, spec_encode_rgba::<Rg8, u8>(width, height, data)),
        ImageFormat::Rg8Snorm => bytes_part(width, height, spec_encode_rgba::<Rg8Snorm, u8>(width, height, data)),
        ImageFormat::Rgba8Unorm => bytes_part(width, height, spec_encode_rgba::<Rgba8, u8>(width, height, data)),
        ImageFormat::Rgba8UnormSrgb => bytes_part(width, height, spec_encode_rgba::<Rgba8, u8>(width, height, data)),
        ImageFormat::Rgba8Snorm => bytes_part(width, height, spec_encode_rgba::<Rgba8Snorm, u8>(width, height, data)),
        ImageFormat::Bgra8Unorm => bytes_part(width, height, spec_encode_rgba::<Bgra8, u8>(width, height, data)),
        ImageFormat::Bgra8UnormSrgb => bytes_part(width, height, spec_encode_rgba::<Bgra8, u8>(width, height, data)),
        ImageFormat::Bgra4Unorm => bytes_part(width, height, spec_encode_rgba::<Bgra4, u8>(width, height, data)),
        ImageFormat::Bgr8Unorm => bytes_part(width, height, spec_encode_rgba::<Bgr8, u8>(width, height, data)),
        ImageFormat::R16Unorm => bytes_part(width, height, spec_encode_rgba::<R16, u8>(width, height, data)),
        ImageFormat::R16Snorm => bytes_part(width, height, spec_encode_rgba::<R16Snorm, u8>(width, height, data)),
        ImageFormat::Rg16Unorm => bytes_part(width, height, spec_encode_rgba::<Rg16, u8>(width, height, data)),
        ImageFormat::Rg16Snorm => bytes_part(width, height, spec_encode_rgba::<Rg16Snorm, u8>(width, height, data)),
        ImageFormat::Rgba16Unorm => bytes_part(width, height, spec_encode_rgba::<Rgba16, u8>(width, height, data)),
        ImageFormat::Rgba16Snorm => bytes_part(width, height, spec_encode_rgba::<Rgba16Snorm, u8>(width, height, data)),
        ImageFormat::R16Float => bytes_part(width, height, spec_encode_rgba::<Rf16, u8>(width, height, data)),
        ImageFormat::Rg16Float => bytes_part(width, height, spec_encode_rgba::<Rgf16, u8>(width, height, data)),
        ImageFormat::Rgba16Float => bytes_part(width, height, spec_encode_rgba::<Rgbaf16, u8>(width, height, data)),
        ImageFormat::R32Float => bytes_part(width, height, spec_encode_rgba::<Rf32, u8>(width, height, data)),
        ImageFormat::Rg32Float => bytes_part(width, height, spec_encode_rgba::<Rgf32, u8>(width, height, data)),
        ImageFormat::Rgb32Float => bytes_part(width, height, spec_encode_rgba::<Rgbf32, u8>(width, height, data)),
        ImageFormat::Rgba32Float => bytes_part(width, height, spec_encode_rgba::<Rgbaf32, u8>(width, height, data)),
        ImageFormat::Bgr5A1Unorm => bytes_part(width, height, spec_encode_rgba::<Bgr5A1, u8>(width, height, data)),
    }
}

/// Encode the `width` by `height` RGBA8 image `data` to `format`.
pub fn encode_rgba8_data(width: u32, height: u32, data: &[u8], format: ImageFormat, quality: Quality) -> (r: Result<
    EncodedPart,
    SurfaceError,
>)
    ensures
        match spec_encode_rgba8_data(width, height, data@, format, quality) {
            Ok(v) => r matches Ok(p) && p@ == v,
            Err(e) => r == Err::<EncodedPart, SurfaceError>(e),
        },
{
    reveal(spec_encode_rgba8_data);
    match format {
        ImageFormat::BC1RgbaUnorm => bcn_compression_input::<Bc1>(width, height, 1, data, quality),
        ImageFormat::BC1RgbaUnormSrgb => bcn_compression_input::<Bc1>(width, height, 1, data, quality),
        ImageFormat::BC2RgbaUnorm => bcn_compression_input::<Bc2>(width, height, 1, data, quality),
        ImageFormat::BC2RgbaUnormSrgb => bcn_compression_input::<Bc2>(width, height, 1, data, quality),
        ImageFormat::BC3RgbaUnorm => bcn_compression_input::<Bc3>(width, height, 1, data, quality),
        ImageFormat::BC3RgbaUnormSrgb => bcn_compression_input::<Bc3>(width, height, 1, data, quality),
        ImageFormat::BC4RUnorm => bcn_compression_input::<Bc4>(width, height, 1, data, quality),
        ImageFormat::BC4RSnorm => bcn_compression_input::<Bc4>(width, height, 1, data, quality),
        ImageFormat::BC5RgUnorm => bcn_compression_input::<Bc5>(width, height, 1, data, quality),
        ImageFormat::BC5RgSnorm => bcn_compression_input::<Bc5>(width, height, 1, data, quality),
        ImageFormat::BC6hRgbUfloat => bcn_compression_input::<Bc6>(width, height, 1, data, quality),
        ImageFormat::BC6hRgbSfloat => bcn_compression_input::<Bc6>(width, height, 1, data, quality),
        ImageFormat::BC7RgbaUnorm => bcn_compression_input::<Bc7>(width, height, 1, data, quality),
        ImageFormat::BC7RgbaUnormSrgb => bcn_compression_input::<Bc7>(width, height, 1, data, quality),
        ImageFormat::R8Unorm => bytes_part_exec(width, height, encode_rgba::<R8, u8>(width, height, data)),
        ImageFormat::R8Snorm => bytes_part_exec(width, height, encode_rgba::<R8Snorm, u8>(width, height, data)),
        ImageFormat::Rg8Unorm => bytes_part_exec(width, height, encode_rgba::<Rg8, u8>(width, height, data)),
        ImageFormat::Rg8Snorm => bytes_part_exec(width, height, encode_rgba::<Rg8Snorm, u8>(width, height, data)),
        ImageFormat::Rgba8Unorm => bytes_part_exec(width, height, encode_rgba::<Rgba8, u8>(width, height, data)),
        ImageFormat::Rgba8UnormSrgb => bytes_part_exec(width, height, encode_rgba::<Rgba8, u8>(width, height, data)),
        ImageFormat::Rgba8Snorm => bytes_part_exec(width, height, encode_rgba::<Rgba8Snorm, u8>(width, height, data)),
        ImageFormat::Bgra8Unorm => bytes_part_exec(width, height, encode_rgba::<Bgra8, u8>(width, height, data)),
        ImageFormat::Bgra8UnormSrgb => bytes_part_exec(width, height, encode_rgba::<Bgra8, u8>(width, height, data)),
        ImageFormat::Bgra4Unorm => bytes_part_exec(width, height, encode_rgba::<Bgra4, u8>(width, height, data)),
        ImageFormat::Bgr8Unorm => bytes_part_exec(width, height, encode_rgba::<Bgr8, u8>(width, height, data)),
        ImageFormat::R16Unorm => bytes_part_exec(width, height, encode_rgba::<R16, u8>(width, height, data)),
        ImageFormat::R16Snorm => bytes_part_exec(width, height, encode_rgba::<R16Snorm, u8>(width, height, data)),
        ImageFormat::Rg16Unorm => bytes_part_exec(width, height, encode_rgba::<Rg16, u8>(width, height, data)),
        ImageFormat::Rg16Snorm => bytes_part_exec(width, height, encode_rgba::<Rg16Snorm, u8>(width, height, data)),
        ImageFormat::Rgba16Unorm => bytes_part_exec(width, height, encode_rgba::<Rgba16, u8>(width, height, data)),
        ImageFormat::Rgba16Snorm => bytes_part_exec(width, height, encode_rgba::<Rgba16Snorm, u8>(width, height, data)),
        ImageFormat::R16Float => bytes_part_exec(width, height, encode_rgba::<Rf16, u8>(width, height, data)),
        ImageFormat::Rg16Float => bytes_part_exec(width, height, encode_rgba::<Rgf16, u8>(width, height, data)),
        ImageFormat::Rgba16Float => bytes_part_exec(width, height, encode_rgba::<Rgbaf16, u8>(width, height, data)),
        ImageFormat::R32Float => bytes_part_exec(width, height, encode_rgba::<Rf32, u8>(width, height, data)),
        ImageFormat::Rg32Float => bytes_part_exec(width, height, encode_rgba::<Rgf32, u8>(width, height, data)),
        ImageFormat::Rgb32Float => bytes_part_exec(width, height, encode_rgba::<Rgbf32, u8>(width, height, data)),
        ImageFormat::Rgba32Float => bytes_part_exec(width, height, encode_rgba::<Rgbaf32, u8>(width, height, data)),
        ImageFormat::Bgr5A1Unorm => bytes_part_exec(width, height, encode_rgba::<Bgr5A1, u8>(width, height, data)),
    }
}

/// Encode the `width` by `height` RGBA8 image `data` to the bytes of `format`: its pixels in
/// an uncompressed format, or the blocks that the compressor writes for a compressed one.
#[inline]
pub fn encode_rgba8_bytes(width: u32, height: u32, data: &[u8], format: ImageFormat, quality: Quality) -> (r: Result<
    Vec<u8>,
    SurfaceError,
>)
    ensures
        match spec_encode_rgba8_data(width, height, data@, format, quality) {
            Ok(p) => r matches Ok(bytes) && bytes@.len() == part_len(p) && (p.0 is None ==> bytes@ == p.3),
            Err(e) => r == Err::<Vec<u8>, SurfaceError>(e),
        },
{
    proof {
        crate::encoded_size::lemma_encoded_part_len(width, height, data@, format, quality);
    }
    match encode_rgba8_data(width, height, data, format, quality) {
        Err(e) => Err(e),
        Ok(part) => Ok(compress_part(&part)),
    }
}

/// The width, height, depth and RGBA8 data of a mipmap padded to whole blocks.
pub type MipView = (usize, usize, usize, Seq<u8>);

/// Whether the dimensions of `m` fit in `u32` and its data holds all of its pixels.
pub open spec fn mip_ok(m: MipView) -> bool {
    &&& m.0 <= u32::MAX
    &&& m.1 <= u32::MAX
    &&& m.2 <= u32::MAX
    &&& m.0 * m.1 * m.2 * 4 <= m.3.len()
}

/// A mipmap of a surface, padded to whole blocks.
pub struct MipData {
    pub width: usize,
    pub height: usize,
    pub depth: usize,
    pub data: Vec<u8>,
}

impl MipData {
    pub open spec fn view(&self) -> MipView {
        (self.width, self.height, self.depth, self.data@)
    }
}

/// The concatenated data of the first `n` depth slices of mipmap `mipmap` of array layer
/// `layer` of an RGBA8 surface, or `None` if one lies outside `data`.
pub open spec fn mip_slices(
    data: Seq<u8>,
    dimensions: (u32, u32, u32),
    mipmaps: u32,
    layer: u32,
    mipmap: u32,
    n: nat,
) -> Option<Seq<u8>> {
    layer_slices(data, dimensions, mipmaps, ImageFormat::Rgba8Unorm, layer, mipmap, 1, n)
}

/// Whether the size in bytes of a padded `width` x `height` x `depth` RGBA8 volume fits in `usize`.
pub open spec fn volume_fits(width: nat, height: nat, depth: nat) -> bool {
    &&& width * height <= usize::MAX
    &&& width * height * depth <= usize::MAX
    &&& width * height * depth * 4 <= usize::MAX
}

/// The outcome of reading all depth slices of mipmap `mipmap` of array layer `layer` of an
/// RGBA8 surface and padding them to whole blocks of `block_dimensions`.
#[verifier::opaque]
pub open spec fn spec_get_mipmap_data(
    data: Seq<u8>,
    dimensions: (u32, u32, u32),
    mipmaps: u32,
    layer: u32,
    mipmap: u32,
    block_dimensions: (u32, u32, u32),
) -> Result<MipView, SurfaceError> {
    let w = spec_mip_dimension(dimensions.0, mipmap);
    let h = spec_mip_dimension(dimensions.1, mipmap);
    let d = spec_mip_dimension(dimensions.2, mipmap);
    let (pw, ph, pd) = spec_physical_dimensions(w, h, d, block_dimensions);
    match mip_slices(data, dimensions, mipmaps, layer, mipmap, dimensions.2 as nat) {
        None => Err(SurfaceError::MipmapDataOutOfBounds { layer, mipmap }),
        Some(slices) => if !physical_dimensions_fit(w, h, d, block_dimensions) || !volume_fits(
            pw as nat,
            ph as nat,
            pd as nat,
        ) {
            Err(SurfaceError::PixelCountWouldOverflow { width: w, height: h, depth: d })
        } else if slices.len() < pw * ph * pd * 4 {
            Ok((pw, ph, pd, padded(slices, w as nat, h as nat, d as nat, pw as nat, ph as nat, pd as nat)))
        } else {
            Ok((pw, ph, pd, slices))
        },
    }
}

/// The outcome of generating mipmap `mipmap` of a surface with base `dimensions` from the
/// previous mipmap `prev`, padded to whole blocks of `block_dimensions`.
#[verifier::opaque]
pub open spec fn spec_downsample_mip(
    prev: MipView,
    dimensions: (u32, u32, u32),
    block_dimensions: (u32, u32, u32),
    mipmap: u32,
) -> Result<MipView, SurfaceError> {
    // Mip dimensions are the padded virtual size of the mipmap.
    let w = spec_mip_dimension(dimensions.0, mipmap);
    let h = spec_mip_dimension(dimensions.1, mipmap);
    let d = spec_mip_dimension(dimensions.2, mipmap);
    let (pw, ph, pd) = spec_physical_dimensions(w, h, d, block_dimensions);
    if !physical_dimensions_fit(w, h, d, block_dimensions) || !volume_fits(pw as nat, ph as nat, pd as nat) {
        Err(SurfaceError::PixelCountWouldOverflow { width: w, height: h, depth: d })
    } else {
        Ok((pw, ph, pd, downsampled(prev.3, prev.0 as nat, prev.1 as nat, prev.2 as nat, pw as nat, ph as nat, pd as nat)))
    }
}

/// The outcome of encoding the mipmap `m` to `format`, with its depth slices stacked vertically.
#[verifier::opaque]
pub open spec fn spec_encode_mip(m: MipView, format: ImageFormat, quality: Quality) -> Result<PartView, SurfaceError> {
    if m.1 * m.2 > u32::MAX {
        Err(SurfaceError::PixelCountWouldOverflow { width: m.0 as u32, height: m.1 as u32, depth: m.2 as u32 })
    } else {
        spec_encode_rgba8_data(m.0 as u32, (m.1 * m.2) as u32, m.3, format, quality)
    }
}

/// The outcome of producing mipmap `m` of array layer `layer`: read from the surface, or
/// generated from the previous mipmap.
pub open spec fn spec_mip_chain(
    data: Seq<u8>,
    dimensions: (u32, u32, u32),
    mipmaps: u32,
    layer: u32,
    block_dimensions: (u32, u32, u32),
    use_surface: bool,
    m: nat,
) -> Result<MipView, SurfaceError>
    decreases m,
{
    if m == 0 || use_surface {
        spec_get_mipmap_data(data, dimensions, mipmaps, layer, m as u32, block_dimensions)
    } else {
        match spec_mip_chain(data, dimensions, mipmaps, layer, block_dimensions, use_surface, (m - 1) as nat) {
            Err(e) => Err(e),
            Ok(prev) => spec_downsample_mip(prev, dimensions, block_dimensions, m as u32),
        }
    }
}

/// The outcome of encoding the first `n` mipmaps of array layer `layer`: the first error,
/// or the concatenated encoded mipmaps. There are at most 32 mip levels.
pub open spec fn spec_encode_mips(
    data: Seq<u8>,
    dimensions: (u32, u32, u32),
    mipmaps: u32,
    layer: u32,
    format: ImageFormat,
    quality: Quality,
    use_surface: bool,
    num_mipmaps: u32,
    n: nat,
) -> Result<Seq<PartView>, SurfaceError>
    decreases n,
{
    if n == 0 {
        Ok(Seq::empty())
    } else {
        match spec_encode_mips(data, dimensions, mipmaps, layer, format, quality, use_surface, num_mipmaps, (n - 1) as nat) {
            Err(e) => Err(e),
            Ok(acc) => if n - 1 >= 32 {
                Err(SurfaceError::UnexpectedMipmapCount { mipmaps: num_mipmaps, max_mipmaps: 32 })
            } else {
                match spec_mip_chain(
                    data,
                    dimensions,
                    mipmaps,
                    layer,
                    crate::format::spec_block_dimensions(format),
                    use_surface,
                    (n - 1) as nat,
                ) {
                    Err(e) => Err(e),
                    Ok(mip) => match spec_encode_mip(mip, format, quality) {
                        Err(e) => Err(e),
                        Ok(encoded) => Ok(acc.push(encoded)),
                    },
                }
            },
        }
    }
}

/// The number of mip levels encoded for each layer: the base level and the further levels
/// up to `num_mipmaps`.
pub open spec fn levels_encoded(num_mipmaps: u32) -> nat {
    if num_mipmaps > 1 { num_mipmaps as nat } else { 1 }
}

/// The outcome of encoding the first `n` array layers.
pub open spec fn spec_encode_layers(
    data: Seq<u8>,
    dimensions: (u32, u32, u32),
    mipmaps: u32,
    format: ImageFormat,
    quality: Quality,
    use_surface: bool,
    num_mipmaps: u32,
    n: nat,
) -> Result<Seq<PartView>, SurfaceError>
    decreases n,
{
    if n == 0 {
        Ok(Seq::empty())
    } else {
        match spec_encode_layers(data, dimensions, mipmaps, format, quality, use_surface, num_mipmaps, (n - 1) as nat) {
            Err(e) => Err(e),
            Ok(acc) => match spec_encode_mips(
                data,
                dimensions,
                mipmaps,
                (n - 1) as u32,
                format,
                quality,
                use_surface,
                num_mipmaps,
                levels_encoded(num_mipmaps),
            ) {
                Err(e) => Err(e),
                Ok(layer) => Ok(acc + layer),
            },
        }
    }
}

/// The number of mipmaps of the encoded surface; an exact count of 0 or 1 gives 1.
pub open spec fn spec_num_mipmaps(mipmaps: Mipmaps, surface_mipmaps: u32, dimensions: (u32, u32, u32)) -> u32 {
    match mipmaps {
        Mipmaps::Disabled => 1,
        Mipmaps::FromSurface => surface_mipmaps,
        Mipmaps::GeneratedExact(count) => if count > 1 { count } else { 1 },
        Mipmaps::GeneratedAutomatic => bit_length(max3(dimensions.0, dimensions.1, dimensions.2) as nat) as u32,
    }
}

/// The number of mipmaps of a surface encoded with `mipmaps` from a surface with base
/// `dimensions` and `surface_mipmaps` mipmaps.
pub fn num_mipmaps(mipmaps: Mipmaps, surface_mipmaps: u32, dimensions: (u32, u32, u32)) -> (r: u32)
    ensures
        r == spec_num_mipmaps(mipmaps, surface_mipmaps, dimensions),
{
    match mipmaps {
        Mipmaps::Disabled => 1,
        Mipmaps::FromSurface => surface_mipmaps,
        // A count of 0 or 1 is equivalent to disabling mipmaps.
        Mipmaps::GeneratedExact(count) => if count > 1 { count } else { 1 },
        Mipmaps::GeneratedAutomatic => {
            let wh = if dimensions.0 >= dimensions.1 { dimensions.0 } else { dimensions.1 };
            let whd = if wh >= dimensions.2 { wh } else { dimensions.2 };
            max_mipmap_count(whd)
        },
    }
}

/// `x` rounded up to a multiple of `b`, if that fits in `u32`.
fn checked_round_up(x: u32, b: u32) -> (r: Option<u32>)
    requires
        b > 0,
    ensures
        r == if round_up(x as nat, b as nat) <= u32::MAX {
            Some(round_up(x as nat, b as nat) as u32)
        } else {
            None::<u32>
        },
{
    let q = x / b;
    proof {
        vstd::arithmetic::div_mod::lemma_fundamental_div_mod(x as int, b as int);
    }
    let blocks: u64 = if x % b == 0 { q as u64 } else { q as u64 + 1 };
    assert(blocks * b <= x + b) by (nonlinear_arith)
        requires
            blocks <= q + 1,
            q * b <= x,
            b > 0,
    ;
    let r: u64 = blocks * b as u64;
    if r <= u32::MAX as u64 {
        Some(r as u32)
    } else {
        None
    }
}

/// The dimensions of mipmap `mipmap` of a surface with base `dimensions` padded to whole
/// blocks, or the error for a padded RGBA volume of 4 channels whose channel count does not
/// fit in `usize`.
pub fn padded_mip_dimensions(
    dimensions: (u32, u32, u32),
    mipmap: u32,
    block_dimensions: (u32, u32, u32),
) -> (r: Result<(usize, usize, usize), SurfaceError>)
    requires
        mipmap < 32,
        block_dimensions.0 > 0,
        block_dimensions.1 > 0,
        block_dimensions.2 > 0,
    ensures
        ({
            let w = spec_mip_dimension(dimensions.0, mipmap);
            let h = spec_mip_dimension(dimensions.1, mipmap);
            let d = spec_mip_dimension(dimensions.2, mipmap);
            let (pw, ph, pd) = spec_physical_dimensions(w, h, d, block_dimensions);
            if !physical_dimensions_fit(w, h, d, block_dimensions) || !volume_fits(
                pw as nat,
                ph as nat,
                pd as nat,
            ) {
                r == Err::<(usize, usize, usize), SurfaceError>(
                    SurfaceError::PixelCountWouldOverflow { width: w, height: h, depth: d },
                )
            } else {
                r == Ok::<(usize, usize, usize), SurfaceError>((pw, ph, pd))
            }
        }),
{
    let w = mip_dimension(dimensions.0, mipmap);
    let h = mip_dimension(dimensions.1, mipmap);
    let d = mip_dimension(dimensions.2, mipmap);
    let overflow = SurfaceError::PixelCountWouldOverflow { width: w, height: h, depth: d };
    if checked_round_up(w, block_dimensions.0).is_none() || checked_round_up(h, block_dimensions.1).is_none()
        || checked_round_up(d, block_dimensions.2).is_none() {
        return Err(overflow);
    }
    let (pw, ph, pd) = physical_dimensions(w, h, d, block_dimensions);
    let size = match pw.checked_mul(ph) {
        None => None,
        Some(wh) => match wh.checked_mul(pd) {
            None => None,
            Some(whd) => whd.checked_mul(4),
        },
    };
    match size {
        None => Err(overflow),
        Some(_) => Ok((pw, ph, pd)),
    }
}

/// Rounding up to a multiple never makes a value smaller.
proof fn lemma_round_up_ge(x: nat, b: nat)
    requires
        b > 0,
    ensures
        x <= round_up(x, b),
{
    let q = x / b;
    let r = x % b;
    vstd::arithmetic::div_mod::lemma_fundamental_div_mod(x as int, b as int);
    assert(x <= div_ceil(x, b) * b) by (nonlinear_arith)
        requires
            x == b * q + r,
            0 <= r < b,
            div_ceil(x, b) == if r == 0 { q } else { q + 1 },
    ;
}

/// Each depth slice of an RGBA8 mipmap holds 4 bytes for each of its pixels.
proof fn lemma_mip_slices_len(
    data: Seq<u8>,
    dimensions: (u32, u32, u32),
    mipmaps: u32,
    layer: u32,
    mipmap: u32,
    n: nat,
)
    ensures
        mip_slices(data, dimensions, mipmaps, layer, mipmap, n) matches Some(s) ==> s.len() == n * (
        spec_mip_dimension(dimensions.0, mipmap) * spec_mip_dimension(dimensions.1, mipmap) * 4),
    decreases n,
{
    if n > 0 {
        lemma_mip_slices_len(data, dimensions, mipmaps, layer, mipmap, (n - 1) as nat);
        let w = spec_mip_dimension(dimensions.0, mipmap);
        let h = spec_mip_dimension(dimensions.1, mipmap);
        assert(div_ceil(w as nat, 1) == w);
        assert(div_ceil(h as nat, 1) == h);
        assert(div_ceil(1, 1) == 1);
        assert(crate::format::spec_block_dimensions(ImageFormat::Rgba8Unorm) == (1u32, 1u32, 1u32));
        assert(crate::format::spec_block_size_in_bytes(ImageFormat::Rgba8Unorm) == 4);
        match spec_mipmap_range(data.len(), dimensions, mipmaps, ImageFormat::Rgba8Unorm, layer, (n - 1) as u32, mipmap, 1) {
            Some((start, end)) => {
                assert(w * h * 1 * 4 == w * h * 4) by (nonlinear_arith);
                assert(0 <= start <= end <= data.len());
                assert(end - start == w * h * 4);
                if let Some(acc) = mip_slices(data, dimensions, mipmaps, layer, mipmap, (n - 1) as nat) {
                    assert(mip_slices(data, dimensions, mipmaps, layer, mipmap, n) == Some(acc + data.subrange(start, end)));
                    assert(acc.len() == (n - 1) * (w * h * 4));
                    assert((n - 1) * (w * h * 4) + w * h * 4 == n * (w * h * 4)) by (nonlinear_arith);
                    assert((acc + data.subrange(start, end)).len() == n * (w * h * 4));
                }
            },
            None => {},
        }
    } else {
        let x = spec_mip_dimension(dimensions.0, mipmap) * spec_mip_dimension(dimensions.1, mipmap) * 4;
        assert(n * x == 0) by (nonlinear_arith)
            requires
                n == 0,
        ;
    }
}

/// Read all depth slices of mipmap `mipmap` of array layer `layer` and pad them to whole
/// blocks of `block_dimensions`.
fn get_mipmap_data<T: AsElements<u8>>(
    surface: &SurfaceRgba8<T>,
    layer: u32,
    mipmap: u32,
    block_dimensions: (u32, u32, u32),
) -> (r: Result<MipData, SurfaceError>)
    requires
        mipmap < 32,
        surface.mipmaps <= 32,
        surface.depth >= 1,
        block_dimensions.0 > 0,
        block_dimensions.1 > 0,
        block_dimensions.2 > 0,
    ensures
        match spec_get_mipmap_data(
            surface.data.spec_elements(),
            (surface.width, surface.height, surface.depth),
            surface.mipmaps,
            layer,
            mipmap,
            block_dimensions,
        ) {
            Ok(v) => r matches Ok(m) && m.view() == v,
            Err(e) => r is Err && r->Err_0 == e,
        },
        r matches Ok(m) ==> mip_ok(m.view()),
{
    reveal(spec_get_mipmap_data);
    let ghost elements = surface.data.spec_elements();
    let ghost dimensions = (surface.width, surface.height, surface.depth);
    let mip_width = mip_dimension(surface.width, mipmap);
    let mip_height = mip_dimension(surface.height, mipmap);
    let mip_depth = mip_dimension(surface.depth, mipmap);
    let data = match layer_mip_slices(
        surface.data.elements(),
        (surface.width, surface.height, surface.depth),
        surface.mipmaps,
        ImageFormat::Rgba8Unorm,
        layer,
        mipmap,
        1,
    ) {
        None => return Err(SurfaceError::MipmapDataOutOfBounds { layer, mipmap }),
        Some(d) => d,
    };
    let (width, height, depth) = padded_mip_dimensions(
        (surface.width, surface.height, surface.depth),
        mipmap,
        block_dimensions,
    )?;
    proof {
        lemma_mip_slices_len(elements, dimensions, surface.mipmaps, layer, mipmap, surface.depth as nat);
        let (w, h, d) = (mip_width as nat, mip_height as nat, mip_depth as nat);
        assert(w * h * d * 4 <= surface.depth * (w * h * 4)) by (nonlinear_arith)
            requires
                d <= surface.depth,
        ;
        lemma_round_up_ge(w, block_dimensions.0 as nat);
        lemma_round_up_ge(h, block_dimensions.1 as nat);
        lemma_round_up_ge(d, block_dimensions.2 as nat);
    }
    let padded_data = pad_mipmap_rgba(
        mip_width as usize,
        mip_height as usize,
        mip_depth as usize,
        width,
        height,
        depth,
        data.as_slice(),
    );
    Ok(MipData { width, height, depth, data: padded_data })
}

impl MipData {
    /// Generate mipmap `mipmap` of a surface with the given base dimensions from this
    /// mipmap, the one before it, padded to whole blocks of `block_dimensions`.
    fn downsample(
        &self,
        base_width: u32,
        base_height: u32,
        base_depth: u32,
        block_dimensions: (u32, u32, u32),
        mipmap: u32,
    ) -> (r: Result<MipData, SurfaceError>)
        requires
            mip_ok(self.view()),
            mipmap < 32,
            block_dimensions.0 > 0,
            block_dimensions.1 > 0,
            block_dimensions.2 > 0,
        ensures
            match spec_downsample_mip(self.view(), (base_width, base_height, base_depth), block_dimensions, mipmap) {
                Ok(v) => r matches Ok(m) && m.view() == v,
                Err(e) => r is Err && r->Err_0 == e,
            },
            r matches Ok(m) ==> mip_ok(m.view()),
    {
        reveal(spec_downsample_mip);
        // Mip dimensions are the padded virtual size of the mipmap.
        // Padding the physical size of the previous mip produces incorrect results.
        let (width, height, depth) = padded_mip_dimensions(
            (base_width, base_height, base_depth),
            mipmap,
            block_dimensions,
        )?;
        // The data is already padded.
        let data = downsample_rgba(width, height, depth, self.width, self.height, self.depth, self.data.as_slice());
        Ok(MipData { width, height, depth, data })
    }

    /// Encode this mipmap to `format`, with its depth slices stacked vertically.
    fn encode(&self, format: ImageFormat, quality: Quality) -> (r: Result<EncodedPart, SurfaceError>)
        requires
            mip_ok(self.view()),
        ensures
            match spec_encode_mip(self.view(), format, quality) {
                Ok(v) => r matches Ok(p) && p@ == v,
                Err(e) => r == Err::<EncodedPart, SurfaceError>(e),
            },
    {
        reveal(spec_encode_mip);
        assert(self.height * self.depth <= u32::MAX * u32::MAX) by (nonlinear_arith)
            requires
                self.height <= u32::MAX,
                self.depth <= u32::MAX,
        ;
        let rows = self.height as u64 * self.depth as u64;
        if rows > u32::MAX as u64 {
            return Err(SurfaceError::PixelCountWouldOverflow {
                width: self.width as u32,
                height: self.height as u32,
                depth: self.depth as u32,
            });
        }
        encode_rgba8_data(self.width as u32, rows as u32, self.data.as_slice(), format, quality)
    }
}

/// Once encoding a run of mipmaps fails, encoding a longer run fails with the same error.
proof fn lemma_encode_mips_err(
    data: Seq<u8>,
    dimensions: (u32, u32, u32),
    mipmaps: u32,
    layer: u32,
    format: ImageFormat,
    quality: Quality,
    use_surface: bool,
    num_mipmaps: u32,
    k: nat,
    m: nat,
)
    requires
        k <= m,
        spec_encode_mips(data, dimensions, mipmaps, layer, format, quality, use_surface, num_mipmaps, k) is Err,
    ensures
        spec_encode_mips(data, dimensions, mipmaps, layer, format, quality, use_surface, num_mipmaps, m)
            == spec_encode_mips(data, dimensions, mipmaps, layer, format, quality, use_surface, num_mipmaps, k),
    decreases m - k,
{
    if k < m {
        lemma_encode_mips_err(data, dimensions, mipmaps, layer, format, quality, use_surface, num_mipmaps, k, (m - 1) as nat);
    }
}

/// Once encoding a run of array layers fails, encoding more layers fails with the same error.
proof fn lemma_encode_layers_err(
    data: Seq<u8>,
    dimensions: (u32, u32, u32),
    mipmaps: u32,
    format: ImageFormat,
    quality: Quality,
    use_surface: bool,
    num_mipmaps: u32,
    k: nat,
    m: nat,
)
    requires
        k <= m,
        spec_encode_layers(data, dimensions, mipmaps, format, quality, use_surface, num_mipmaps, k) is Err,
    ensures
        spec_encode_layers(data, dimensions, mipmaps, format, quality, use_surface, num_mipmaps, m)
            == spec_encode_layers(data, dimensions, mipmaps, format, quality, use_surface, num_mipmaps, k),
    decreases m - k,
{
    if k < m {
        lemma_encode_layers_err(data, dimensions, mipmaps, format, quality, use_surface, num_mipmaps, k, (m - 1) as nat);
    }
}

/// The views of the parts `parts`.
pub open spec fn part_views(parts: Seq<EncodedPart>) -> Seq<PartView> {
    parts.map_values(|p: EncodedPart| p@)
}

/// Encode the mipmaps of array layer `layer` and append them to `surface_data`.
/// Mipmaps are read from the surface if `use_surface` is set, and generated from the
/// base level otherwise.
fn encode_mipmaps_rgba<T: AsElements<u8>>(
    surface_data: &mut Vec<EncodedPart>,
    surface: &SurfaceRgba8<T>,
    format: ImageFormat,
    quality: Quality,
    num_mipmaps: u32,
    use_surface: bool,
    layer: u32,
) -> (r: Result<(), SurfaceError>)
    requires
        surface.mipmaps <= 32,
        surface.depth >= 1,
    ensures
        match spec_encode_mips(
            surface.data.spec_elements(),
            (surface.width, surface.height, surface.depth),
            surface.mipmaps,
            layer,
            format,
            quality,
            use_surface,
            num_mipmaps,
            levels_encoded(num_mipmaps),
        ) {
            Ok(v) => r is Ok && part_views(final(surface_data)@) == part_views(old(surface_data)@) + v,
            Err(e) => r == Err::<(), SurfaceError>(e),
        },
{
    let ghost elements = surface.data.spec_elements();
    let ghost dimensions = (surface.width, surface.height, surface.depth);
    let block_dimensions = format.block_dimensions();
    let levels: u32 = if num_mipmaps > 1 { num_mipmaps } else { 1 };
    assert(spec_encode_mips(elements, dimensions, surface.mipmaps, layer, format, quality, use_surface, num_mipmaps, 0)
        == Ok::<Seq<PartView>, SurfaceError>(Seq::empty()));
    assert(spec_mip_chain(elements, dimensions, surface.mipmaps, layer, block_dimensions, use_surface, 0)
        == spec_get_mipmap_data(elements, dimensions, surface.mipmaps, layer, 0, block_dimensions));
    // Track the previous image data and dimensions.
    // This enables generating mipmaps from a single base layer.
    let mut mip_data = match get_mipmap_data(surface, layer, 0, block_dimensions) {
        Err(e) => {
            proof {
                lemma_encode_mips_err(elements, dimensions, surface.mipmaps, layer, format, quality, use_surface, num_mipmaps, 1, levels as nat);
            }
            return Err(e);
        },
        Ok(m) => m,
    };
    let encoded = match mip_data.encode(format, quality) {
        Err(e) => {
            proof {
                lemma_encode_mips_err(elements, dimensions, surface.mipmaps, layer, format, quality, use_surface, num_mipmaps, 1, levels as nat);
            }
            return Err(e);
        },
        Ok(encoded) => encoded,
    };
    let mut layer_data: Vec<EncodedPart> = Vec::new();
    layer_data.push(encoded);
    assert(part_views(layer_data@) =~= Seq::<PartView>::empty().push(encoded@));
    let mut mipmap: u32 = 1;
    while mipmap < levels
        invariant
            1 <= mipmap <= levels,
            levels == levels_encoded(num_mipmaps),
            mipmap - 1 < 32,
            surface.mipmaps <= 32,
            surface.depth >= 1,
            elements == surface.data.spec_elements(),
            dimensions == (surface.width, surface.height, surface.depth),
            block_dimensions == crate::format::spec_block_dimensions(format),
            block_dimensions.0 > 0 && block_dimensions.1 > 0 && block_dimensions.2 > 0,
            spec_encode_mips(elements, dimensions, surface.mipmaps, layer, format, quality, use_surface, num_mipmaps, mipmap as nat)
                == Ok::<Seq<PartView>, SurfaceError>(part_views(layer_data@)),
            spec_mip_chain(elements, dimensions, surface.mipmaps, layer, block_dimensions, use_surface, (mipmap - 1) as nat)
                == Ok::<MipView, SurfaceError>(mip_data.view()),
            mip_ok(mip_data.view()),
        decreases levels - mipmap,
    {
        if mipmap >= 32 {
            proof {
                lemma_encode_mips_err(elements, dimensions, surface.mipmaps, layer, format, quality, use_surface, num_mipmaps, (mipmap + 1) as nat, levels as nat);
            }
            return Err(SurfaceError::UnexpectedMipmapCount { mipmaps: num_mipmaps, max_mipmaps: 32 });
        }
        let next = if use_surface {
            get_mipmap_data(surface, layer, mipmap, block_dimensions)
        } else {
            mip_data.downsample(surface.width, surface.height, surface.depth, block_dimensions, mipmap)
        };
        mip_data = match next {
            Err(e) => {
                proof {
                    lemma_encode_mips_err(elements, dimensions, surface.mipmaps, layer, format, quality, use_surface, num_mipmaps, (mipmap + 1) as nat, levels as nat);
                }
                return Err(e);
            },
            Ok(m) => m,
        };
        let encoded = match mip_data.encode(format, quality) {
            Err(e) => {
                proof {
                    lemma_encode_mips_err(elements, dimensions, surface.mipmaps, layer, format, quality, use_surface, num_mipmaps, (mipmap + 1) as nat, levels as nat);
                }
                return Err(e);
            },
            Ok(encoded) => encoded,
        };
        let ghost before = layer_data@;
        layer_data.push(encoded);
        assert(part_views(layer_data@) =~= part_views(before).push(encoded@));
        mipmap += 1;
    }
    let ghost start = surface_data@;
    let ghost added = layer_data@;
    surface_data.append(&mut layer_data);
    assert(part_views(surface_data@) =~= part_views(start) + part_views(added));
    Ok(())
}

/// The encoded data of a surface: its dimensions, layers, mipmaps and format, and the
/// encoded parts of its mipmaps ordered by layer and then mipmap. Each part is the data of
/// one mipmap, or the input of the block compressor that writes it.
#[derive(Debug, PartialEq, Eq, Clone)]
pub struct EncodePlan {
    pub width: u32,
    pub height: u32,
    pub depth: u32,
    pub layers: u32,
    pub mipmaps: u32,
    pub image_format: ImageFormat,
    pub parts: Vec<EncodedPart>,
}

/// Encode every array layer of a validated surface.
fn encode_surface<T: AsElements<u8>>(
    surface: &SurfaceRgba8<T>,
    format: ImageFormat,
    quality: Quality,
    mipmaps: Mipmaps,
) -> (r: Result<EncodePlan, SurfaceError>)
    requires
        surface.mipmaps <= 32,
        surface.depth >= 1,
    ensures
        ({
            let dimensions = (surface.width, surface.height, surface.depth);
            let num_mipmaps = spec_num_mipmaps(mipmaps, surface.mipmaps, dimensions);
            match spec_encode_layers(
                surface.data.spec_elements(),
                dimensions,
                surface.mipmaps,
                format,
                quality,
                mipmaps == Mipmaps::FromSurface,
                num_mipmaps,
                surface.layers as nat,
            ) {
                Ok(v) => r matches Ok(s) && s.width == surface.width && s.height == surface.height
                    && s.depth == surface.depth && s.layers == surface.layers && s.mipmaps == num_mipmaps
                    && s.image_format == format && part_views(s.parts@) == v,
                Err(e) => r is Err && r->Err_0 == e,
            }
        }),
{
    let ghost elements = surface.data.spec_elements();
    let ghost dimensions = (surface.width, surface.height, surface.depth);
    let num_mipmaps = num_mipmaps(mipmaps, surface.mipmaps, (surface.width, surface.height, surface.depth));
    let use_surface = match mipmaps {
        Mipmaps::FromSurface => true,
        _ => false,
    };
    let mut surface_data: Vec<EncodedPart> = Vec::new();
    assert(part_views(surface_data@) =~= Seq::<PartView>::empty());
    let mut layer: u32 = 0;
    while layer < surface.layers
        invariant
            layer <= surface.layers,
            surface.mipmaps <= 32,
            surface.depth >= 1,
            elements == surface.data.spec_elements(),
            dimensions == (surface.width, surface.height, surface.depth),
            use_surface == (mipmaps == Mipmaps::FromSurface),
            num_mipmaps == spec_num_mipmaps(mipmaps, surface.mipmaps, dimensions),
            spec_encode_layers(elements, dimensions, surface.mipmaps, format, quality, use_surface, num_mipmaps, layer as nat)
                == Ok::<Seq<PartView>, SurfaceError>(part_views(surface_data@)),
        decreases surface.layers - layer,
    {
        // Encode 2D or 3D data for this layer.
        match encode_mipmaps_rgba(&mut surface_data, surface, format, quality, num_mipmaps, use_surface, layer) {
            Err(e) => {
                proof {
                    lemma_encode_layers_err(elements, dimensions, surface.mipmaps, format, quality, use_surface, num_mipmaps, (layer + 1) as nat, surface.layers as nat);
                }
                return Err(e);
            },
            Ok(()) => {},
        }
        layer += 1;
    }
    Ok(EncodePlan {
        width: surface.width,
        height: surface.height,
        depth: surface.depth,
        layers: surface.layers,
        mipmaps: num_mipmaps,
        image_format: format,
        parts: surface_data,
    })
}

/// The outcome of encoding an RGBA8 surface to `format`: the mipmap count of the encoded
/// surface and its encoded parts, or the first error.
pub open spec fn spec_encode_surface(
    data: Seq<u8>,
    dimensions: (u32, u32, u32),
    layers: u32,
    surface_mipmaps: u32,
    format: ImageFormat,
    quality: Quality,
    mipmaps: Mipmaps,
) -> Result<(u32, Seq<PartView>), SurfaceError> {
    match spec_validate(dimensions.0, dimensions.1, dimensions.2, surface_mipmaps, ImageFormat::Rgba8Unorm, data.len()) {
        Err(e) => Err(e),
        Ok(_) => {
            let num_mipmaps = spec_num_mipmaps(mipmaps, surface_mipmaps, dimensions);
            match spec_encode_layers(
                data,
                dimensions,
                surface_mipmaps,
                format,
                quality,
                mipmaps == Mipmaps::FromSurface,
                num_mipmaps,
                layers as nat,
            ) {
                Err(e) => Err(e),
                Ok(v) => Ok((num_mipmaps, v)),
            }
        },
    }
}

impl<T: AsElements<u8>> SurfaceRgba8<T> {
    /// Encode an RGBA8 surface to the given `format`: the data of each mipmap in an
    /// uncompressed format, or the input of the block compressor for a compressed format.
    ///
    /// The number of mipmaps generated depends on the `mipmaps` parameter.
    pub fn encode_plan(&self, format: ImageFormat, quality: Quality, mipmaps: Mipmaps) -> (r: Result<
        EncodePlan,
        SurfaceError,
    >)
        ensures
            match spec_encode_surface(
                self.data.spec_elements(),
                (self.width, self.height, self.depth),
                self.layers,
                self.mipmaps,
                format,
                quality,
                mipmaps,
            ) {
                Ok((num_mipmaps, v)) => r matches Ok(s) && s.width == self.width && s.height == self.height
                    && s.depth == self.depth && s.layers == self.layers && s.mipmaps == num_mipmaps
                    && s.image_format == format && part_views(s.parts@) == v,
                Err(e) => r is Err && r->Err_0 == e,
            },
    {
        self.validate()?;
        proof {
            vstd::arithmetic::power2::lemma2_to64();
            crate::layout::lemma_bit_length_bound(max3(self.width, self.height, self.depth) as nat, 32);
        }
        encode_surface(self, format, quality, mipmaps)
    }
}

/// Whether `data` holds the encoded bytes of `parts` laid end to end: each part takes as
/// many bytes as it stands for once encoded, and a part that needs no compressor takes its
/// own bytes.
pub open spec fn assembled(data: Seq<u8>, parts: Seq<PartView>) -> bool
    decreases parts.len(),
{
    if parts.len() == 0 {
        data.len() == 0
    } else {
        let last = parts.last();
        let n = part_len(last);
        &&& n <= data.len()
        &&& (last.0 is None ==> data.subrange(data.len() - n, data.len() as int) == last.3)
        &&& assembled(data.subrange(0, data.len() - n), parts.drop_last())
    }
}

impl<T: AsElements<u8>> SurfaceRgba8<T> {
    /// Encode an RGBA8 surface to the given `format`: the parts of `encode_plan`, each
    /// compressed where its format is block compressed, laid end to end.
    ///
    /// The number of mipmaps generated depends on the `mipmaps` parameter.
    pub fn encode(&self, format: ImageFormat, quality: Quality, mipmaps: Mipmaps) -> (r: Result<
        Surface<Vec<u8>>,
        SurfaceError,
    >)
        ensures
            match spec_encode_surface(
                self.data.spec_elements(),
                (self.width, self.height, self.depth),
                self.layers,
                self.mipmaps,
                format,
                quality,
                mipmaps,
            ) {
                Ok((num_mipmaps, v)) => r matches Ok(s) && s.width == self.width && s.height == self.height
                    && s.depth == self.depth && s.layers == self.layers && s.mipmaps == num_mipmaps
                    && s.image_format == format && assembled(s.data@, v),
                Err(e) => r is Err && r->Err_0 == e,
            },
    {
        let plan = match self.encode_plan(format, quality, mipmaps) {
            Err(e) => return Err(e),
            Ok(p) => p,
        };
        let ghost v = part_views(plan.parts@);
        proof {
            crate::encoded_size::lemma_encoded_surface_layout(
                self.data.spec_elements(),
                (self.width, self.height, self.depth),
                self.layers,
                self.mipmaps,
                format,
                quality,
                mipmaps,
            );
            assert(v.take(0) =~= Seq::<PartView>::empty());
        }
        let mut data: Vec<u8> = Vec::new();
        let mut i: usize = 0;
        while i < plan.parts.len()
            invariant
                i <= plan.parts@.len(),
                v == part_views(plan.parts@),
                forall|k: int| 0 <= k < v.len() ==> #[trigger] compressor_input(v[k]),
                assembled(data@, v.take(i as int)),
            decreases plan.parts@.len() - i,
        {
            assert(v[i as int] == plan.parts@[i as int]@);
            let mut bytes = compress_part(&plan.parts[i]);
            let ghost before = data@;
            let ghost piece = bytes@;
            data.append(&mut bytes);
            proof {
                let t = v.take(i + 1);
                let n = part_len(v[i as int]);
                assert(t.last() == v[i as int]);
                assert(t.drop_last() =~= v.take(i as int));
                assert(data@.subrange(0, data@.len() - n) =~= before);
                assert(data@.subrange(data@.len() - n, data@.len() as int) =~= piece);
            }
            i += 1;
        }
        proof {
            assert(v.take(plan.parts@.len() as int) =~= v);
        }
        Ok(Surface {
            width: plan.width,
            height: plan.height,
            depth: plan.depth,
            layers: plan.layers,
            mipmaps: plan.mipmaps,
            image_format: plan.image_format,
            data,
        })
    }
}

} // verus!
