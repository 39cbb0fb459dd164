//! Decoding of surfaces in any format to RGBA8.
use vstd::prelude::*;
use std::ops::Range;
use crate::bc45::{bc4_rows, bc5_rows, channel_texels};
use crate::bcn::{Bc1, Bc2, Bc3, Bc4, Bc4S, Bc5, Bc5S, Bc6, Bc7, decode_bcn, lemma_pixel_index, pixel_index, spec_decode_bcn};
use crate::error::SurfaceError;
use crate::format::ImageFormat;
use crate::layout::{div_ceil, mip_dimension, spec_mip_dimension};
use crate::rgba::{decode_rgba, spec_decode_rgba, Bgr5A1, Bgr8, Bgra4, Bgra8, R16, R16Snorm, R8, R8Snorm, Rf16, Rf32, Rg16, Rg16Snorm, Rg8, Rg8Snorm, Rgba16, Rgba16Snorm, Rgba8, Rgba8Snorm, Rgbaf16, Rgbaf32, Rgbf32, Rgf16, Rgf32};
use crate::surface::{spec_mipmap_range, spec_validate, AsElements, Surface, SurfaceRgba8};

verus! {

/// The outcome of decoding the `width` by `height` image `data` in `format` to RGBA8.
pub open spec fn spec_decode_rgba8_data(width: u32, height: u32, format: ImageFormat, data: Seq<u8>) -> Result<
    Seq<u8>,
    SurfaceError,
> {
    match format {
        ImageFormat::BC1RgbaUnorm => spec_decode_bcn::<Bc1>(width, height, data),
        ImageFormat::BC1RgbaUnormSrgb => spec_decode_bcn::<Bc1>(width, height, data),
        ImageFormat::BC2RgbaUnorm => spec_decode_bcn::<Bc2>(width, height, data),
        ImageFormat::BC2RgbaUnormSrgb => spec_decode_bcn::<Bc2>(width, height, data),
        ImageFormat::BC3RgbaUnorm => spec_decode_bcn::<Bc3>(width, height, data),
        ImageFormat::BC3RgbaUnormSrgb => spec_decode_bcn::<Bc3>(width, height, data),
        ImageFormat::BC4RUnorm => spec_decode_bcn::<Bc4>(width, height, data),
        ImageFormat::BC4RSnorm => spec_decode_bcn::<Bc4S>(width, height, data),
        ImageFormat::BC5RgUnorm => spec_decode_bcn::<Bc5>(width, height, data),
        ImageFormat::BC5RgSnorm => spec_decode_bcn::<Bc5S>(width, height, data),
        ImageFormat::BC6hRgbUfloat => spec_decode_bcn::<Bc6>(width, height, data),
        ImageFormat::BC6hRgbSfloat => spec_decode_bcn::<Bc6>(width, height, data),
        ImageFormat::BC7RgbaUnorm => spec_decode_bcn::<Bc7>(width, height, data),
        ImageFormat::BC7RgbaUnormSrgb => spec_decode_bcn::<Bc7>(width, height, data),
        ImageFormat::R8Unorm => spec_decode_rgba::<R8, u8>(width, height, data),
        ImageFormat::R8Snorm => spec_decode_rgba::<R8Snorm, u8>(width, height, data),
        ImageFormat::Rg8Unorm => spec_decode_rgba::<Rg8, u8>(width, height, data),
        ImageFormat::Rg8Snorm => spec_decode_rgba::<Rg8Snorm, u8>(width, height, data),
        ImageFormat::Rgba8Unorm => spec_decode_rgba::<Rgba8, u8>(width, height, data),
        ImageFormat::Rgba8UnormSrgb => spec_decode_rgba::<Rgba8, u8>(width, height, data),
        ImageFormat::Rgba16Float => spec_decode_rgba::<Rgbaf16, u8>(width, height, data),
        ImageFormat::Rgba32Float => spec_decode_rgba::<Rgbaf32, u8>(width, height, data),
        ImageFormat::Bgra8Unorm => spec_decode_rgba::<Bgra8, u8>(width, height, data),
        ImageFormat::Bgra8UnormSrgb => spec_decode_rgba::<Bgra8, u8>(width, height, data),
        ImageFormat::Rgba8Snorm => spec_decode_rgba::<Rgba8Snorm, u8>(width, height, data),
        ImageFormat::Bgra4Unorm => spec_decode_rgba::<Bgra4, u8>(width, height, data),
        ImageFormat::Bgr8Unorm => spec_decode_rgba::<Bgr8, u8>(width, height, data),
        ImageFormat::R16Unorm => spec_decode_rgba::<R16, u8>(width, height, data),
        ImageFormat::R16Snorm => spec_decode_rgba::<R16Snorm, u8>(width, height, data),
        ImageFormat::Rg16Unorm => spec_decode_rgba::<Rg16, u8>(width, height, data),
        ImageFormat::Rg16Snorm => spec_decode_rgba::<Rg16Snorm, u8>(width, height, data),
        ImageFormat::Rgba16Unorm => spec_decode_rgba::<Rgba16, u8>(width, height, data),
        ImageFormat::Rgba16Snorm => spec_decode_rgba::<Rgba16Snorm, u8>(width, height, data),
        ImageFormat::Rg16Float => spec_decode_rgba::<Rgf16, u8>(width, height, data),
        ImageFormat::Rg32Float => spec_decode_rgba::<Rgf32, u8>(width, height, data),
        ImageFormat::R16Float => spec_decode_rgba::<Rf16, u8>(width, height, data),
        ImageFormat::R32Float => spec_decode_rgba::<Rf32, u8>(width, height, data),
        ImageFormat::Rgb32Float => spec_decode_rgba::<Rgbf32, u8>(width, height, data),
        ImageFormat::Bgr5A1Unorm => spec_decode_rgba::<Bgr5A1, u8>(width, height, data),
    }
}

/// The bytes of the compressed block of `block_bytes` bytes that covers the pixel at
/// `(x, y)` of a `width` pixels wide block compressed surface `data`.
pub open spec fn covering_block(data: Seq<u8>, width: u32, x: int, y: int, block_bytes: int) -> Seq<u8> {
    let b = (y / 4) * div_ceil(width as nat, 4) + x / 4;
    data.subrange(b * block_bytes, b * block_bytes + block_bytes)
}

/// The position of the pixel at `(x, y)` within its 4x4 block.
pub open spec fn texel_in_block(x: int, y: int) -> int {
    (y % 4) * 4 + x % 4
}

/// Decoding a BC4 or BC5 surface decodes each block with the BC4 or BC5 decoder, signed
/// for the `Snorm` formats and unsigned for the `Unorm` formats: a pixel of a BC4 surface is
/// the gray value that `bc4` writes for its texel into zeroed rows, with opaque alpha, and
/// the red and green of a pixel of a BC5 surface are the two values that `bc5` writes for
/// its texel into zeroed rows, with opaque alpha.
pub proof fn lemma_decode_bc45_signedness(
    width: u32,
    height: u32,
    format: ImageFormat,
    data: Seq<u8>,
    x: int,
    y: int,
)
    requires
        format is BC4RUnorm || format is BC4RSnorm || format is BC5RgUnorm || format is BC5RgSnorm,
        spec_decode_rgba8_data(width, height, format, data) is Ok,
        0 <= x < width,
        0 <= y < height,
    ensures
        ({
            let out = spec_decode_rgba8_data(width, height, format, data)->Ok_0;
            let signed = format is BC4RSnorm || format is BC5RgSnorm;
            let k = texel_in_block(x, y);
            &&& out[pixel_index(width as int, x, y, 3)] == 255
            &&& (format is BC4RUnorm || format is BC4RSnorm) ==> {
                let gray = bc4_rows(covering_block(data, width, x, y, 8), Seq::new(16, |i: int| 0u8), signed)[k];
                &&& out[pixel_index(width as int, x, y, 0)] == gray
                &&& out[pixel_index(width as int, x, y, 1)] == gray
                &&& out[pixel_index(width as int, x, y, 2)] == gray
            }
            &&& (format is BC5RgUnorm || format is BC5RgSnorm) ==> {
                let rg = bc5_rows(covering_block(data, width, x, y, 16), Seq::new(32, |i: int| 0u8), signed);
                &&& out[pixel_index(width as int, x, y, 0)] == rg[2 * k]
                &&& out[pixel_index(width as int, x, y, 1)] == rg[2 * k + 1]
            }
        }),
{
    reveal(channel_texels);
    let w = width as int;
    let h = height as int;
    lemma_pixel_index(w, h, x, y, 0);
    lemma_pixel_index(w, h, x, y, 1);
    lemma_pixel_index(w, h, x, y, 2);
    lemma_pixel_index(w, h, x, y, 3);
    let k = texel_in_block(x, y);
    assert(0 <= k < 16);
    assert((4 * k) / 4 == k && (4 * k + 1) / 4 == k && (4 * k + 2) / 4 == k && (4 * k + 3) / 4 == k);
    assert((4 * k) % 4 == 0 && (4 * k + 1) % 4 == 1 && (4 * k + 2) % 4 == 2 && (4 * k + 3) % 4 == 3);
}

/// Decode the `width` by `height` image `data` in `format` to RGBA8.
pub fn decode_rgba8_data(width: u32, height: u32, format: ImageFormat, data: &[u8]) -> (r: Result<
    Vec<u8>,
    SurfaceError,
>)
    ensures
        match spec_decode_rgba8_data(width, height, format, data@) {
            Ok(v) => r matches Ok(out) && out@ == v,
            Err(e) => r == Err::<Vec<u8>, SurfaceError>(e),
        },
{
    match format {
        ImageFormat::BC1RgbaUnorm => decode_bcn::<Bc1>(width, height, data),
        ImageFormat::BC1RgbaUnormSrgb => decode_bcn::<Bc1>(width, height, data),
        ImageFormat::BC2RgbaUnorm => decode_bcn::<Bc2>(width, height, data),
        ImageFormat::BC2RgbaUnormSrgb => decode_bcn::<Bc2>(width, height, data),
        ImageFormat::BC3RgbaUnorm => decode_bcn::<Bc3>(width, height, data),
        ImageFormat::BC3RgbaUnormSrgb => decode_bcn::<Bc3>(width, height, data),
        ImageFormat::BC4RUnorm => decode_bcn::<Bc4>(width, height, data),
        ImageFormat::BC4RSnorm => decode_bcn::<Bc4S>(width, height, data),
        ImageFormat::BC5RgUnorm => decode_bcn::<Bc5>(width, height, data),
        ImageFormat::BC5RgSnorm => decode_bcn::<Bc5S>(width, height, data),
        ImageFormat::BC6hRgbUfloat => decode_bcn::<Bc6>(width, height, data),
        ImageFormat::BC6hRgbSfloat => decode_bcn::<Bc6>(width, height, data),
        ImageFormat::BC7RgbaUnorm => decode_bcn::<Bc7>(width, height, data),
        ImageFormat::BC7RgbaUnormSrgb => decode_bcn::<Bc7>(width, height, data),
        ImageFormat::R8Unorm => decode_rgba::<R8, u8>(width, height, data),
        ImageFormat::R8Snorm => decode_rgba::<R8Snorm, u8>(width, height, data),
        ImageFormat::Rg8Unorm => decode_rgba::<Rg8, u8>(width, height, data),
        ImageFormat::Rg8Snorm => decode_rgba::<Rg8Snorm, u8>(width, height, data),
        ImageFormat::Rgba8Unorm => decode_rgba::<Rgba8, u8>(width, height, data),
        ImageFormat::Rgba8UnormSrgb => decode_rgba::<Rgba8, u8>(width, height, data),
        ImageFormat::Rgba16Float => decode_rgba::<Rgbaf16, u8>(width, height, data),
        ImageFormat::Rgba32Float => decode_rgba::<Rgbaf32, u8>(width, height, data),
        ImageFormat::Bgra8Unorm => decode_rgba::<Bgra8, u8>(width, height, data),
        ImageFormat::Bgra8UnormSrgb => decode_rgba::<Bgra8, u8>(width, height, data),
        ImageFormat::Rgba8Snorm => decode_rgba::<Rgba8Snorm, u8>(width, height, data),
        ImageFormat::Bgra4Unorm => decode_rgba::<Bgra4, u8>(width, height, data),
        ImageFormat::Bgr8Unorm => decode_rgba::<Bgr8, u8>(width, height, data),
        ImageFormat::R16Unorm => decode_rgba::<R16, u8>(width, height, data),
        ImageFormat::R16Snorm => decode_rgba::<R16Snorm, u8>(width, height, data),
        ImageFormat::Rg16Unorm => decode_rgba::<Rg16, u8>(width, height, data),
        ImageFormat::Rg16Snorm => decode_rgba::<Rg16Snorm, u8>(width, height, data),
        ImageFormat::Rgba16Unorm => decode_rgba::<Rgba16, u8>(width, height, data),
        ImageFormat::Rgba16Snorm => decode_rgba::<Rgba16Snorm, u8>(width, height, data),
        ImageFormat::Rg16Float => decode_rgba::<Rgf16, u8>(width, height, data),
        ImageFormat::Rg32Float => decode_rgba::<Rgf32, u8>(width, height, data),
        ImageFormat::R16Float => decode_rgba::<Rf16, u8>(width, height, data),
        ImageFormat::R32Float => decode_rgba::<Rf32, u8>(width, height, data),
        ImageFormat::Rgb32Float => decode_rgba::<Rgbf32, u8>(width, height, data),
        ImageFormat::Bgr5A1Unorm => decode_rgba::<Bgr5A1, u8>(width, height, data),
    }
}

/// The number of values in `r`.
pub open spec fn range_len(r: Range<u32>) -> nat {
    if r.end > r.start {
        (r.end - r.start) as nat
    } else {
        0
    }
}

/// The outcome of decoding depth slice `level` of mipmap `mipmap` of array layer `layer` of
/// the surface with the given fields and data.
#[verifier::opaque]
pub open spec fn decode_part(
    data: Seq<u8>,
    dimensions: (u32, u32, u32),
    surface_mipmaps: u32,
    format: ImageFormat,
    layer: u32,
    level: u32,
    mipmap: u32,
) -> Result<Seq<u8>, SurfaceError> {
    if mipmap >= 32 {
        Err(SurfaceError::MipmapDataOutOfBounds { layer, mipmap })
    } else {
        match spec_mipmap_range(data.len(), dimensions, surface_mipmaps, format, layer, level, mipmap, 1) {
            None => Err(SurfaceError::MipmapDataOutOfBounds { layer, mipmap }),
            Some((start, end)) => spec_decode_rgba8_data(
                spec_mip_dimension(dimensions.0, mipmap),
                spec_mip_dimension(dimensions.1, mipmap),
                format,
                data.subrange(start, end),
            ),
        }
    }
}

/// The outcome of decoding the first `n` depth slices of mipmap `mipmap` of array layer
/// `layer` in order: the first error, or the concatenation of the decoded images.
pub open spec fn decode_levels(
    data: Seq<u8>,
    dimensions: (u32, u32, u32),
    surface_mipmaps: u32,
    format: ImageFormat,
    layer: u32,
    mipmap: u32,
    n: nat,
) -> Result<Seq<u8>, SurfaceError>
    decreases n,
{
    if n == 0 {
        Ok(Seq::empty())
    } else {
        match decode_levels(data, dimensions, surface_mipmaps, format, layer, mipmap, (n - 1) as nat) {
            Err(e) => Err(e),
            Ok(acc) => match decode_part(data, dimensions, surface_mipmaps, format, layer, (n - 1) as u32, mipmap) {
                Err(e) => Err(e),
                Ok(part) => Ok(acc + part),
            },
        }
    }
}

/// The outcome of decoding the first `n` mipmaps of `mipmaps` of array layer `layer`, each
/// with all of its depth slices: mipmap `m` has `mip_dimension(depth, m)` of them.
pub open spec fn decode_mips(
    data: Seq<u8>,
    dimensions: (u32, u32, u32),
    surface_mipmaps: u32,
    format: ImageFormat,
    layer: u32,
    mipmaps: Range<u32>,
    n: nat,
) -> Result<Seq<u8>, SurfaceError>
    decreases n,
{
    if n == 0 {
        Ok(Seq::empty())
    } else {
        match decode_mips(data, dimensions, surface_mipmaps, format, layer, mipmaps, (n - 1) as nat) {
            Err(e) => Err(e),
            Ok(acc) => {
                let mipmap = (mipmaps.start + (n - 1)) as u32;
                match decode_levels(
                    data,
                    dimensions,
                    surface_mipmaps,
                    format,
                    layer,
                    mipmap,
                    spec_mip_dimension(dimensions.2, mipmap) as nat,
                ) {
                    Err(e) => Err(e),
                    Ok(part) => Ok(acc + part),
                }
            },
        }
    }
}

/// The outcome of decoding the `mipmaps` of the first `n` array layers of `layers`.
pub open spec fn decode_layers(
    data: Seq<u8>,
    dimensions: (u32, u32, u32),
    surface_mipmaps: u32,
    format: ImageFormat,
    layers: Range<u32>,
    mipmaps: Range<u32>,
    n: nat,
) -> Result<Seq<u8>, SurfaceError>
    decreases n,
{
    if n == 0 {
        Ok(Seq::empty())
    } else {
        match decode_layers(data, dimensions, surface_mipmaps, format, layers, mipmaps, (n - 1) as nat) {
            Err(e) => Err(e),
            Ok(acc) => match decode_mips(
                data,
                dimensions,
                surface_mipmaps,
                format,
                (layers.start + (n - 1)) as u32,
                mipmaps,
                range_len(mipmaps),
            ) {
                Err(e) => Err(e),
                Ok(part) => Ok(acc + part),
            },
        }
    }
}

/// The outcome of decoding the `layers` and `mipmaps` of a surface to RGBA8, in the layout
/// of surface data: layer by layer, each mipmap of a layer in turn, and all depth slices of
/// a mipmap in turn.
pub open spec fn spec_decode_surface(
    data: Seq<u8>,
    dimensions: (u32, u32, u32),
    surface_mipmaps: u32,
    format: ImageFormat,
    layers: Range<u32>,
    mipmaps: Range<u32>,
) -> Result<Seq<u8>, SurfaceError> {
    decode_layers(data, dimensions, surface_mipmaps, format, layers, mipmaps, range_len(layers))
}

/// Once decoding a depth slice fails, decoding more slices fails with the same error.
proof fn lemma_decode_levels_error(
    data: Seq<u8>,
    dimensions: (u32, u32, u32),
    surface_mipmaps: u32,
    format: ImageFormat,
    layer: u32,
    mipmap: u32,
    n: nat,
    m: nat,
)
    requires
        n <= m,
        decode_levels(data, dimensions, surface_mipmaps, format, layer, mipmap, n) is Err,
    ensures
        decode_levels(data, dimensions, surface_mipmaps, format, layer, mipmap, m)
            == decode_levels(data, dimensions, surface_mipmaps, format, layer, mipmap, n),
    decreases m - n,
{
    if n < m {
        lemma_decode_levels_error(data, dimensions, surface_mipmaps, format, layer, mipmap, n, (m - 1) as nat);
    }
}

/// Once decoding a mipmap fails, decoding more mipmaps fails with the same error.
proof fn lemma_decode_mips_error(
    data: Seq<u8>,
    dimensions: (u32, u32, u32),
    surface_mipmaps: u32,
    format: ImageFormat,
    layer: u32,
    mipmaps: Range<u32>,
    n: nat,
    m: nat,
)
    requires
        n <= m,
        decode_mips(data, dimensions, surface_mipmaps, format, layer, mipmaps, n) is Err,
    ensures
        decode_mips(data, dimensions, surface_mipmaps, format, layer, mipmaps, m)
            == decode_mips(data, dimensions, surface_mipmaps, format, layer, mipmaps, n),
    decreases m - n,
{
    if n < m {
        lemma_decode_mips_error(data, dimensions, surface_mipmaps, format, layer, mipmaps, n, (m - 1) as nat);
    }
}

/// Once decoding a layer fails, decoding more layers fails with the same error.
proof fn lemma_decode_layers_error(
    data: Seq<u8>,
    dimensions: (u32, u32, u32),
    surface_mipmaps: u32,
    format: ImageFormat,
    layers: Range<u32>,
    mipmaps: Range<u32>,
    n: nat,
    m: nat,
)
    requires
        n <= m,
        decode_layers(data, dimensions, surface_mipmaps, format, layers, mipmaps, n) is Err,
    ensures
        decode_layers(data, dimensions, surface_mipmaps, format, layers, mipmaps, m)
            == decode_layers(data, dimensions, surface_mipmaps, format, layers, mipmaps, n),
    decreases m - n,
{
    if n < m {
        lemma_decode_layers_error(data, dimensions, surface_mipmaps, format, layers, mipmaps, n, (m - 1) as nat);
    }
}

/// Decode depth slice `level` of mipmap `mipmap` of array layer `layer` of `surface` to RGBA8.
fn decode_image<T: AsElements<u8>>(surface: &Surface<T>, layer: u32, level: u32, mipmap: u32) -> (r: Result<
    Vec<u8>,
    SurfaceError,
>)
    requires
        surface.mipmaps <= 32,
    ensures
        match decode_part(
            surface.data.spec_elements(),
            (surface.width, surface.height, surface.depth),
            surface.mipmaps,
            surface.image_format,
            layer,
            level,
            mipmap,
        ) {
            Ok(v) => r matches Ok(out) && out@ == v,
            Err(e) => r == Err::<Vec<u8>, SurfaceError>(e),
        },
{
    reveal(decode_part);
    if mipmap >= 32 {
        return Err(SurfaceError::MipmapDataOutOfBounds { layer, mipmap });
    }
    match surface.get(layer, level, mipmap) {
        None => Err(SurfaceError::MipmapDataOutOfBounds { layer, mipmap }),
        Some(mip_data) => {
            // The mipmap index is already validated by get above.
            let width = mip_dimension(surface.width, mipmap);
            let height = mip_dimension(surface.height, mipmap);
            decode_rgba8_data(width, height, surface.image_format, mip_data)
        },
    }
}

/// Decode every depth slice of mipmap `mipmap` of array layer `layer` of `surface` and
/// append the images to `out`.
fn decode_mip_levels<T: AsElements<u8>>(
    surface: &Surface<T>,
    layer: u32,
    mipmap: u32,
    out: &mut Vec<u8>,
) -> (r: Result<(), SurfaceError>)
    requires
        surface.mipmaps <= 32,
    ensures
        match decode_levels(
            surface.data.spec_elements(),
            (surface.width, surface.height, surface.depth),
            surface.mipmaps,
            surface.image_format,
            layer,
            mipmap,
            spec_mip_dimension(surface.depth, mipmap) as nat,
        ) {
            Ok(v) => r is Ok && final(out)@ == old(out)@ + v,
            Err(e) => r == Err::<(), SurfaceError>(e),
        },
{
    let ghost data = surface.data.spec_elements();
    let ghost dims = (surface.width, surface.height, surface.depth);
    let ghost levels = spec_mip_dimension(surface.depth, mipmap) as nat;
    if mipmap >= 32 {
        proof {
            assert(levels >= 1);
            reveal(decode_part);
            assert(decode_levels(data, dims, surface.mipmaps, surface.image_format, layer, mipmap, 0)
                == Ok::<Seq<u8>, SurfaceError>(Seq::empty()));
            assert(decode_levels(data, dims, surface.mipmaps, surface.image_format, layer, mipmap, 1)
                == Err::<Seq<u8>, SurfaceError>(SurfaceError::MipmapDataOutOfBounds { layer, mipmap }));
            lemma_decode_levels_error(data, dims, surface.mipmaps, surface.image_format, layer, mipmap, 1, levels);
        }
        return Err(SurfaceError::MipmapDataOutOfBounds { layer, mipmap });
    }
    let count = mip_dimension(surface.depth, mipmap);
    let mut images: Vec<u8> = Vec::new();
    let mut level: u32 = 0;
    while level < count
        invariant
            level <= count,
            count == levels,
            levels == spec_mip_dimension(surface.depth, mipmap) as nat,
            surface.mipmaps <= 32,
            data == surface.data.spec_elements(),
            dims == (surface.width, surface.height, surface.depth),
            decode_levels(data, dims, surface.mipmaps, surface.image_format, layer, mipmap, level as nat)
                == Ok::<Seq<u8>, SurfaceError>(images@),
        decreases count - level,
    {
        match decode_image(surface, layer, level, mipmap) {
            Err(e) => {
                proof {
                    assert(decode_levels(data, dims, surface.mipmaps, surface.image_format, layer, mipmap, (level + 1) as nat)
                        == Err::<Seq<u8>, SurfaceError>(e));
                    lemma_decode_levels_error(
                        data,
                        dims,
                        surface.mipmaps,
                        surface.image_format,
                        layer,
                        mipmap,
                        (level + 1) as nat,
                        levels,
                    );
                }
                return Err(e);
            },
            Ok(mut decoded) => {
                images.append(&mut decoded);
            },
        }
        level += 1;
    }
    out.append(&mut images);
    Ok(())
}

/// Decode the `layers` and `mipmaps` of `surface` to RGBA8, in the layout of surface data.
fn decode_surface<T: AsElements<u8>>(surface: &Surface<T>, layers: Range<u32>, mipmaps: Range<u32>) -> (r: Result<
    Vec<u8>,
    SurfaceError,
>)
    requires
        surface.mipmaps <= 32,
    ensures
        match spec_decode_surface(
            surface.data.spec_elements(),
            (surface.width, surface.height, surface.depth),
            surface.mipmaps,
            surface.image_format,
            layers,
            mipmaps,
        ) {
            Ok(v) => r matches Ok(out) && out@ == v,
            Err(e) => r == Err::<Vec<u8>, SurfaceError>(e),
        },
{
    let ghost data = surface.data.spec_elements();
    let ghost dims = (surface.width, surface.height, surface.depth);
    let nl: u32 = if layers.end > layers.start { layers.end - layers.start } else { 0 };
    let nm: u32 = if mipmaps.end > mipmaps.start { mipmaps.end - mipmaps.start } else { 0 };
    let mut combined: Vec<u8> = Vec::new();
    let mut i: u32 = 0;
    while i < nl
        invariant
            i <= nl,
            nl == range_len(layers),
            nm == range_len(mipmaps),
            surface.mipmaps <= 32,
            data == surface.data.spec_elements(),
            dims == (surface.width, surface.height, surface.depth),
            decode_layers(data, dims, surface.mipmaps, surface.image_format, layers, mipmaps, i as nat)
                == Ok::<Seq<u8>, SurfaceError>(combined@),
        decreases nl - i,
    {
        let layer = layers.start + i;
        let ghost base = combined@;
        let mut j: u32 = 0;
        while j < nm
            invariant
                i < nl,
                j <= nm,
                layer == layers.start + i,
                nl == range_len(layers),
                nm == range_len(mipmaps),
                surface.mipmaps <= 32,
                data == surface.data.spec_elements(),
                dims == (surface.width, surface.height, surface.depth),
                decode_layers(data, dims, surface.mipmaps, surface.image_format, layers, mipmaps, i as nat)
                    == Ok::<Seq<u8>, SurfaceError>(base),
                decode_mips(data, dims, surface.mipmaps, surface.image_format, layer, mipmaps, j as nat)
                    matches Ok(v) && combined@ == base + v,
            decreases nm - j,
        {
            let mipmap = mipmaps.start + j;
            let ghost before = combined@;
            match decode_mip_levels(surface, layer, mipmap, &mut combined) {
                Err(e) => {
                    proof {
                        lemma_decode_mips_error(
                            data,
                            dims,
                            surface.mipmaps,
                            surface.image_format,
                            layer,
                            mipmaps,
                            (j + 1) as nat,
                            nm as nat,
                        );
                        lemma_decode_layers_error(
                            data,
                            dims,
                            surface.mipmaps,
                            surface.image_format,
                            layers,
                            mipmaps,
                            (i + 1) as nat,
                            nl as nat,
                        );
                    }
                    return Err(e);
                },
                Ok(()) => {
                    proof {
                        let acc = decode_mips(data, dims, surface.mipmaps, surface.image_format, layer, mipmaps, j as nat)->Ok_0;
                        let part = decode_levels(
                            data,
                            dims,
                            surface.mipmaps,
                            surface.image_format,
                            layer,
                            mipmap,
                            spec_mip_dimension(surface.depth, mipmap) as nat,
                        )->Ok_0;
                        assert(combined@ =~= base + (acc + part));
                    }
                },
            }
            j += 1;
        }
        proof {
            let acc = decode_mips(data, dims, surface.mipmaps, surface.image_format, layer, mipmaps, nm as nat)->Ok_0;
            assert(combined@ == base + acc);
        }
        i += 1;
    }
    Ok(combined)
}

impl<T: AsElements<u8>> Surface<T> {
    /// Decode all layers and mipmaps from `surface` to RGBA8.
    pub fn decode_rgba8(&self) -> (r: Result<SurfaceRgba8<Vec<u8>>, SurfaceError>)
        ensures
            match spec_validate(
                self.width,
                self.height,
                self.depth,
                self.mipmaps,
                self.image_format,
                self.data.spec_elements().len(),
            ) {
                Err(e) => r == Err::<SurfaceRgba8<Vec<u8>>, SurfaceError>(e),
                Ok(_) => match spec_decode_surface(
                    self.data.spec_elements(),
                    (self.width, self.height, self.depth),
                    self.mipmaps,
                    self.image_format,
                    0..self.layers,
                    0..self.mipmaps,
                ) {
                    Err(e) => r == Err::<SurfaceRgba8<Vec<u8>>, SurfaceError>(e),
                    Ok(v) => r matches Ok(s) && s.width == self.width && s.height == self.height
                        && s.depth == self.depth && s.layers == (if self.layers > 1 {
                        self.layers
                    } else {
                        1
                    }) && s.mipmaps == (if self.mipmaps > 1 {
                        self.mipmaps
                    } else {
                        1
                    }) && s.data@ == v,
                },
            },
    {
        let r = self.decode_layers_mipmaps_rgba8(0..self.layers, 0..self.mipmaps);
        proof {
            vstd::arithmetic::power2::lemma2_to64();
        }
        r
    }

    /// Decode a specific range of layers and mipmaps from `surface` to RGBA8.
    pub fn decode_layers_mipmaps_rgba8(&self, layers: Range<u32>, mipmaps: Range<u32>) -> (r: Result<
        SurfaceRgba8<Vec<u8>>,
        SurfaceError,
    >)
        requires
            layers.start <= layers.end,
            mipmaps.start <= mipmaps.end,
            mipmaps.start < 32,
        ensures
            match spec_validate(
                self.width,
                self.height,
                self.depth,
                self.mipmaps,
                self.image_format,
                self.data.spec_elements().len(),
            ) {
                Err(e) => r == Err::<SurfaceRgba8<Vec<u8>>, SurfaceError>(e),
                Ok(_) => match spec_decode_surface(
                    self.data.spec_elements(),
                    (self.width, self.height, self.depth),
                    self.mipmaps,
                    self.image_format,
                    layers,
                    mipmaps,
                ) {
                    Err(e) => r == Err::<SurfaceRgba8<Vec<u8>>, SurfaceError>(e),
                    Ok(v) => r matches Ok(s) && s.width == spec_mip_dimension(self.width, mipmaps.start)
                        && s.height == spec_mip_dimension(self.height, mipmaps.start) && s.depth
                        == spec_mip_dimension(self.depth, mipmaps.start) && s.layers == (if layers.end
                        - layers.start > 1 {
                        layers.end - layers.start
                    } else {
                        1
                    }) && s.mipmaps == (if mipmaps.end - mipmaps.start > 1 {
                        mipmaps.end - mipmaps.start
                    } else {
                        1
                    }) && s.data@ == v,
                },
            },
    {
        match self.validate() {
            Err(e) => return Err(e),
            Ok(_) => {},
        }
        proof {
            vstd::arithmetic::power2::lemma2_to64();
            crate::layout::lemma_bit_length_bound(
                crate::surface::max3(self.width, self.height, self.depth) as nat,
                32,
            );
        }
        let data = decode_surface(self, layers.start..layers.end, mipmaps.start..mipmaps.end);
        let data = match data {
            Err(e) => return Err(e),
            Ok(d) => d,
        };
        let nl = layers.end - layers.start;
        let nm = mipmaps.end - mipmaps.start;
        Ok(
            SurfaceRgba8 {
                width: mip_dimension(self.width, mipmaps.start),
                height: mip_dimension(self.height, mipmaps.start),
                depth: mip_dimension(self.depth, mipmaps.start),
                layers: if nl > 1 { nl } else { 1 },
                mipmaps: if nm > 1 { nm } else { 1 },
                data,
            },
        )
    }
}

} // verus!
