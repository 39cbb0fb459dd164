//! The image formats, encoding quality and mipmap options.
use vstd::prelude::*;

verus! {

/// The conversion quality when encoding to compressed formats.
///
/// Higher quality settings run significantly slower.
/// Block compressed formats like BC7 use a fixed compression ratio,
/// so lower quality settings do not use less space than slower ones.
#[derive(Debug, PartialEq, Eq, Structural, Clone, Copy)]
pub enum Quality {
    /// Faster exports with slightly lower quality.
    Fast,
    /// Normal export speed and quality.
    Normal,
    /// Slower exports for slightly higher quality.
    Slow,
}

/// Options for how many mipmaps to generate.
/// Mipmaps are counted starting from the base level,
/// so a surface with only the full resolution base level has 1 mipmap.
#[derive(Debug, PartialEq, Eq, Structural, Clone, Copy)]
pub enum Mipmaps {
    /// No mipmapping. Only the base mip level will be used.
    Disabled,
    /// Use the number of mipmaps specified in the input surface.
    FromSurface,
    /// Generate mipmaps to create a surface with a desired number of mipmaps.
    /// A value of `0` or `1` is equivalent to [Mipmaps::Disabled].
    GeneratedExact(u32),
    /// Generate mipmaps starting from the base level
    /// until dimensions can be reduced no further.
    GeneratedAutomatic,
}

/// Supported image formats for encoding and decoding.
#[non_exhaustive]
#[derive(Debug, PartialEq, Eq, Structural, Clone, Copy)]
pub enum ImageFormat {
    R8Unorm,
    R8Snorm,
    Rg8Unorm,
    Rg8Snorm,
    Rgba8Unorm,
    Rgba8UnormSrgb,
    Rgba16Float,
    Rgba32Float,
    Bgr8Unorm,
    Bgra8Unorm,
    Bgra8UnormSrgb,
    Bgra4Unorm,
    /// DXT1
    BC1RgbaUnorm,
    BC1RgbaUnormSrgb,
    /// DXT3
    BC2RgbaUnorm,
    BC2RgbaUnormSrgb,
    /// DXT5
    BC3RgbaUnorm,
    BC3RgbaUnormSrgb,
    /// RGTC1
    BC4RUnorm,
    BC4RSnorm,
    /// RGTC2
    BC5RgUnorm,
    BC5RgSnorm,
    /// BPTC (float)
    BC6hRgbUfloat,
    BC6hRgbSfloat,
    /// BPTC (unorm)
    BC7RgbaUnorm,
    BC7RgbaUnormSrgb,
    Rgba8Snorm,
    R16Unorm,
    R16Snorm,
    Rg16Unorm,
    Rg16Snorm,
    Rgba16Unorm,
    Rgba16Snorm,
    R16Float,
    Rg16Float,
    R32Float,
    Rg32Float,
    Rgb32Float,
    Bgr5A1Unorm,
}

/// Whether `format` stores 4x4 pixel blocks rather than single pixels.
pub open spec fn is_block_compressed(format: ImageFormat) -> bool {
    match format {
        ImageFormat::BC1RgbaUnorm | ImageFormat::BC1RgbaUnormSrgb | ImageFormat::BC2RgbaUnorm
        | ImageFormat::BC2RgbaUnormSrgb | ImageFormat::BC3RgbaUnorm
        | ImageFormat::BC3RgbaUnormSrgb | ImageFormat::BC4RUnorm | ImageFormat::BC4RSnorm
        | ImageFormat::BC5RgUnorm | ImageFormat::BC5RgSnorm | ImageFormat::BC6hRgbUfloat
        | ImageFormat::BC6hRgbSfloat | ImageFormat::BC7RgbaUnorm
        | ImageFormat::BC7RgbaUnormSrgb => true,
        _ => false,
    }
}

/// The width, height and depth in pixels of one block of `format`.
pub open spec fn spec_block_dimensions(format: ImageFormat) -> (u32, u32, u32) {
    if is_block_compressed(format) {
        (4, 4, 1)
    } else {
        (1, 1, 1)
    }
}

/// The size in bytes of a block if compressed or of a pixel if uncompressed.
pub open spec fn spec_block_size_in_bytes(format: ImageFormat) -> usize {
    match format {
        ImageFormat::R8Unorm | ImageFormat::R8Snorm => 1,
        ImageFormat::Rg8Unorm | ImageFormat::Rg8Snorm | ImageFormat::Bgra4Unorm
        | ImageFormat::R16Unorm | ImageFormat::R16Snorm | ImageFormat::R16Float
        | ImageFormat::Bgr5A1Unorm => 2,
        ImageFormat::Bgr8Unorm => 3,
        ImageFormat::Rgba8Unorm | ImageFormat::Rgba8UnormSrgb | ImageFormat::Bgra8Unorm
        | ImageFormat::Bgra8UnormSrgb | ImageFormat::Rg16Unorm | ImageFormat::Rg16Snorm
        | ImageFormat::Rg16Float | ImageFormat::R32Float | ImageFormat::Rgba8Snorm => 4,
        ImageFormat::Rgba16Float | ImageFormat::Rgba16Unorm | ImageFormat::Rgba16Snorm
        | ImageFormat::Rg32Float | ImageFormat::BC1RgbaUnorm | ImageFormat::BC1RgbaUnormSrgb
        | ImageFormat::BC4RUnorm | ImageFormat::BC4RSnorm => 8,
        ImageFormat::Rgb32Float => 12,
        ImageFormat::Rgba32Float | ImageFormat::BC2RgbaUnorm | ImageFormat::BC2RgbaUnormSrgb
        | ImageFormat::BC3RgbaUnorm | ImageFormat::BC3RgbaUnormSrgb | ImageFormat::BC5RgUnorm
        | ImageFormat::BC5RgSnorm | ImageFormat::BC6hRgbUfloat | ImageFormat::BC6hRgbSfloat
        | ImageFormat::BC7RgbaUnorm | ImageFormat::BC7RgbaUnormSrgb => 16,
    }
}

impl ImageFormat {
    /// The dimensions in pixels of a single block.
    pub fn block_dimensions(&self) -> (r: (u32, u32, u32))
        ensures
            r == spec_block_dimensions(*self),
    {
        match self {
            ImageFormat::BC1RgbaUnorm | ImageFormat::BC1RgbaUnormSrgb | ImageFormat::BC2RgbaUnorm
            | ImageFormat::BC2RgbaUnormSrgb | ImageFormat::BC3RgbaUnorm
            | ImageFormat::BC3RgbaUnormSrgb | ImageFormat::BC4RUnorm | ImageFormat::BC4RSnorm
            | ImageFormat::BC5RgUnorm | ImageFormat::BC5RgSnorm | ImageFormat::BC6hRgbUfloat
            | ImageFormat::BC6hRgbSfloat | ImageFormat::BC7RgbaUnorm
            | ImageFormat::BC7RgbaUnormSrgb => (4, 4, 1),
            _ => (1, 1, 1),
        }
    }

    /// The size of a block if compressed or of a pixel if uncompressed.
    pub fn block_size_in_bytes(&self) -> (r: usize)
        ensures
            r == spec_block_size_in_bytes(*self),
            1 <= r <= 16,
    {
        match self {
            ImageFormat::R8Unorm => 1,
            ImageFormat::R8Snorm => 1,
            ImageFormat::Rg8Unorm => 2,
            ImageFormat::Rg8Snorm => 2,
            ImageFormat::Rgba8Unorm => 4,
            ImageFormat::Rgba8UnormSrgb => 4,
            ImageFormat::Rgba16Float => 8,
            ImageFormat::Rgba32Float => 16,
            ImageFormat::Bgra8Unorm => 4,
            ImageFormat::Bgra8UnormSrgb => 4,
            ImageFormat::BC1RgbaUnorm => 8,
            ImageFormat::BC1RgbaUnormSrgb => 8,
            ImageFormat::BC2RgbaUnorm => 16,
            ImageFormat::BC2RgbaUnormSrgb => 16,
            ImageFormat::BC3RgbaUnorm => 16,
            ImageFormat::BC3RgbaUnormSrgb => 16,
            ImageFormat::BC4RUnorm => 8,
            ImageFormat::BC4RSnorm => 8,
            ImageFormat::BC5RgUnorm => 16,
            ImageFormat::BC5RgSnorm => 16,
            ImageFormat::BC6hRgbUfloat => 16,
            ImageFormat::BC6hRgbSfloat => 16,
            ImageFormat::BC7RgbaUnorm => 16,
            ImageFormat::BC7RgbaUnormSrgb => 16,
            ImageFormat::Bgra4Unorm => 2,
            ImageFormat::Bgr8Unorm => 3,
            ImageFormat::R16Unorm => 2,
            ImageFormat::R16Snorm => 2,
            ImageFormat::Rg16Unorm => 4,
            ImageFormat::Rg16Snorm => 4,
            ImageFormat::Rgba16Unorm => 8,
            ImageFormat::Rgba16Snorm => 8,
            ImageFormat::Rg16Float => 4,
            ImageFormat::Rg32Float => 8,
            ImageFormat::R16Float => 2,
            ImageFormat::R32Float => 4,
            ImageFormat::Rgba8Snorm => 4,
            ImageFormat::Rgb32Float => 12,
            ImageFormat::Bgr5A1Unorm => 2,
        }
    }
}

/// What the name of `format` says of its data: the BCn number of a block compressed
/// format (0 for an uncompressed one), the number of channels, the bits of the first color
/// channel of an uncompressed format (0 for a compressed one), and whether the values are
/// signed normalized or signed float (`Snorm`, `Sfloat`), sRGB encoded (`Srgb`), floating
/// point (`Float`, `float`), and stored blue first (`Bgr`, `Bgra`).
pub open spec fn format_layout(format: ImageFormat) -> (nat, nat, nat, bool, bool, bool, bool) {
    let bc: nat = match format {
        ImageFormat::BC1RgbaUnorm | ImageFormat::BC1RgbaUnormSrgb => 1,
        ImageFormat::BC2RgbaUnorm | ImageFormat::BC2RgbaUnormSrgb => 2,
        ImageFormat::BC3RgbaUnorm | ImageFormat::BC3RgbaUnormSrgb => 3,
        ImageFormat::BC4RUnorm | ImageFormat::BC4RSnorm => 4,
        ImageFormat::BC5RgUnorm | ImageFormat::BC5RgSnorm => 5,
        ImageFormat::BC6hRgbUfloat | ImageFormat::BC6hRgbSfloat => 6,
        ImageFormat::BC7RgbaUnorm | ImageFormat::BC7RgbaUnormSrgb => 7,
        _ => 0,
    };
    let channels: nat = match format {
        ImageFormat::BC4RUnorm | ImageFormat::BC4RSnorm | ImageFormat::R8Unorm | ImageFormat::R8Snorm
        | ImageFormat::R16Unorm | ImageFormat::R16Snorm | ImageFormat::R16Float | ImageFormat::R32Float => 1,
        ImageFormat::BC5RgUnorm | ImageFormat::BC5RgSnorm | ImageFormat::Rg8Unorm | ImageFormat::Rg8Snorm
        | ImageFormat::Rg16Unorm | ImageFormat::Rg16Snorm | ImageFormat::Rg16Float | ImageFormat::Rg32Float => 2,
        ImageFormat::BC6hRgbUfloat | ImageFormat::BC6hRgbSfloat | ImageFormat::Bgr8Unorm
        | ImageFormat::Rgb32Float => 3,
        _ => 4,
    };
    let bits: nat = match format {
        ImageFormat::R8Unorm | ImageFormat::R8Snorm | ImageFormat::Rg8Unorm | ImageFormat::Rg8Snorm
        | ImageFormat::Rgba8Unorm | ImageFormat::Rgba8UnormSrgb | ImageFormat::Rgba8Snorm
        | ImageFormat::Bgra8Unorm | ImageFormat::Bgra8UnormSrgb | ImageFormat::Bgr8Unorm => 8,
        ImageFormat::R16Unorm | ImageFormat::R16Snorm | ImageFormat::R16Float | ImageFormat::Rg16Unorm
        | ImageFormat::Rg16Snorm | ImageFormat::Rg16Float | ImageFormat::Rgba16Unorm
        | ImageFormat::Rgba16Snorm | ImageFormat::Rgba16Float => 16,
        ImageFormat::R32Float | ImageFormat::Rg32Float | ImageFormat::Rgb32Float
        | ImageFormat::Rgba32Float => 32,
        ImageFormat::Bgra4Unorm => 4,
        ImageFormat::Bgr5A1Unorm => 5,
        _ => 0,
    };
    let signed = match format {
        ImageFormat::BC4RSnorm | ImageFormat::BC5RgSnorm | ImageFormat::BC6hRgbSfloat | ImageFormat::R8Snorm
        | ImageFormat::Rg8Snorm | ImageFormat::Rgba8Snorm | ImageFormat::R16Snorm | ImageFormat::Rg16Snorm
        | ImageFormat::Rgba16Snorm => true,
        _ => false,
    };
    let srgb = match format {
        ImageFormat::BC1RgbaUnormSrgb | ImageFormat::BC2RgbaUnormSrgb | ImageFormat::BC3RgbaUnormSrgb
        | ImageFormat::BC7RgbaUnormSrgb | ImageFormat::Rgba8UnormSrgb | ImageFormat::Bgra8UnormSrgb => true,
        _ => false,
    };
    let float = match format {
        ImageFormat::BC6hRgbUfloat | ImageFormat::BC6hRgbSfloat | ImageFormat::R16Float
        | ImageFormat::Rg16Float | ImageFormat::Rgba16Float | ImageFormat::R32Float | ImageFormat::Rg32Float
        | ImageFormat::Rgb32Float | ImageFormat::Rgba32Float => true,
        _ => false,
    };
    let bgr = match format {
        ImageFormat::Bgra8Unorm | ImageFormat::Bgra8UnormSrgb | ImageFormat::Bgra4Unorm
        | ImageFormat::Bgr8Unorm | ImageFormat::Bgr5A1Unorm => true,
        _ => false,
    };
    (bc, channels, bits, signed, srgb, float, bgr)
}

} // verus!
