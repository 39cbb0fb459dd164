//! The errors of surface conversions.
use vstd::prelude::*;
use crate::dds::DdsFormatInfo;
use crate::format::ImageFormat;

verus! {

/// An error while decoding or encoding a surface.
#[derive(Debug, PartialEq, Eq, Structural, Clone, Copy)]
pub enum SurfaceError {
    /// The surface dimensions contain no pixels.
    ZeroSizedSurface { width: u32, height: u32, depth: u32 },
    /// The size in bytes of the surface does not fit in `usize`.
    PixelCountWouldOverflow { width: u32, height: u32, depth: u32 },
    /// The data is shorter than the surface dimensions require.
    NotEnoughData { expected: usize, actual: usize },
    /// Encoding to the format is not supported.
    UnsupportedEncodeFormat { format: ImageFormat },
    /// The data of a layer and mipmap lies outside of the surface data.
    MipmapDataOutOfBounds { layer: u32, mipmap: u32 },
    /// The surface has more mipmaps than its dimensions allow.
    UnexpectedMipmapCount { mipmaps: u32, max_mipmaps: u32 },
    /// The format of a DDS file is not supported.
    UnsupportedDdsFormat(DdsFormatInfo),
}

/// An error while creating an image from a surface.
#[derive(Debug, PartialEq, Eq, Structural, Clone, Copy)]
pub enum CreateImageError {
    /// The data length does not match the image dimensions.
    InvalidSurfaceDimensions { width: u32, height: u32, data_length: usize },
    /// An image holds a single mipmap.
    UnexpectedMipmapCount { mipmaps: u32, max_mipmaps: u32 },
    /// Decoding the surface failed.
    DecompressSurface(DecompressSurfaceError),
    /// Reading the surface failed.
    Surface(SurfaceError),
}

/// An error while compressing a surface.
#[derive(Debug, PartialEq, Eq, Structural, Clone, Copy)]
pub enum CompressSurfaceError {
    /// The surface dimensions contain no pixels.
    ZeroSizedSurface { width: u32, height: u32, depth: u32 },
    /// The size in bytes of the surface does not fit in `usize`.
    PixelCountWouldOverflow { width: u32, height: u32, depth: u32 },
    /// The surface dimensions are not multiples of the block dimensions.
    NonIntegralDimensionsInBlocks {
        width: u32,
        height: u32,
        depth: u32,
        block_width: u32,
        block_height: u32,
    },
    /// The data is shorter than the surface dimensions require.
    NotEnoughData { expected: usize, actual: usize },
    /// Compressing to the format is not supported.
    UnsupportedFormat { format: ImageFormat },
}

/// An error while decompressing a surface.
#[derive(Debug, PartialEq, Eq, Structural, Clone, Copy)]
pub enum DecompressSurfaceError {
    /// The surface dimensions contain no pixels.
    ZeroSizedSurface { width: u32, height: u32, depth: u32 },
    /// The size in bytes of the surface does not fit in `usize`.
    PixelCountWouldOverflow { width: u32, height: u32, depth: u32 },
    /// The mipmap count exceeds the maximum for the dimensions.
    InvalidMipmapCount { mipmaps: u32, height: u32, max_total_mipmaps: u32 },
    /// The data is shorter than the surface dimensions require.
    NotEnoughData { expected: usize, actual: usize },
    /// The data of a layer and mipmap lies outside of the surface data.
    MipmapDataOutOfBounds { layer: u32, mipmap: u32 },
    /// The image format of the surface can not be determined.
    UnrecognizedFormat,
    /// The surface has more mipmaps than expected.
    UnexpectedMipmapCount { mipmaps: u32, max_mipmaps: u32 },
}

} // verus!
