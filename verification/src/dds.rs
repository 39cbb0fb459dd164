//! The formats and layout of DDS files, held as the plain values of a DDS header.
//!
//! A DDS file names its format by a DXGI format code in its DX10 header, by a Direct3D 9
//! format, or by a FourCC code. Most formats are written as DXGI formats, and the few that
//! DXGI lacks as Direct3D 9 formats.
use vstd::prelude::*;
use crate::error::SurfaceError;
use crate::format::{format_layout, ImageFormat};
use crate::surface::Surface;

verus! {
/// The DXGI format code of `DXGI_FORMAT_R8_UNORM`.
pub const DXGI_FORMAT_R8_UNORM: u32 = 61;
/// The DXGI format code of `DXGI_FORMAT_R8_SNORM`.
pub const DXGI_FORMAT_R8_SNORM: u32 = 63;
/// The DXGI format code of `DXGI_FORMAT_R8G8_UNORM`.
pub const DXGI_FORMAT_R8G8_UNORM: u32 = 49;
/// The DXGI format code of `DXGI_FORMAT_R8G8_SNORM`.
pub const DXGI_FORMAT_R8G8_SNORM: u32 = 51;
/// The DXGI format code of `DXGI_FORMAT_R8G8B8A8_UNORM`.
pub const DXGI_FORMAT_R8G8B8A8_UNORM: u32 = 28;
/// The DXGI format code of `DXGI_FORMAT_R8G8B8A8_UNORM_SRGB`.
pub const DXGI_FORMAT_R8G8B8A8_UNORM_SRGB: u32 = 29;
/// The DXGI format code of `DXGI_FORMAT_R16G16B16A16_FLOAT`.
pub const DXGI_FORMAT_R16G16B16A16_FLOAT: u32 = 10;
/// The DXGI format code of `DXGI_FORMAT_R32G32B32A32_FLOAT`.
pub const DXGI_FORMAT_R32G32B32A32_FLOAT: u32 = 2;
/// The DXGI format code of `DXGI_FORMAT_B8G8R8A8_UNORM`.
pub const DXGI_FORMAT_B8G8R8A8_UNORM: u32 = 87;
/// The DXGI format code of `DXGI_FORMAT_B8G8R8A8_UNORM_SRGB`.
pub const DXGI_FORMAT_B8G8R8A8_UNORM_SRGB: u32 = 91;
/// The DXGI format code of `DXGI_FORMAT_BC1_UNORM`.
pub const DXGI_FORMAT_BC1_UNORM: u32 = 71;
/// The DXGI format code of `DXGI_FORMAT_BC1_UNORM_SRGB`.
pub const DXGI_FORMAT_BC1_UNORM_SRGB: u32 = 72;
/// The DXGI format code of `DXGI_FORMAT_BC2_UNORM`.
pub const DXGI_FORMAT_BC2_UNORM: u32 = 74;
/// The DXGI format code of `DXGI_FORMAT_BC2_UNORM_SRGB`.
pub const DXGI_FORMAT_BC2_UNORM_SRGB: u32 = 75;
/// The DXGI format code of `DXGI_FORMAT_BC3_UNORM`.
pub const DXGI_FORMAT_BC3_UNORM: u32 = 77;
/// The DXGI format code of `DXGI_FORMAT_BC3_UNORM_SRGB`.
pub const DXGI_FORMAT_BC3_UNORM_SRGB: u32 = 78;
/// The DXGI format code of `DXGI_FORMAT_BC4_UNORM`.
pub const DXGI_FORMAT_BC4_UNORM: u32 = 80;
/// The DXGI format code of `DXGI_FORMAT_BC4_SNORM`.
pub const DXGI_FORMAT_BC4_SNORM: u32 = 81;
/// The DXGI format code of `DXGI_FORMAT_BC5_UNORM`.
pub const DXGI_FORMAT_BC5_UNORM: u32 = 83;
/// The DXGI format code of `DXGI_FORMAT_BC5_SNORM`.
pub const DXGI_FORMAT_BC5_SNORM: u32 = 84;
/// The DXGI format code of `DXGI_FORMAT_BC6H_SF16`.
pub const DXGI_FORMAT_BC6H_SF16: u32 = 96;
/// The DXGI format code of `DXGI_FORMAT_BC6H_UF16`.
pub const DXGI_FORMAT_BC6H_UF16: u32 = 95;
/// The DXGI format code of `DXGI_FORMAT_BC7_UNORM`.
pub const DXGI_FORMAT_BC7_UNORM: u32 = 98;
/// The DXGI format code of `DXGI_FORMAT_BC7_UNORM_SRGB`.
pub const DXGI_FORMAT_BC7_UNORM_SRGB: u32 = 99;
/// The DXGI format code of `DXGI_FORMAT_B4G4R4A4_UNORM`.
pub const DXGI_FORMAT_B4G4R4A4_UNORM: u32 = 115;
/// The DXGI format code of `DXGI_FORMAT_R16G16B16A16_UNORM`.
pub const DXGI_FORMAT_R16G16B16A16_UNORM: u32 = 11;
/// The DXGI format code of `DXGI_FORMAT_R16G16B16A16_SNORM`.
pub const DXGI_FORMAT_R16G16B16A16_SNORM: u32 = 13;
/// The DXGI format code of `DXGI_FORMAT_R16G16_UNORM`.
pub const DXGI_FORMAT_R16G16_UNORM: u32 = 35;
/// The DXGI format code of `DXGI_FORMAT_R16G16_SNORM`.
pub const DXGI_FORMAT_R16G16_SNORM: u32 = 37;
/// The DXGI format code of `DXGI_FORMAT_R16_UNORM`.
pub const DXGI_FORMAT_R16_UNORM: u32 = 56;
/// The DXGI format code of `DXGI_FORMAT_R16_SNORM`.
pub const DXGI_FORMAT_R16_SNORM: u32 = 58;
/// The DXGI format code of `DXGI_FORMAT_R16_FLOAT`.
pub const DXGI_FORMAT_R16_FLOAT: u32 = 54;
/// The DXGI format code of `DXGI_FORMAT_R16G16_FLOAT`.
pub const DXGI_FORMAT_R16G16_FLOAT: u32 = 34;
/// The DXGI format code of `DXGI_FORMAT_R32_FLOAT`.
pub const DXGI_FORMAT_R32_FLOAT: u32 = 41;
/// The DXGI format code of `DXGI_FORMAT_R32G32_FLOAT`.
pub const DXGI_FORMAT_R32G32_FLOAT: u32 = 16;
/// The DXGI format code of `DXGI_FORMAT_R8G8B8A8_SNORM`.
pub const DXGI_FORMAT_R8G8B8A8_SNORM: u32 = 31;
/// The DXGI format code of `DXGI_FORMAT_R32G32B32_FLOAT`.
pub const DXGI_FORMAT_R32G32B32_FLOAT: u32 = 6;
/// The DXGI format code of `DXGI_FORMAT_B5G5R5A1_UNORM`.
pub const DXGI_FORMAT_B5G5R5A1_UNORM: u32 = 86;
/// The FourCC code `DXT1`.
pub const FOURCC_DXT1: u32 = 0x31545844;
/// The FourCC code `DXT2`.
pub const FOURCC_DXT2: u32 = 0x32545844;
/// The FourCC code `DXT3`.
pub const FOURCC_DXT3: u32 = 0x33545844;
/// The FourCC code `DXT4`.
pub const FOURCC_DXT4: u32 = 0x34545844;
/// The FourCC code `DXT5`.
pub const FOURCC_DXT5: u32 = 0x35545844;
/// The FourCC code `BC4U`.
pub const FOURCC_BC4U: u32 = 0x55344342;
/// The FourCC code `BC4S`.
pub const FOURCC_BC4S: u32 = 0x53344342;
/// The FourCC code `ATI2`.
pub const FOURCC_ATI2: u32 = 0x32495441;
/// The FourCC code `BC5U`.
pub const FOURCC_BC5U: u32 = 0x55354342;
/// The FourCC code `BC5S`.
pub const FOURCC_BC5S: u32 = 0x53354342;
/// The Direct3D 9 formats of DDS files without a DX10 header.
#[allow(non_camel_case_types)]
#[derive(Debug, PartialEq, Eq, Structural, Clone, Copy)]
pub enum D3dFormat {
    A8B8G8R8,
    G16R16,
    A2B10G10R10,
    A1R5G5B5,
    R5G6B5,
    A8,
    A8R8G8B8,
    X8R8G8B8,
    X8B8G8R8,
    A2R10G10B10,
    R8G8B8,
    X1R5G5B5,
    A4R4G4B4,
    X4R4G4B4,
    A8R3G3B2,
    A8L8,
    L16,
    L8,
    A4L4,
    DXT1,
    DXT3,
    DXT5,
    R8G8_B8G8,
    G8R8_G8B8,
    A16B16G16R16,
    Q16W16V16U16,
    R16F,
    G16R16F,
    A16B16G16R16F,
    R32F,
    G32R32F,
    A32B32G32R32F,
    DXT2,
    DXT4,
    UYVY,
    YUY2,
    CXV8U8,
}

/// The image format of the DXGI format code `code`, if it is supported.
pub open spec fn spec_image_format_from_dxgi(code: u32) -> Option<ImageFormat> {
    if code == DXGI_FORMAT_R8_UNORM {
        Some(ImageFormat::R8Unorm)
    } else if code == DXGI_FORMAT_R8_SNORM {
        Some(ImageFormat::R8Snorm)
    } else if code == DXGI_FORMAT_R8G8_UNORM {
        Some(ImageFormat::Rg8Unorm)
    } else if code == DXGI_FORMAT_R8G8_SNORM {
        Some(ImageFormat::Rg8Snorm)
    } else if code == DXGI_FORMAT_R8G8B8A8_UNORM {
        Some(ImageFormat::Rgba8Unorm)
    } else if code == DXGI_FORMAT_R8G8B8A8_UNORM_SRGB {
        Some(ImageFormat::Rgba8UnormSrgb)
    } else if code == DXGI_FORMAT_R16G16B16A16_FLOAT {
        Some(ImageFormat::Rgba16Float)
    } else if code == DXGI_FORMAT_R32G32B32A32_FLOAT {
        Some(ImageFormat::Rgba32Float)
    } else if code == DXGI_FORMAT_B8G8R8A8_UNORM {
        Some(ImageFormat::Bgra8Unorm)
    } else if code == DXGI_FORMAT_B8G8R8A8_UNORM_SRGB {
        Some(ImageFormat::Bgra8UnormSrgb)
    } else if code == DXGI_FORMAT_BC1_UNORM {
        Some(ImageFormat::BC1RgbaUnorm)
    } else if code == DXGI_FORMAT_BC1_UNORM_SRGB {
        Some(ImageFormat::BC1RgbaUnormSrgb)
    } else if code == DXGI_FORMAT_BC2_UNORM {
        Some(ImageFormat::BC2RgbaUnorm)
    } else if code == DXGI_FORMAT_BC2_UNORM_SRGB {
        Some(ImageFormat::BC2RgbaUnormSrgb)
    } else if code == DXGI_FORMAT_BC3_UNORM {
        Some(ImageFormat::BC3RgbaUnorm)
    } else if code == DXGI_FORMAT_BC3_UNORM_SRGB {
        Some(ImageFormat::BC3RgbaUnormSrgb)
    } else if code == DXGI_FORMAT_BC4_UNORM {
        Some(ImageFormat::BC4RUnorm)
    } else if code == DXGI_FORMAT_BC4_SNORM {
        Some(ImageFormat::BC4RSnorm)
    } else if code == DXGI_FORMAT_BC5_UNORM {
        Some(ImageFormat::BC5RgUnorm)
    } else if code == DXGI_FORMAT_BC5_SNORM {
        Some(ImageFormat::BC5RgSnorm)
    } else if code == DXGI_FORMAT_BC6H_SF16 {
        Some(ImageFormat::BC6hRgbSfloat)
    } else if code == DXGI_FORMAT_BC6H_UF16 {
        Some(ImageFormat::BC6hRgbUfloat)
    } else if code == DXGI_FORMAT_BC7_UNORM {
        Some(ImageFormat::BC7RgbaUnorm)
    } else if code == DXGI_FORMAT_BC7_UNORM_SRGB {
        Some(ImageFormat::BC7RgbaUnormSrgb)
    } else if code == DXGI_FORMAT_B4G4R4A4_UNORM {
        Some(ImageFormat::Bgra4Unorm)
    } else if code == DXGI_FORMAT_R16G16B16A16_UNORM {
        Some(ImageFormat::Rgba16Unorm)
    } else if code == DXGI_FORMAT_R16G16B16A16_SNORM {
        Some(ImageFormat::Rgba16Snorm)
    } else if code == DXGI_FORMAT_R16G16_UNORM {
        Some(ImageFormat::Rg16Unorm)
    } else if code == DXGI_FORMAT_R16G16_SNORM {
        Some(ImageFormat::Rg16Snorm)
    } else if code == DXGI_FORMAT_R16_UNORM {
        Some(ImageFormat::R16Unorm)
    } else if code == DXGI_FORMAT_R16_SNORM {
        Some(ImageFormat::R16Snorm)
    } else if code == DXGI_FORMAT_R16_FLOAT {
        Some(ImageFormat::R16Float)
    } else if code == DXGI_FORMAT_R16G16_FLOAT {
        Some(ImageFormat::Rg16Float)
    } else if code == DXGI_FORMAT_R32_FLOAT {
        Some(ImageFormat::R32Float)
    } else if code == DXGI_FORMAT_R32G32_FLOAT {
        Some(ImageFormat::Rg32Float)
    } else if code == DXGI_FORMAT_R8G8B8A8_SNORM {
        Some(ImageFormat::Rgba8Snorm)
    } else if code == DXGI_FORMAT_R32G32B32_FLOAT {
        Some(ImageFormat::Rgb32Float)
    } else if code == DXGI_FORMAT_B5G5R5A1_UNORM {
        Some(ImageFormat::Bgr5A1Unorm)
    } else {
        None
    }
}

/// The image format of the DXGI format code `code`, if it is supported.
pub fn image_format_from_dxgi(code: u32) -> (r: Option<ImageFormat>)
    ensures
        r == spec_image_format_from_dxgi(code),
{
    if code == DXGI_FORMAT_R8_UNORM {
        Some(ImageFormat::R8Unorm)
    } else if code == DXGI_FORMAT_R8_SNORM {
        Some(ImageFormat::R8Snorm)
    } else if code == DXGI_FORMAT_R8G8_UNORM {
        Some(ImageFormat::Rg8Unorm)
    } else if code == DXGI_FORMAT_R8G8_SNORM {
        Some(ImageFormat::Rg8Snorm)
    } else if code == DXGI_FORMAT_R8G8B8A8_UNORM {
        Some(ImageFormat::Rgba8Unorm)
    } else if code == DXGI_FORMAT_R8G8B8A8_UNORM_SRGB {
        Some(ImageFormat::Rgba8UnormSrgb)
    } else if code == DXGI_FORMAT_R16G16B16A16_FLOAT {
        Some(ImageFormat::Rgba16Float)
    } else if code == DXGI_FORMAT_R32G32B32A32_FLOAT {
        Some(ImageFormat::Rgba32Float)
    } else if code == DXGI_FORMAT_B8G8R8A8_UNORM {
        Some(ImageFormat::Bgra8Unorm)
    } else if code == DXGI_FORMAT_B8G8R8A8_UNORM_SRGB {
        Some(ImageFormat::Bgra8UnormSrgb)
    } else if code == DXGI_FORMAT_BC1_UNORM {
        Some(ImageFormat::BC1RgbaUnorm)
    } else if code == DXGI_FORMAT_BC1_UNORM_SRGB {
        Some(ImageFormat::BC1RgbaUnormSrgb)
    } else if code == DXGI_FORMAT_BC2_UNORM {
        Some(ImageFormat::BC2RgbaUnorm)
    } else if code == DXGI_FORMAT_BC2_UNORM_SRGB {
        Some(ImageFormat::BC2RgbaUnormSrgb)
    } else if code == DXGI_FORMAT_BC3_UNORM {
        Some(ImageFormat::BC3RgbaUnorm)
    } else if code == DXGI_FORMAT_BC3_UNORM_SRGB {
        Some(ImageFormat::BC3RgbaUnormSrgb)
    } else if code == DXGI_FORMAT_BC4_UNORM {
        Some(ImageFormat::BC4RUnorm)
    } else if code == DXGI_FORMAT_BC4_SNORM {
        Some(ImageFormat::BC4RSnorm)
    } else if code == DXGI_FORMAT_BC5_UNORM {
        Some(ImageFormat::BC5RgUnorm)
    } else if code == DXGI_FORMAT_BC5_SNORM {
        Some(ImageFormat::BC5RgSnorm)
    } else if code == DXGI_FORMAT_BC6H_SF16 {
        Some(ImageFormat::BC6hRgbSfloat)
    } else if code == DXGI_FORMAT_BC6H_UF16 {
        Some(ImageFormat::BC6hRgbUfloat)
    } else if code == DXGI_FORMAT_BC7_UNORM {
        Some(ImageFormat::BC7RgbaUnorm)
    } else if code == DXGI_FORMAT_BC7_UNORM_SRGB {
        Some(ImageFormat::BC7RgbaUnormSrgb)
    } else if code == DXGI_FORMAT_B4G4R4A4_UNORM {
        Some(ImageFormat::Bgra4Unorm)
    } else if code == DXGI_FORMAT_R16G16B16A16_UNORM {
        Some(ImageFormat::Rgba16Unorm)
    } else if code == DXGI_FORMAT_R16G16B16A16_SNORM {
        Some(ImageFormat::Rgba16Snorm)
    } else if code == DXGI_FORMAT_R16G16_UNORM {
        Some(ImageFormat::Rg16Unorm)
    } else if code == DXGI_FORMAT_R16G16_SNORM {
        Some(ImageFormat::Rg16Snorm)
    } else if code == DXGI_FORMAT_R16_UNORM {
        Some(ImageFormat::R16Unorm)
    } else if code == DXGI_FORMAT_R16_SNORM {
        Some(ImageFormat::R16Snorm)
    } else if code == DXGI_FORMAT_R16_FLOAT {
        Some(ImageFormat::R16Float)
    } else if code == DXGI_FORMAT_R16G16_FLOAT {
        Some(ImageFormat::Rg16Float)
    } else if code == DXGI_FORMAT_R32_FLOAT {
        Some(ImageFormat::R32Float)
    } else if code == DXGI_FORMAT_R32G32_FLOAT {
        Some(ImageFormat::Rg32Float)
    } else if code == DXGI_FORMAT_R8G8B8A8_SNORM {
        Some(ImageFormat::Rgba8Snorm)
    } else if code == DXGI_FORMAT_R32G32B32_FLOAT {
        Some(ImageFormat::Rgb32Float)
    } else if code == DXGI_FORMAT_B5G5R5A1_UNORM {
        Some(ImageFormat::Bgr5A1Unorm)
    } else {
        None
    }
}

/// The image format of the Direct3D 9 format `format`, if it is supported.
/// BGRA can also be written ARGB depending on how the bytes are read.
pub open spec fn spec_image_format_from_d3d(format: D3dFormat) -> Option<ImageFormat> {
    match format {
        D3dFormat::DXT1 => Some(ImageFormat::BC1RgbaUnorm),
        D3dFormat::DXT2 => Some(ImageFormat::BC2RgbaUnorm),
        D3dFormat::DXT3 => Some(ImageFormat::BC2RgbaUnorm),
        D3dFormat::DXT4 => Some(ImageFormat::BC3RgbaUnorm),
        D3dFormat::DXT5 => Some(ImageFormat::BC3RgbaUnorm),
        D3dFormat::A4R4G4B4 => Some(ImageFormat::Bgra4Unorm),
        D3dFormat::A8R8G8B8 => Some(ImageFormat::Bgra8Unorm),
        D3dFormat::R8G8B8 => Some(ImageFormat::Bgr8Unorm),
        D3dFormat::A8B8G8R8 => Some(ImageFormat::Rgba8Unorm),
        D3dFormat::G16R16F => Some(ImageFormat::Rg16Float),
        D3dFormat::A16B16G16R16F => Some(ImageFormat::Rgba16Float),
        D3dFormat::G32R32F => Some(ImageFormat::Rg32Float),
        D3dFormat::A32B32G32R32F => Some(ImageFormat::Rgba32Float),
        D3dFormat::G16R16 => Some(ImageFormat::Rg16Unorm),
        D3dFormat::A16B16G16R16 => Some(ImageFormat::Rgba16Unorm),
        D3dFormat::A1R5G5B5 => Some(ImageFormat::Bgr5A1Unorm),
        _ => None,
    }
}

/// The image format of the Direct3D 9 format `format`, if it is supported.
pub fn image_format_from_d3d(format: D3dFormat) -> (r: Option<ImageFormat>)
    ensures
        r == spec_image_format_from_d3d(format),
{
    match format {
        D3dFormat::DXT1 => Some(ImageFormat::BC1RgbaUnorm),
        D3dFormat::DXT2 => Some(ImageFormat::BC2RgbaUnorm),
        D3dFormat::DXT3 => Some(ImageFormat::BC2RgbaUnorm),
        D3dFormat::DXT4 => Some(ImageFormat::BC3RgbaUnorm),
        D3dFormat::DXT5 => Some(ImageFormat::BC3RgbaUnorm),
        D3dFormat::A4R4G4B4 => Some(ImageFormat::Bgra4Unorm),
        D3dFormat::A8R8G8B8 => Some(ImageFormat::Bgra8Unorm),
        D3dFormat::R8G8B8 => Some(ImageFormat::Bgr8Unorm),
        D3dFormat::A8B8G8R8 => Some(ImageFormat::Rgba8Unorm),
        D3dFormat::G16R16F => Some(ImageFormat::Rg16Float),
        D3dFormat::A16B16G16R16F => Some(ImageFormat::Rgba16Float),
        D3dFormat::G32R32F => Some(ImageFormat::Rg32Float),
        D3dFormat::A32B32G32R32F => Some(ImageFormat::Rgba32Float),
        D3dFormat::G16R16 => Some(ImageFormat::Rg16Unorm),
        D3dFormat::A16B16G16R16 => Some(ImageFormat::Rgba16Unorm),
        D3dFormat::A1R5G5B5 => Some(ImageFormat::Bgr5A1Unorm),
        _ => None,
    }
}

/// The image format of the FourCC code `code`, if it is supported.
pub open spec fn spec_image_format_from_fourcc(code: u32) -> Option<ImageFormat> {
    if code == FOURCC_DXT1 {
        Some(ImageFormat::BC1RgbaUnorm)
    } else if code == FOURCC_DXT2 {
        Some(ImageFormat::BC2RgbaUnorm)
    } else if code == FOURCC_DXT3 {
        Some(ImageFormat::BC2RgbaUnorm)
    } else if code == FOURCC_DXT4 {
        Some(ImageFormat::BC3RgbaUnorm)
    } else if code == FOURCC_DXT5 {
        Some(ImageFormat::BC3RgbaUnorm)
    } else if code == FOURCC_BC4U {
        Some(ImageFormat::BC4RUnorm)
    } else if code == FOURCC_BC4S {
        Some(ImageFormat::BC4RSnorm)
    } else if code == FOURCC_ATI2 {
        Some(ImageFormat::BC5RgUnorm)
    } else if code == FOURCC_BC5U {
        Some(ImageFormat::BC5RgUnorm)
    } else if code == FOURCC_BC5S {
        Some(ImageFormat::BC5RgSnorm)
    } else {
        None
    }
}

/// The image format of the FourCC code `code`, if it is supported.
pub fn image_format_from_fourcc(code: u32) -> (r: Option<ImageFormat>)
    ensures
        r == spec_image_format_from_fourcc(code),
{
    if code == FOURCC_DXT1 {
        Some(ImageFormat::BC1RgbaUnorm)
    } else if code == FOURCC_DXT2 {
        Some(ImageFormat::BC2RgbaUnorm)
    } else if code == FOURCC_DXT3 {
        Some(ImageFormat::BC2RgbaUnorm)
    } else if code == FOURCC_DXT4 {
        Some(ImageFormat::BC3RgbaUnorm)
    } else if code == FOURCC_DXT5 {
        Some(ImageFormat::BC3RgbaUnorm)
    } else if code == FOURCC_BC4U {
        Some(ImageFormat::BC4RUnorm)
    } else if code == FOURCC_BC4S {
        Some(ImageFormat::BC4RSnorm)
    } else if code == FOURCC_ATI2 {
        Some(ImageFormat::BC5RgUnorm)
    } else if code == FOURCC_BC5U {
        Some(ImageFormat::BC5RgUnorm)
    } else if code == FOURCC_BC5S {
        Some(ImageFormat::BC5RgSnorm)
    } else {
        None
    }
}

/// The Direct3D 9 format written for `format`, if there is one.
/// BC4 and BC5 are written with FourCC codes instead.
pub open spec fn spec_d3d_from_image_format(format: ImageFormat) -> Option<D3dFormat> {
    match format {
        ImageFormat::BC1RgbaUnorm => Some(D3dFormat::DXT1),
        ImageFormat::BC1RgbaUnormSrgb => Some(D3dFormat::DXT1),
        ImageFormat::BC2RgbaUnorm => Some(D3dFormat::DXT2),
        ImageFormat::BC2RgbaUnormSrgb => Some(D3dFormat::DXT2),
        ImageFormat::BC3RgbaUnorm => Some(D3dFormat::DXT5),
        ImageFormat::BC3RgbaUnormSrgb => Some(D3dFormat::DXT5),
        ImageFormat::BC4RUnorm => None,
        ImageFormat::BC4RSnorm => None,
        ImageFormat::BC5RgUnorm => None,
        ImageFormat::BC5RgSnorm => None,
        ImageFormat::BC6hRgbUfloat => None,
        ImageFormat::BC6hRgbSfloat => None,
        ImageFormat::BC7RgbaUnorm => None,
        ImageFormat::BC7RgbaUnormSrgb => None,
        ImageFormat::R8Unorm => None,
        ImageFormat::R8Snorm => None,
        ImageFormat::Rg8Unorm => None,
        ImageFormat::Rg8Snorm => None,
        ImageFormat::Rgba8Unorm => Some(D3dFormat::A8B8G8R8),
        ImageFormat::Rgba8UnormSrgb => Some(D3dFormat::A8B8G8R8),
        ImageFormat::Rgba16Float => Some(D3dFormat::A16B16G16R16F),
        ImageFormat::Rgba32Float => Some(D3dFormat::A32B32G32R32F),
        ImageFormat::Bgra8Unorm => Some(D3dFormat::A8R8G8B8),
        ImageFormat::Bgra8UnormSrgb => Some(D3dFormat::A8R8G8B8),
        ImageFormat::Bgra4Unorm => Some(D3dFormat::A4R4G4B4),
        ImageFormat::Bgr8Unorm => Some(D3dFormat::R8G8B8),
        ImageFormat::R16Unorm => None,
        ImageFormat::R16Snorm => None,
        ImageFormat::Rg16Unorm => Some(D3dFormat::G16R16),
        ImageFormat::Rg16Snorm => None,
        ImageFormat::Rgba16Unorm => Some(D3dFormat::A16B16G16R16),
        ImageFormat::Rgba16Snorm => None,
        ImageFormat::Rg16Float => Some(D3dFormat::G16R16F),
        ImageFormat::Rg32Float => Some(D3dFormat::G32R32F),
        ImageFormat::R16Float => Some(D3dFormat::R16F),
        ImageFormat::R32Float => Some(D3dFormat::R32F),
        ImageFormat::Rgba8Snorm => None,
        ImageFormat::Rgb32Float => None,
        ImageFormat::Bgr5A1Unorm => Some(D3dFormat::A1R5G5B5),
    }
}

/// The Direct3D 9 format written for `format`, if there is one.
pub fn d3d_from_image_format(format: ImageFormat) -> (r: Option<D3dFormat>)
    ensures
        r == spec_d3d_from_image_format(format),
{
    match format {
        ImageFormat::BC1RgbaUnorm => Some(D3dFormat::DXT1),
        ImageFormat::BC1RgbaUnormSrgb => Some(D3dFormat::DXT1),
        ImageFormat::BC2RgbaUnorm => Some(D3dFormat::DXT2),
        ImageFormat::BC2RgbaUnormSrgb => Some(D3dFormat::DXT2),
        ImageFormat::BC3RgbaUnorm => Some(D3dFormat::DXT5),
        ImageFormat::BC3RgbaUnormSrgb => Some(D3dFormat::DXT5),
        ImageFormat::BC4RUnorm => None,
        ImageFormat::BC4RSnorm => None,
        ImageFormat::BC5RgUnorm => None,
        ImageFormat::BC5RgSnorm => None,
        ImageFormat::BC6hRgbUfloat => None,
        ImageFormat::BC6hRgbSfloat => None,
        ImageFormat::BC7RgbaUnorm => None,
        ImageFormat::BC7RgbaUnormSrgb => None,
        ImageFormat::R8Unorm => None,
        ImageFormat::R8Snorm => None,
        ImageFormat::Rg8Unorm => None,
        ImageFormat::Rg8Snorm => None,
        ImageFormat::Rgba8Unorm => Some(D3dFormat::A8B8G8R8),
        ImageFormat::Rgba8UnormSrgb => Some(D3dFormat::A8B8G8R8),
        ImageFormat::Rgba16Float => Some(D3dFormat::A16B16G16R16F),
        ImageFormat::Rgba32Float => Some(D3dFormat::A32B32G32R32F),
        ImageFormat::Bgra8Unorm => Some(D3dFormat::A8R8G8B8),
        ImageFormat::Bgra8UnormSrgb => Some(D3dFormat::A8R8G8B8),
        ImageFormat::Bgra4Unorm => Some(D3dFormat::A4R4G4B4),
        ImageFormat::Bgr8Unorm => Some(D3dFormat::R8G8B8),
        ImageFormat::R16Unorm => None,
        ImageFormat::R16Snorm => None,
        ImageFormat::Rg16Unorm => Some(D3dFormat::G16R16),
        ImageFormat::Rg16Snorm => None,
        ImageFormat::Rgba16Unorm => Some(D3dFormat::A16B16G16R16),
        ImageFormat::Rgba16Snorm => None,
        ImageFormat::Rg16Float => Some(D3dFormat::G16R16F),
        ImageFormat::Rg32Float => Some(D3dFormat::G32R32F),
        ImageFormat::R16Float => Some(D3dFormat::R16F),
        ImageFormat::R32Float => Some(D3dFormat::R32F),
        ImageFormat::Rgba8Snorm => None,
        ImageFormat::Rgb32Float => None,
        ImageFormat::Bgr5A1Unorm => Some(D3dFormat::A1R5G5B5),
    }
}

/// What the name of the DXGI format `code` says of its data, in the terms of
/// [format_layout]: the BCn number (the codes of `BC1` to `BC5` come in threes from 70:
/// typeless, then `UNORM`, then `UNORM_SRGB` or `SNORM`; `BC6H` is 94 to 96 and `BC7` 97 to
/// 99), the number of channels, the bits of the first channel, and whether it is `SNORM` or
/// `SF16`, `SRGB`, `FLOAT` or `BC6H`, and blue first.
pub open spec fn dxgi_layout(code: u32) -> (nat, nat, nat, bool, bool, bool, bool) {
    let bc: nat = if 70 <= code <= 84 {
        ((code - 70) / 3 + 1) as nat
    } else if 94 <= code <= 96 {
        6
    } else if 97 <= code <= 99 {
        7
    } else {
        0
    };
    let channels: nat = if code == DXGI_FORMAT_R8_UNORM || code == DXGI_FORMAT_R8_SNORM
        || code == DXGI_FORMAT_R16_UNORM || code == DXGI_FORMAT_R16_SNORM || code == DXGI_FORMAT_R16_FLOAT
        || code == DXGI_FORMAT_R32_FLOAT || code == DXGI_FORMAT_BC4_UNORM || code == DXGI_FORMAT_BC4_SNORM {
        1
    } else if code == DXGI_FORMAT_R8G8_UNORM || code == DXGI_FORMAT_R8G8_SNORM || code == DXGI_FORMAT_R16G16_UNORM
        || code == DXGI_FORMAT_R16G16_SNORM || code == DXGI_FORMAT_R16G16_FLOAT || code == DXGI_FORMAT_R32G32_FLOAT
        || code == DXGI_FORMAT_BC5_UNORM || code == DXGI_FORMAT_BC5_SNORM {
        2
    } else if code == DXGI_FORMAT_R32G32B32_FLOAT || code == DXGI_FORMAT_BC6H_UF16 || code == DXGI_FORMAT_BC6H_SF16 {
        3
    } else {
        4
    };
    let bits: nat = if code == DXGI_FORMAT_R8_UNORM || code == DXGI_FORMAT_R8_SNORM || code == DXGI_FORMAT_R8G8_UNORM
        || code == DXGI_FORMAT_R8G8_SNORM || code == DXGI_FORMAT_R8G8B8A8_UNORM
        || code == DXGI_FORMAT_R8G8B8A8_UNORM_SRGB || code == DXGI_FORMAT_R8G8B8A8_SNORM
        || code == DXGI_FORMAT_B8G8R8A8_UNORM || code == DXGI_FORMAT_B8G8R8A8_UNORM_SRGB {
        8
    } else if code == DXGI_FORMAT_R16_UNORM || code == DXGI_FORMAT_R16_SNORM || code == DXGI_FORMAT_R16_FLOAT
        || code == DXGI_FORMAT_R16G16_UNORM || code == DXGI_FORMAT_R16G16_SNORM || code == DXGI_FORMAT_R16G16_FLOAT
        || code == DXGI_FORMAT_R16G16B16A16_UNORM || code == DXGI_FORMAT_R16G16B16A16_SNORM
        || code == DXGI_FORMAT_R16G16B16A16_FLOAT {
        16
    } else if code == DXGI_FORMAT_R32_FLOAT || code == DXGI_FORMAT_R32G32_FLOAT || code == DXGI_FORMAT_R32G32B32_FLOAT
        || code == DXGI_FORMAT_R32G32B32A32_FLOAT {
        32
    } else if code == DXGI_FORMAT_B4G4R4A4_UNORM {
        4
    } else if code == DXGI_FORMAT_B5G5R5A1_UNORM {
        5
    } else {
        0
    };
    let signed = code == DXGI_FORMAT_R8_SNORM || code == DXGI_FORMAT_R8G8_SNORM || code == DXGI_FORMAT_R8G8B8A8_SNORM
        || code == DXGI_FORMAT_R16_SNORM || code == DXGI_FORMAT_R16G16_SNORM || code == DXGI_FORMAT_R16G16B16A16_SNORM
        || code == DXGI_FORMAT_BC4_SNORM || code == DXGI_FORMAT_BC5_SNORM || code == DXGI_FORMAT_BC6H_SF16;
    let srgb = code == DXGI_FORMAT_R8G8B8A8_UNORM_SRGB || code == DXGI_FORMAT_B8G8R8A8_UNORM_SRGB
        || code == DXGI_FORMAT_BC1_UNORM_SRGB || code == DXGI_FORMAT_BC2_UNORM_SRGB || code == DXGI_FORMAT_BC3_UNORM_SRGB
        || code == DXGI_FORMAT_BC7_UNORM_SRGB;
    let float = code == DXGI_FORMAT_R16_FLOAT || code == DXGI_FORMAT_R16G16_FLOAT
        || code == DXGI_FORMAT_R16G16B16A16_FLOAT || code == DXGI_FORMAT_R32_FLOAT || code == DXGI_FORMAT_R32G32_FLOAT
        || code == DXGI_FORMAT_R32G32B32_FLOAT || code == DXGI_FORMAT_R32G32B32A32_FLOAT
        || code == DXGI_FORMAT_BC6H_UF16 || code == DXGI_FORMAT_BC6H_SF16;
    let bgr = code == DXGI_FORMAT_B8G8R8A8_UNORM || code == DXGI_FORMAT_B8G8R8A8_UNORM_SRGB
        || code == DXGI_FORMAT_B4G4R4A4_UNORM || code == DXGI_FORMAT_B5G5R5A1_UNORM;
    (bc, channels, bits, signed, srgb, float, bgr)
}

/// The DXGI format code written for `format`, if there is one.
pub open spec fn spec_dxgi_from_image_format(format: ImageFormat) -> Option<u32> {
    match format {
        ImageFormat::BC1RgbaUnorm => Some(DXGI_FORMAT_BC1_UNORM),
        ImageFormat::BC1RgbaUnormSrgb => Some(DXGI_FORMAT_BC1_UNORM_SRGB),
        ImageFormat::BC2RgbaUnorm => Some(DXGI_FORMAT_BC2_UNORM),
        ImageFormat::BC2RgbaUnormSrgb => Some(DXGI_FORMAT_BC2_UNORM_SRGB),
        ImageFormat::BC3RgbaUnorm => Some(DXGI_FORMAT_BC3_UNORM),
        ImageFormat::BC3RgbaUnormSrgb => Some(DXGI_FORMAT_BC3_UNORM_SRGB),
        ImageFormat::BC4RUnorm => Some(DXGI_FORMAT_BC4_UNORM),
        ImageFormat::BC4RSnorm => Some(DXGI_FORMAT_BC4_SNORM),
        ImageFormat::BC5RgUnorm => Some(DXGI_FORMAT_BC5_UNORM),
        ImageFormat::BC5RgSnorm => Some(DXGI_FORMAT_BC5_SNORM),
        ImageFormat::BC6hRgbUfloat => Some(DXGI_FORMAT_BC6H_UF16),
        ImageFormat::BC6hRgbSfloat => Some(DXGI_FORMAT_BC6H_SF16),
        ImageFormat::BC7RgbaUnorm => Some(DXGI_FORMAT_BC7_UNORM),
        ImageFormat::BC7RgbaUnormSrgb => Some(DXGI_FORMAT_BC7_UNORM_SRGB),
        ImageFormat::R8Unorm => Some(DXGI_FORMAT_R8_UNORM),
        ImageFormat::R8Snorm => Some(DXGI_FORMAT_R8_SNORM),
        ImageFormat::Rg8Unorm => Some(DXGI_FORMAT_R8G8_UNORM),
        ImageFormat::Rg8Snorm => Some(DXGI_FORMAT_R8G8_SNORM),
        ImageFormat::Rgba8Unorm => Some(DXGI_FORMAT_R8G8B8A8_UNORM),
        ImageFormat::Rgba8UnormSrgb => Some(DXGI_FORMAT_R8G8B8A8_UNORM_SRGB),
        ImageFormat::Rgba16Float => Some(DXGI_FORMAT_R16G16B16A16_FLOAT),
        ImageFormat::Rgba32Float => Some(DXGI_FORMAT_R32G32B32A32_FLOAT),
        ImageFormat::Bgra8Unorm => Some(DXGI_FORMAT_B8G8R8A8_UNORM),
        ImageFormat::Bgra8UnormSrgb => Some(DXGI_FORMAT_B8G8R8A8_UNORM_SRGB),
        ImageFormat::Bgra4Unorm => Some(DXGI_FORMAT_B4G4R4A4_UNORM),
        ImageFormat::Bgr8Unorm => None,
        ImageFormat::R16Unorm => Some(DXGI_FORMAT_R16_UNORM),
        ImageFormat::R16Snorm => Some(DXGI_FORMAT_R16_SNORM),
        ImageFormat::Rg16Unorm => Some(DXGI_FORMAT_R16G16_UNORM),
        ImageFormat::Rg16Snorm => Some(DXGI_FORMAT_R16G16_SNORM),
        ImageFormat::Rgba16Unorm => Some(DXGI_FORMAT_R16G16B16A16_UNORM),
        ImageFormat::Rgba16Snorm => Some(DXGI_FORMAT_R16G16B16A16_SNORM),
        ImageFormat::Rg16Float => Some(DXGI_FORMAT_R16G16_FLOAT),
        ImageFormat::Rg32Float => Some(DXGI_FORMAT_R32G32_FLOAT),
        ImageFormat::R16Float => Some(DXGI_FORMAT_R16_FLOAT),
        ImageFormat::R32Float => Some(DXGI_FORMAT_R32_FLOAT),
        ImageFormat::Rgba8Snorm => Some(DXGI_FORMAT_R8G8B8A8_SNORM),
        ImageFormat::Rgb32Float => Some(DXGI_FORMAT_R32G32B32_FLOAT),
        ImageFormat::Bgr5A1Unorm => Some(DXGI_FORMAT_B5G5R5A1_UNORM),
    }
}

/// The DXGI format code written for `format`, if there is one.
pub fn dxgi_from_image_format(format: ImageFormat) -> (r: Option<u32>)
    ensures
        r == spec_dxgi_from_image_format(format),
{
    match format {
        ImageFormat::BC1RgbaUnorm => Some(DXGI_FORMAT_BC1_UNORM),
        ImageFormat::BC1RgbaUnormSrgb => Some(DXGI_FORMAT_BC1_UNORM_SRGB),
        ImageFormat::BC2RgbaUnorm => Some(DXGI_FORMAT_BC2_UNORM),
        ImageFormat::BC2RgbaUnormSrgb => Some(DXGI_FORMAT_BC2_UNORM_SRGB),
        ImageFormat::BC3RgbaUnorm => Some(DXGI_FORMAT_BC3_UNORM),
        ImageFormat::BC3RgbaUnormSrgb => Some(DXGI_FORMAT_BC3_UNORM_SRGB),
        ImageFormat::BC4RUnorm => Some(DXGI_FORMAT_BC4_UNORM),
        ImageFormat::BC4RSnorm => Some(DXGI_FORMAT_BC4_SNORM),
        ImageFormat::BC5RgUnorm => Some(DXGI_FORMAT_BC5_UNORM),
        ImageFormat::BC5RgSnorm => Some(DXGI_FORMAT_BC5_SNORM),
        ImageFormat::BC6hRgbUfloat => Some(DXGI_FORMAT_BC6H_UF16),
        ImageFormat::BC6hRgbSfloat => Some(DXGI_FORMAT_BC6H_SF16),
        ImageFormat::BC7RgbaUnorm => Some(DXGI_FORMAT_BC7_UNORM),
        ImageFormat::BC7RgbaUnormSrgb => Some(DXGI_FORMAT_BC7_UNORM_SRGB),
        ImageFormat::R8Unorm => Some(DXGI_FORMAT_R8_UNORM),
        ImageFormat::R8Snorm => Some(DXGI_FORMAT_R8_SNORM),
        ImageFormat::Rg8Unorm => Some(DXGI_FORMAT_R8G8_UNORM),
        ImageFormat::Rg8Snorm => Some(DXGI_FORMAT_R8G8_SNORM),
        ImageFormat::Rgba8Unorm => Some(DXGI_FORMAT_R8G8B8A8_UNORM),
        ImageFormat::Rgba8UnormSrgb => Some(DXGI_FORMAT_R8G8B8A8_UNORM_SRGB),
        ImageFormat::Rgba16Float => Some(DXGI_FORMAT_R16G16B16A16_FLOAT),
        ImageFormat::Rgba32Float => Some(DXGI_FORMAT_R32G32B32A32_FLOAT),
        ImageFormat::Bgra8Unorm => Some(DXGI_FORMAT_B8G8R8A8_UNORM),
        ImageFormat::Bgra8UnormSrgb => Some(DXGI_FORMAT_B8G8R8A8_UNORM_SRGB),
        ImageFormat::Bgra4Unorm => Some(DXGI_FORMAT_B4G4R4A4_UNORM),
        ImageFormat::Bgr8Unorm => None,
        ImageFormat::R16Unorm => Some(DXGI_FORMAT_R16_UNORM),
        ImageFormat::R16Snorm => Some(DXGI_FORMAT_R16_SNORM),
        ImageFormat::Rg16Unorm => Some(DXGI_FORMAT_R16G16_UNORM),
        ImageFormat::Rg16Snorm => Some(DXGI_FORMAT_R16G16_SNORM),
        ImageFormat::Rgba16Unorm => Some(DXGI_FORMAT_R16G16B16A16_UNORM),
        ImageFormat::Rgba16Snorm => Some(DXGI_FORMAT_R16G16B16A16_SNORM),
        ImageFormat::Rg16Float => Some(DXGI_FORMAT_R16G16_FLOAT),
        ImageFormat::Rg32Float => Some(DXGI_FORMAT_R32G32_FLOAT),
        ImageFormat::R16Float => Some(DXGI_FORMAT_R16_FLOAT),
        ImageFormat::R32Float => Some(DXGI_FORMAT_R32_FLOAT),
        ImageFormat::Rgba8Snorm => Some(DXGI_FORMAT_R8G8B8A8_SNORM),
        ImageFormat::Rgb32Float => Some(DXGI_FORMAT_R32G32B32_FLOAT),
        ImageFormat::Bgr5A1Unorm => Some(DXGI_FORMAT_B5G5R5A1_UNORM),
    }
}

/// The format identifiers of a DDS file: its DXGI format code, Direct3D 9 format and FourCC
/// code, each where the file has one.
#[derive(Debug, PartialEq, Eq, Structural, Clone, Copy)]
pub struct DdsFormatInfo {
    pub dxgi: Option<u32>,
    pub d3d: Option<D3dFormat>,
    pub fourcc: Option<u32>,
}

/// The image format of a DDS file with the format identifiers `info`: from its Direct3D 9
/// format, else from its DXGI format, else from its FourCC code, or `info` itself if none
/// of them is supported.
pub open spec fn spec_dds_image_format(info: DdsFormatInfo) -> Result<ImageFormat, DdsFormatInfo> {
    let from_d3d = match info.d3d {
        Some(d) => spec_image_format_from_d3d(d),
        None => None,
    };
    let from_dxgi = match info.dxgi {
        Some(c) => spec_image_format_from_dxgi(c),
        None => None,
    };
    let from_fourcc = match info.fourcc {
        Some(c) => spec_image_format_from_fourcc(c),
        None => None,
    };
    match (from_d3d, from_dxgi, from_fourcc) {
        (Some(f), _, _) => Ok(f),
        (None, Some(f), _) => Ok(f),
        (None, None, Some(f)) => Ok(f),
        (None, None, None) => Err(info),
    }
}

/// The image format of a DDS file with the format identifiers `info`, or `info` if the
/// format is not supported.
pub fn dds_image_format(info: DdsFormatInfo) -> (r: Result<ImageFormat, DdsFormatInfo>)
    ensures
        r == spec_dds_image_format(info),
{
    // The format can be DXGI, D3D, or specified in the FOURCC.
    let from_d3d = match info.d3d {
        Some(d) => image_format_from_d3d(d),
        None => None,
    };
    if let Some(f) = from_d3d {
        return Ok(f);
    }
    let from_dxgi = match info.dxgi {
        Some(c) => image_format_from_dxgi(c),
        None => None,
    };
    if let Some(f) = from_dxgi {
        return Ok(f);
    }
    let from_fourcc = match info.fourcc {
        Some(c) => image_format_from_fourcc(c),
        None => None,
    };
    match from_fourcc {
        Some(f) => Ok(f),
        None => Err(info),
    }
}

/// The number of array layers of a DDS file that stores `array_layers` layers, counted as
/// at least 1, where a cube map has 6 faces for each of its layers. `None` if that number
/// does not fit in `u32`.
pub open spec fn spec_array_layer_count(array_layers: u32, is_cubemap: bool) -> Option<u32> {
    let layers = if array_layers < 1 { 1 } else { array_layers };
    if !is_cubemap {
        Some(layers)
    } else if layers * 6 <= u32::MAX {
        Some((layers * 6) as u32)
    } else {
        None
    }
}

/// The number of array layers of a DDS file that stores `array_layers` layers.
/// Array layers for DDS are calculated differently for cube maps.
pub fn array_layer_count(array_layers: u32, is_cubemap: bool) -> (r: Option<u32>)
    ensures
        r == spec_array_layer_count(array_layers, is_cubemap),
{
    let layers = if array_layers < 1 { 1 } else { array_layers };
    if is_cubemap {
        layers.checked_mul(6)
    } else {
        Some(layers)
    }
}

/// The header values and image data of a DDS file.
#[derive(Debug, PartialEq, Eq, Clone, Copy)]
pub struct DdsView<'a> {
    pub width: u32,
    pub height: u32,
    pub depth: u32,
    /// The number of array layers that the file stores; cube maps store 6 faces per layer.
    pub array_layers: u32,
    /// Whether the file is a cube map.
    pub is_cubemap: bool,
    pub mipmaps: u32,
    pub format: DdsFormatInfo,
    pub data: &'a [u8],
}

impl<'a> Surface<&'a [u8]> {
    /// Create a view over the data in `dds` without any copies.
    pub fn from_dds(dds: &DdsView<'a>) -> (r: Result<Surface<&'a [u8]>, SurfaceError>)
        ensures
            match spec_dds_image_format(dds.format) {
                Err(info) => r == Err::<Surface<&'a [u8]>, SurfaceError>(SurfaceError::UnsupportedDdsFormat(info)),
                Ok(format) => match spec_array_layer_count(dds.array_layers, dds.is_cubemap) {
                    None => r == Err::<Surface<&'a [u8]>, SurfaceError>(SurfaceError::PixelCountWouldOverflow {
                        width: dds.width,
                        height: dds.height,
                        depth: dds.depth,
                    }),
                    Some(layers) => r matches Ok(s) && s.width == dds.width && s.height == dds.height
                        && s.depth == dds.depth && s.layers == layers && s.mipmaps == dds.mipmaps
                        && s.image_format == format && s.data@ == dds.data@,
                },
            },
    {
        let image_format = match dds_image_format(dds.format) {
            Err(info) => return Err(SurfaceError::UnsupportedDdsFormat(info)),
            Ok(f) => f,
        };
        let layers = match array_layer_count(dds.array_layers, dds.is_cubemap) {
            None => {
                return Err(SurfaceError::PixelCountWouldOverflow {
                    width: dds.width,
                    height: dds.height,
                    depth: dds.depth,
                })
            },
            Some(l) => l,
        };
        Ok(Surface {
            width: dds.width,
            height: dds.height,
            depth: dds.depth,
            layers,
            mipmaps: dds.mipmaps,
            image_format,
            data: dds.data,
        })
    }
}

/// How a DDS file names its format: by a DXGI format code or by a Direct3D 9 format.
#[derive(Debug, PartialEq, Eq, Structural, Clone, Copy)]
pub enum DdsFormat {
    Dxgi(u32),
    D3d(D3dFormat),
}

/// The header values of a new DDS file for a surface.
#[derive(Debug, PartialEq, Eq, Structural, Clone, Copy)]
pub struct DdsParams {
    pub width: u32,
    pub height: u32,
    /// The depth of a volume texture, `None` for a 2D texture.
    pub depth: Option<u32>,
    pub format: DdsFormat,
    /// The mipmap count if there is more than the base level.
    pub mipmap_levels: Option<u32>,
    /// The array layer count of a DXGI file if there is more than one layer and the surface
    /// is not a cube map.
    pub array_layers: Option<u32>,
    /// Whether the surface is a cube map, which has 6 layers.
    pub is_cubemap: bool,
    /// Whether the surface is a volume texture.
    pub is_3d: bool,
}

/// The DXGI tables agree with the names of the formats: the DXGI format written for an
/// image format, and the image format read for a DXGI format, describe the same data, with
/// the same BCn number, channels, bits per channel, signedness, sRGB encoding, floating point
/// and channel order. No two image formats have the same description, so neither table can
/// exchange two formats.
pub proof fn lemma_dxgi_tables_follow_names(format: ImageFormat, code: u32, other: ImageFormat)
    ensures
        spec_dxgi_from_image_format(format) == Some(code) ==> dxgi_layout(code) == format_layout(format),
        spec_image_format_from_dxgi(code) == Some(format) ==> format_layout(format) == dxgi_layout(code),
        format_layout(format) == format_layout(other) && (spec_dxgi_from_image_format(format) is Some
            || spec_dxgi_from_image_format(other) is Some) ==> format == other,
{
}

/// What the name of the Direct3D 9 format `format` says of its data, in the terms of
/// [format_layout]. Channels are named from the highest bits down, so `A8R8G8B8` stores
/// blue first and `A8B8G8R8` red first; `DXT1` is BC1, `DXT2` and `DXT3` are BC2, and
/// `DXT4` and `DXT5` are BC3. None of these is signed or sRGB encoded.
pub open spec fn d3d_layout(format: D3dFormat) -> (nat, nat, nat, bool, bool, bool, bool) {
    match format {
        D3dFormat::DXT1 => (1, 4, 0, false, false, false, false),
        D3dFormat::DXT2 | D3dFormat::DXT3 => (2, 4, 0, false, false, false, false),
        D3dFormat::DXT4 | D3dFormat::DXT5 => (3, 4, 0, false, false, false, false),
        D3dFormat::A4R4G4B4 => (0, 4, 4, false, false, false, true),
        D3dFormat::A8R8G8B8 => (0, 4, 8, false, false, false, true),
        D3dFormat::R8G8B8 => (0, 3, 8, false, false, false, true),
        D3dFormat::A8B8G8R8 => (0, 4, 8, false, false, false, false),
        D3dFormat::A1R5G5B5 => (0, 4, 5, false, false, false, true),
        D3dFormat::G16R16 => (0, 2, 16, false, false, false, false),
        D3dFormat::A16B16G16R16 => (0, 4, 16, false, false, false, false),
        D3dFormat::R16F => (0, 1, 16, false, false, true, false),
        D3dFormat::G16R16F => (0, 2, 16, false, false, true, false),
        D3dFormat::A16B16G16R16F => (0, 4, 16, false, false, true, false),
        D3dFormat::R32F => (0, 1, 32, false, false, true, false),
        D3dFormat::G32R32F => (0, 2, 32, false, false, true, false),
        D3dFormat::A32B32G32R32F => (0, 4, 32, false, false, true, false),
        _ => (0, 0, 0, false, false, false, false),
    }
}

/// What the FourCC code `code` says of its data, in the terms of [format_layout]: `DXT1`
/// is BC1, `DXT2` and `DXT3` BC2, `DXT4` and `DXT5` BC3, `BC4U` and `BC4S` unsigned and
/// signed BC4, and `ATI2`, `BC5U` and `BC5S` unsigned, unsigned and signed BC5.
pub open spec fn fourcc_layout(code: u32) -> (nat, nat, nat, bool, bool, bool, bool) {
    if code == FOURCC_DXT1 {
        (1, 4, 0, false, false, false, false)
    } else if code == FOURCC_DXT2 || code == FOURCC_DXT3 {
        (2, 4, 0, false, false, false, false)
    } else if code == FOURCC_DXT4 || code == FOURCC_DXT5 {
        (3, 4, 0, false, false, false, false)
    } else if code == FOURCC_BC4U || code == FOURCC_BC4S {
        (4, 1, 0, code == FOURCC_BC4S, false, false, false)
    } else if code == FOURCC_ATI2 || code == FOURCC_BC5U || code == FOURCC_BC5S {
        (5, 2, 0, code == FOURCC_BC5S, false, false, false)
    } else {
        (0, 0, 0, false, false, false, false)
    }
}

/// The Direct3D 9 and FourCC tables agree with the names of the formats: the image format
/// read for a Direct3D 9 format or a FourCC code describes the same data as that format or
/// code, and the Direct3D 9 format written for an image format describes the same data but
/// for sRGB encoding, which Direct3D 9 formats do not name.
pub proof fn lemma_d3d_fourcc_tables_follow_names(format: ImageFormat, d3d: D3dFormat, code: u32)
    ensures
        spec_image_format_from_d3d(d3d) == Some(format) ==> format_layout(format) == d3d_layout(d3d),
        spec_image_format_from_fourcc(code) == Some(format) ==> format_layout(format) == fourcc_layout(code),
        spec_d3d_from_image_format(format) == Some(d3d) ==> {
            let (bc, channels, bits, signed, srgb, float, bgr) = format_layout(format);
            d3d_layout(d3d) == (bc, channels, bits, signed, false, float, bgr)
        },
{
}

/// The format written for `format`: its DXGI format if there is one, and its Direct3D 9
/// format for the few formats that DXGI lacks.
pub open spec fn spec_dds_format(format: ImageFormat) -> DdsFormat {
    match spec_dxgi_from_image_format(format) {
        Some(c) => DdsFormat::Dxgi(c),
        None => DdsFormat::D3d(spec_d3d_from_image_format(format)->0),
    }
}

/// Every image format has a DXGI or a Direct3D 9 format.
proof fn lemma_format_written(format: ImageFormat)
    ensures
        spec_dxgi_from_image_format(format) is Some || spec_d3d_from_image_format(format) is Some,
{
}

/// The format written for `format`.
pub fn dds_format(format: ImageFormat) -> (r: DdsFormat)
    ensures
        r == spec_dds_format(format),
{
    match dxgi_from_image_format(format) {
        Some(c) => DdsFormat::Dxgi(c),
        None => {
            proof {
                lemma_format_written(format);
            }
            // Not all surface formats are supported by DXGI.
            match d3d_from_image_format(format) {
                Some(d) => DdsFormat::D3d(d),
                None => {
                    proof {
                        assert(false);
                    }
                    DdsFormat::D3d(D3dFormat::A8B8G8R8)
                },
            }
        },
    }
}

/// The header values of a DDS file for a `width` x `height` x `depth` surface with `layers`
/// array layers and `mipmaps` mipmaps in `format`.
pub open spec fn spec_dds_params(
    width: u32,
    height: u32,
    depth: u32,
    layers: u32,
    mipmaps: u32,
    format: ImageFormat,
) -> DdsParams {
    DdsParams {
        width,
        height,
        depth: if depth > 1 { Some(depth) } else { None },
        format: spec_dds_format(format),
        mipmap_levels: if mipmaps > 1 { Some(mipmaps) } else { None },
        array_layers: if layers > 1 && layers != 6 { Some(layers) } else { None },
        is_cubemap: layers == 6,
        is_3d: depth > 1,
    }
}

impl<T> Surface<T> {
    /// The header values of a DDS file with the same dimensions, layers, mipmaps and format.
    ///
    /// A DXGI format is used for most formats and a Direct3D 9 format for some legacy formats.
    pub fn dds_params(&self) -> (r: DdsParams)
        ensures
            r == spec_dds_params(self.width, self.height, self.depth, self.layers, self.mipmaps, self.image_format),
    {
        DdsParams {
            width: self.width,
            height: self.height,
            depth: if self.depth > 1 { Some(self.depth) } else { None },
            format: dds_format(self.image_format),
            mipmap_levels: if self.mipmaps > 1 { Some(self.mipmaps) } else { None },
            array_layers: if self.layers > 1 && self.layers != 6 { Some(self.layers) } else { None },
            is_cubemap: self.layers == 6,
            is_3d: self.depth > 1,
        }
    }
}

/// The format identifiers of a file written with the format `format`.
pub open spec fn written_format_info(format: DdsFormat) -> DdsFormatInfo {
    match format {
        DdsFormat::Dxgi(c) => DdsFormatInfo { dxgi: Some(c), d3d: None, fourcc: None },
        DdsFormat::D3d(d) => DdsFormatInfo { dxgi: None, d3d: Some(d), fourcc: None },
    }
}

/// Reading the format of a DDS file written for any image format gives that format back.
pub proof fn lemma_dds_format_roundtrip(format: ImageFormat)
    ensures
        spec_dds_image_format(written_format_info(spec_dds_format(format))) == Ok::<ImageFormat, DdsFormatInfo>(format),
{
}

/// Whether the header values of `view` are those that `params` ask a new DDS file for:
/// the dimensions, a depth and mipmap count of 1 where none is given, the same number of
/// array layers (6 for a cube map, 1 where none is given), and the format identifiers of the
/// format written.
pub open spec fn stores_params(view: DdsView, params: DdsParams) -> bool {
    &&& view.width == params.width
    &&& view.height == params.height
    &&& view.depth == match params.depth {
        Some(d) => d,
        None => 1,
    }
    &&& view.mipmaps == match params.mipmap_levels {
        Some(m) => m,
        None => 1,
    }
    &&& spec_array_layer_count(view.array_layers, view.is_cubemap) == Some(
        if params.is_cubemap {
            6u32
        } else {
            match params.array_layers {
                Some(l) => l,
                None => 1,
            }
        },
    )
    &&& view.format == written_format_info(params.format)
}

/// A DDS file that stores the header values that `dds_params` gives for a surface with at
/// least one depth slice, array layer and mipmap reads back, through `Surface::from_dds`,
/// as that surface: its format, array layers, dimensions and mipmap count are read back
/// unchanged.
pub proof fn lemma_dds_surface_roundtrip(
    width: u32,
    height: u32,
    depth: u32,
    layers: u32,
    mipmaps: u32,
    format: ImageFormat,
    view: DdsView,
)
    requires
        depth >= 1,
        layers >= 1,
        mipmaps >= 1,
        stores_params(view, spec_dds_params(width, height, depth, layers, mipmaps, format)),
    ensures
        spec_dds_image_format(view.format) == Ok::<ImageFormat, DdsFormatInfo>(format),
        spec_array_layer_count(view.array_layers, view.is_cubemap) == Some(layers),
        view.width == width,
        view.height == height,
        view.depth == depth,
        view.mipmaps == mipmaps,
{
    lemma_dds_format_roundtrip(format);
}

} // verus!
