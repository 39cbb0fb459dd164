//! Block compression with the ISPC texture compressor of `intel_tex_2`.
//!
//! The compressor picks a kernel for the instruction set of the processor it runs on, so
//! the blocks it writes are not a function of its input alone: of its output, only the
//! length is stated.
use vstd::prelude::*;
// The compressor's prebuilt kernels hold C++ objects, which need the C++ runtime linked.
use link_cplusplus as _;
use intel_tex_2::bc6h::EncodeSettings as Bc6hSettings;
use intel_tex_2::bc7::EncodeSettings as Bc7Settings;
use crate::bcn_encode::{compressed_size, compressor_input, part_len, Compressor, EncodedPart};

verus! {

/// The settings of the BC6H compressor.
#[verifier::external_type_specification]
#[verifier::external_body]
pub struct ExBc6hSettings(Bc6hSettings);

/// The settings of the BC7 compressor.
#[verifier::external_type_specification]
#[verifier::external_body]
pub struct ExBc7Settings(Bc7Settings);

/// `intel_tex_2::bc6h::very_fast_settings`: nothing is stated of the settings.
#[verifier::external_body]
#[inline]
fn bc6h_very_fast_settings() -> Bc6hSettings {
    intel_tex_2::bc6h::very_fast_settings()
}

/// `intel_tex_2::bc6h::basic_settings`: nothing is stated of the settings.
#[verifier::external_body]
#[inline]
fn bc6h_basic_settings() -> Bc6hSettings {
    intel_tex_2::bc6h::basic_settings()
}

/// `intel_tex_2::bc6h::slow_settings`: nothing is stated of the settings.
#[verifier::external_body]
#[inline]
fn bc6h_slow_settings() -> Bc6hSettings {
    intel_tex_2::bc6h::slow_settings()
}

/// `intel_tex_2::bc7::alpha_ultra_fast_settings`: nothing is stated of the settings.
#[verifier::external_body]
#[inline]
fn bc7_ultra_fast_settings() -> Bc7Settings {
    intel_tex_2::bc7::alpha_ultra_fast_settings()
}

/// `intel_tex_2::bc7::alpha_very_fast_settings`: nothing is stated of the settings.
#[verifier::external_body]
#[inline]
fn bc7_very_fast_settings() -> Bc7Settings {
    intel_tex_2::bc7::alpha_very_fast_settings()
}

/// `intel_tex_2::bc7::alpha_fast_settings`: nothing is stated of the settings.
#[verifier::external_body]
#[inline]
fn bc7_fast_settings() -> Bc7Settings {
    intel_tex_2::bc7::alpha_fast_settings()
}

/// Whether `height` rows of `stride` bytes of `data` describe a `width` by `height` image
/// with `pixel_bytes` bytes per pixel that the compressor accepts: the surface holds at
/// least `stride * height` bytes, the pixel count rounded up to whole blocks is computed in
/// `u32`, and the dimensions and stride are passed to the kernel as `i32`.
pub open spec fn ispc_input(data: Seq<u8>, width: u32, height: u32, stride: u32, pixel_bytes: nat) -> bool {
    &&& width * height + 15 <= u32::MAX
    &&& stride == width * pixel_bytes
    &&& stride <= i32::MAX
    &&& height <= i32::MAX
    &&& stride * height <= data.len()
}

/// `intel_tex_2::bc1::compress_blocks` on an RGBA surface: one 8 byte block for each 16
/// pixels, rounded up. The bytes of the blocks are not stated.
#[verifier::external_body]
#[inline]
fn ispc_bc1(data: &[u8], width: u32, height: u32, stride: u32) -> (r: Vec<u8>)
    requires
        ispc_input(data@, width, height, stride, 4),
    ensures
        r@.len() == compressed_size(width, height, 8),
{
    intel_tex_2::bc1::compress_blocks(&intel_tex_2::RgbaSurface { data, width, height, stride })
}

/// `intel_tex_2::bc3::compress_blocks` on an RGBA surface: one 16 byte block for each 16
/// pixels, rounded up. The bytes of the blocks are not stated.
#[verifier::external_body]
#[inline]
fn ispc_bc3(data: &[u8], width: u32, height: u32, stride: u32) -> (r: Vec<u8>)
    requires
        ispc_input(data@, width, height, stride, 4),
    ensures
        r@.len() == compressed_size(width, height, 16),
{
    intel_tex_2::bc3::compress_blocks(&intel_tex_2::RgbaSurface { data, width, height, stride })
}

/// `intel_tex_2::bc4::compress_blocks` on a surface of one byte per pixel: one 8 byte
/// block for each 16 pixels, rounded up. The bytes of the blocks are not stated.
#[verifier::external_body]
#[inline]
fn ispc_bc4(data: &[u8], width: u32, height: u32, stride: u32) -> (r: Vec<u8>)
    requires
        ispc_input(data@, width, height, stride, 1),
    ensures
        r@.len() == compressed_size(width, height, 8),
{
    intel_tex_2::bc4::compress_blocks(&intel_tex_2::RSurface { data, width, height, stride })
}

/// `intel_tex_2::bc5::compress_blocks` on a surface of two bytes per pixel: one 16 byte
/// block for each 16 pixels, rounded up. The bytes of the blocks are not stated.
#[verifier::external_body]
#[inline]
fn ispc_bc5(data: &[u8], width: u32, height: u32, stride: u32) -> (r: Vec<u8>)
    requires
        ispc_input(data@, width, height, stride, 2),
    ensures
        r@.len() == compressed_size(width, height, 16),
{
    intel_tex_2::bc5::compress_blocks(&intel_tex_2::RgSurface { data, width, height, stride })
}

/// `intel_tex_2::bc6h::compress_blocks` on a surface of four half-precision floats per
/// pixel: one 16 byte block for each 16 pixels, rounded up. The bytes of the blocks are not
/// stated.
#[verifier::external_body]
#[inline]
fn ispc_bc6h(settings: &Bc6hSettings, data: &[u8], width: u32, height: u32, stride: u32) -> (r: Vec<u8>)
    requires
        ispc_input(data@, width, height, stride, 8),
    ensures
        r@.len() == compressed_size(width, height, 16),
{
    intel_tex_2::bc6h::compress_blocks(settings, &intel_tex_2::RgbaSurface { data, width, height, stride })
}

/// `intel_tex_2::bc7::compress_blocks` on an RGBA surface: one 16 byte block for each 16
/// pixels, rounded up. The bytes of the blocks are not stated.
#[verifier::external_body]
#[inline]
fn ispc_bc7(settings: &Bc7Settings, data: &[u8], width: u32, height: u32, stride: u32) -> (r: Vec<u8>)
    requires
        ispc_input(data@, width, height, stride, 4),
    ensures
        r@.len() == compressed_size(width, height, 16),
{
    intel_tex_2::bc7::compress_blocks(settings, &intel_tex_2::RgbaSurface { data, width, height, stride })
}

/// The encoded bytes of `part`: its bytes, or the blocks that its compressor writes, whose
/// number is that of the blocks covering its pixels.
#[inline]
pub fn compress_part(part: &EncodedPart) -> (r: Vec<u8>)
    requires
        compressor_input(part@),
    ensures
        r@.len() == part_len(part@),
        part.compressor is None ==> r@ == part.data@,
{
    let width = part.width;
    let height = part.height;
    let data = part.data.as_slice();
    match part.compressor {
        None => crate::mipgen::copy_bytes(data),
        Some(c) => {
            let stride = width * c.pixel_bytes();
            match c {
                Compressor::Bc1 => ispc_bc1(data, width, height, stride),
                Compressor::Bc3 => ispc_bc3(data, width, height, stride),
                Compressor::Bc4 => ispc_bc4(data, width, height, stride),
                Compressor::Bc5 => ispc_bc5(data, width, height, stride),
                Compressor::Bc6hVeryFast => ispc_bc6h(&bc6h_very_fast_settings(), data, width, height, stride),
                Compressor::Bc6hBasic => ispc_bc6h(&bc6h_basic_settings(), data, width, height, stride),
                Compressor::Bc6hSlow => ispc_bc6h(&bc6h_slow_settings(), data, width, height, stride),
                Compressor::Bc7UltraFast => ispc_bc7(&bc7_ultra_fast_settings(), data, width, height, stride),
                Compressor::Bc7VeryFast => ispc_bc7(&bc7_very_fast_settings(), data, width, height, stride),
                Compressor::Bc7Fast => ispc_bc7(&bc7_fast_settings(), data, width, height, stride),
            }
        },
    }
}

} // verus!
