//! Preparation of RGBA8 surfaces for the block compressors of the Intel ISPC texture
//! compressor.
//!
//! A compressor reads rows of pixels and writes one block for each 16 pixels. BC1, BC3 and
//! BC7 read the RGBA8 pixels as they are. BC4 reads one channel per pixel and BC5 two, so
//! their input is extracted from the RGBA8 data first. BC6H reads half-precision floats, to
//! which each unorm8 channel is converted. The compressor itself runs outside the library:
//! the library hands out what it reads.
use vstd::prelude::*;
use crate::bcn::{Bc1, Bc2, Bc3, Bc4, Bc5, Bc6, Bc7};
use crate::error::SurfaceError;
use crate::floatbits::{spec_unorm8_to_f16_bits, unorm8_to_f16_bits};
use crate::format::{ImageFormat, Quality};
use crate::layout::{mip_size, spec_mip_size};
use crate::mipgen::copy_bytes;
use crate::rgba::u16_le;

verus! {

/// The block compressors of the ISPC texture compressor, with their settings.
#[derive(Debug, PartialEq, Eq, Structural, Clone, Copy)]
pub enum Compressor {
    Bc1,
    Bc3,
    Bc4,
    Bc5,
    /// BC6H with the settings of `very_fast_settings`.
    Bc6hVeryFast,
    /// BC6H with the settings of `basic_settings`.
    Bc6hBasic,
    /// BC6H with the settings of `slow_settings`.
    Bc6hSlow,
    /// BC7 with the settings of `alpha_ultra_fast_settings`.
    Bc7UltraFast,
    /// BC7 with the settings of `alpha_very_fast_settings`.
    Bc7VeryFast,
    /// BC7 with the settings of `alpha_fast_settings`.
    Bc7Fast,
}

impl Compressor {
    /// The number of bytes of each pixel that the compressor reads.
    pub open spec fn spec_pixel_bytes(self) -> nat {
        match self {
            Compressor::Bc4 => 1,
            Compressor::Bc5 => 2,
            Compressor::Bc6hVeryFast | Compressor::Bc6hBasic | Compressor::Bc6hSlow => 8,
            _ => 4,
        }
    }

    /// The number of bytes of each block of 16 pixels that the compressor writes.
    pub open spec fn spec_block_bytes(self) -> nat {
        match self {
            Compressor::Bc1 | Compressor::Bc4 => 8,
            _ => 16,
        }
    }

    /// The number of bytes of each pixel that the compressor reads.
    pub fn pixel_bytes(&self) -> (r: u32)
        ensures
            r == self.spec_pixel_bytes(),
    {
        match self {
            Compressor::Bc4 => 1,
            Compressor::Bc5 => 2,
            Compressor::Bc6hVeryFast | Compressor::Bc6hBasic | Compressor::Bc6hSlow => 8,
            _ => 4,
        }
    }

    /// The number of bytes of each block of 16 pixels that the compressor writes.
    pub fn block_bytes(&self) -> (r: usize)
        ensures
            r == self.spec_block_bytes(),
    {
        match self {
            Compressor::Bc1 | Compressor::Bc4 => 8,
            _ => 16,
        }
    }
}

/// The encoded data of an image: the bytes of an uncompressed format, or the input of a
/// block compressor, `height` rows of `width` pixels of the bytes that it reads.
#[derive(Debug, PartialEq, Eq, Clone)]
pub struct EncodedPart {
    pub compressor: Option<Compressor>,
    pub width: u32,
    pub height: u32,
    pub data: Vec<u8>,
}

/// The compressor, dimensions and bytes of an encoded part.
pub type PartView = (Option<Compressor>, u32, u32, Seq<u8>);

impl View for EncodedPart {
    type V = PartView;

    open spec fn view(&self) -> PartView {
        (self.compressor, self.width, self.height, self.data@)
    }
}

/// The number of bytes of the blocks for `width * height` pixels with `block_bytes` bytes
/// per block of 16 pixels.
pub open spec fn compressed_size(width: u32, height: u32, block_bytes: nat) -> nat {
    ((width * height + 15) / 16) as nat * block_bytes
}

/// The number of bytes that the part `p` stands for once encoded: its bytes, or the blocks
/// that its compressor writes.
pub open spec fn part_len(p: PartView) -> nat {
    match p.0 {
        None => p.3.len(),
        Some(c) => compressed_size(p.1, p.2, c.spec_block_bytes()),
    }
}

/// Whether the compressor of `p` can be called for it: the pixel count plus 15 and the row
/// stride fit in `u32`, the dimensions and stride are positive as `i32`, and its data holds
/// `height` rows of `width` pixels.
pub open spec fn compressor_input(p: PartView) -> bool {
    match p.0 {
        None => true,
        Some(c) => {
            &&& p.1 * p.2 + 15 <= u32::MAX
            &&& p.1 * c.spec_pixel_bytes() <= i32::MAX
            &&& p.2 <= i32::MAX
            &&& p.1 * c.spec_pixel_bytes() * p.2 <= p.3.len()
        },
    }
}

impl EncodedPart {
    /// The number of bytes that the part stands for once encoded.
    pub fn encoded_len(&self) -> (r: Option<usize>)
        ensures
            r == if part_len(self@) <= usize::MAX { Some(part_len(self@) as usize) } else { None::<usize> },
    {
        match self.compressor {
            None => Some(self.data.len()),
            Some(c) => {
                assert(self.width * self.height <= 0xFFFF_FFFE_0000_0001) by (nonlinear_arith)
                    requires
                        self.width <= u32::MAX,
                        self.height <= u32::MAX,
                ;
                let pixels = (self.width as u64) * (self.height as u64);
                let blocks = (pixels + 15) / 16;
                if blocks > usize::MAX as u64 {
                    return None;
                }
                (blocks as usize).checked_mul(c.block_bytes())
            },
        }
    }
}

/// The BC6H compressor for `quality`: faster qualities use faster settings.
pub open spec fn bc6h_compressor(quality: Quality) -> Compressor {
    match quality {
        Quality::Fast => Compressor::Bc6hVeryFast,
        Quality::Normal => Compressor::Bc6hBasic,
        Quality::Slow => Compressor::Bc6hSlow,
    }
}

/// The BC7 compressor for `quality`. BC7 has almost imperceptible errors even with its
/// fastest settings.
pub open spec fn bc7_compressor(quality: Quality) -> Compressor {
    match quality {
        Quality::Fast => Compressor::Bc7UltraFast,
        Quality::Normal => Compressor::Bc7VeryFast,
        Quality::Slow => Compressor::Bc7Fast,
    }
}

/// The red channel of the first `n` RGBA8 pixels of `data`.
pub open spec fn red_channel(data: Seq<u8>, n: nat) -> Seq<u8> {
    Seq::new(n, |i: int| data[4 * i])
}

/// The red and green channels of the first `n` RGBA8 pixels of `data`.
pub open spec fn rg_channels(data: Seq<u8>, n: nat) -> Seq<u8> {
    Seq::new(2 * n, |i: int| data[4 * (i / 2) + i % 2])
}

/// The little endian half-precision floats of the channels of the first `n` RGBA8 pixels
/// of `data`.
pub open spec fn f16_channels(data: Seq<u8>, n: nat) -> Seq<u8> {
    Seq::new(8 * n, |i: int| u16_le(spec_unorm8_to_f16_bits(data[i / 2]) as u16)[i % 2])
}

/// Whether the compressor can be called for `width` by `height` pixels in any format: the
/// pixel count plus 15 fits in `u32`, and rows of half-precision RGBA pixels fit in `i32`.
pub open spec fn compressible(width: u32, height: u32) -> bool {
    &&& width * height + 15 <= u32::MAX
    &&& width * 8 <= i32::MAX
    &&& height <= i32::MAX
}

/// Compression of RGBA8 data to a block compressed format.
pub trait BcnEncode<Pixel> {
    /// The compressor input for `width` by `height` RGBA8 pixels of `data` with `quality`,
    /// or the error if the format can not be compressed.
    spec fn spec_compress(width: u32, height: u32, data: Seq<u8>, quality: Quality) -> Result<
        PartView,
        SurfaceError,
    >;

    /// The compressor input for `width` by `height` RGBA8 pixels of `rgba8_data`.
    fn compression_input(width: u32, height: u32, rgba8_data: &[u8], quality: Quality) -> (r: Result<
        EncodedPart,
        SurfaceError,
    >)
        requires
            compressible(width, height),
            width * height * 4 <= rgba8_data@.len(),
        ensures
            match Self::spec_compress(width, height, rgba8_data@, quality) {
                Ok(v) => r matches Ok(p) && p@ == v,
                Err(e) => r == Err::<EncodedPart, SurfaceError>(e),
            },
            r matches Ok(p) ==> compressor_input(p@),
    ;
}

proof fn lemma_rgba_rows(width: u32, height: u32, channel_bytes: nat)
    requires
        compressible(width, height),
        1 <= channel_bytes <= 8,
    ensures
        width * channel_bytes <= i32::MAX,
        width * channel_bytes * height == width * height * channel_bytes,
{
    assert(width * channel_bytes <= width * 8) by (nonlinear_arith)
        requires
            channel_bytes <= 8,
    ;
    assert(width * channel_bytes * height == width * height * channel_bytes) by (nonlinear_arith);
}

/// The RGBA8 pixels of `rgba8_data` as the input of `compressor`, which reads 4 bytes per pixel.
fn rgba8_input(compressor: Compressor, width: u32, height: u32, rgba8_data: &[u8]) -> (r: EncodedPart)
    requires
        compressor.spec_pixel_bytes() == 4,
        compressible(width, height),
        width * height * 4 <= rgba8_data@.len(),
    ensures
        r@ == (Some(compressor), width, height, rgba8_data@),
        compressor_input(r@),
{
    proof {
        lemma_rgba_rows(width, height, 4nat);
    }
    // RGBA with 4 bytes per pixel.
    EncodedPart { compressor: Some(compressor), width, height, data: copy_bytes(rgba8_data) }
}

impl BcnEncode<[u8; 4]> for Bc1 {
    open spec fn spec_compress(width: u32, height: u32, data: Seq<u8>, quality: Quality) -> Result<
        PartView,
        SurfaceError,
    > {
        Ok((Some(Compressor::Bc1), width, height, data))
    }

    fn compression_input(width: u32, height: u32, rgba8_data: &[u8], quality: Quality) -> (r: Result<
        EncodedPart,
        SurfaceError,
    >) {
        Ok(rgba8_input(Compressor::Bc1, width, height, rgba8_data))
    }
}

impl BcnEncode<[u8; 4]> for Bc2 {
    open spec fn spec_compress(width: u32, height: u32, data: Seq<u8>, quality: Quality) -> Result<
        PartView,
        SurfaceError,
    > {
        Err(SurfaceError::UnsupportedEncodeFormat { format: ImageFormat::BC2RgbaUnorm })
    }

    fn compression_input(width: u32, height: u32, rgba8_data: &[u8], quality: Quality) -> (r: Result<
        EncodedPart,
        SurfaceError,
    >) {
        // The compressor has no BC2 encoder.
        Err(SurfaceError::UnsupportedEncodeFormat { format: ImageFormat::BC2RgbaUnorm })
    }
}

impl BcnEncode<[u8; 4]> for Bc3 {
    open spec fn spec_compress(width: u32, height: u32, data: Seq<u8>, quality: Quality) -> Result<
        PartView,
        SurfaceError,
    > {
        Ok((Some(Compressor::Bc3), width, height, data))
    }

    fn compression_input(width: u32, height: u32, rgba8_data: &[u8], quality: Quality) -> (r: Result<
        EncodedPart,
        SurfaceError,
    >) {
        Ok(rgba8_input(Compressor::Bc3, width, height, rgba8_data))
    }
}

impl BcnEncode<[u8; 4]> for Bc4 {
    /// The red channel, for BC4.
    open spec fn spec_compress(width: u32, height: u32, data: Seq<u8>, quality: Quality) -> Result<
        PartView,
        SurfaceError,
    > {
        Ok((Some(Compressor::Bc4), width, height, red_channel(data, (width * height) as nat)))
    }

    fn compression_input(width: u32, height: u32, rgba8_data: &[u8], quality: Quality) -> (r: Result<
        EncodedPart,
        SurfaceError,
    >) {
        proof {
            lemma_rgba_rows(width, height, 1nat);
        }
        let n = width as usize * height as usize;
        let mut red: Vec<u8> = Vec::new();
        let len = rgba8_data.len();
        let mut i: usize = 0;
        while i < n
            invariant
                len == rgba8_data@.len(),
                i <= n,
                n == width * height,
                4 * n <= rgba8_data@.len(),
                red@ == red_channel(rgba8_data@, i as nat),
            decreases n - i,
        {
            red.push(rgba8_data[4 * i]);
            assert(red@ =~= red_channel(rgba8_data@, (i + 1) as nat));
            i += 1;
        }
        Ok(EncodedPart { compressor: Some(Compressor::Bc4), width, height, data: red })
    }
}

impl BcnEncode<[u8; 4]> for Bc5 {
    /// The red and green channels, for BC5.
    open spec fn spec_compress(width: u32, height: u32, data: Seq<u8>, quality: Quality) -> Result<
        PartView,
        SurfaceError,
    > {
        Ok((Some(Compressor::Bc5), width, height, rg_channels(data, (width * height) as nat)))
    }

    fn compression_input(width: u32, height: u32, rgba8_data: &[u8], quality: Quality) -> (r: Result<
        EncodedPart,
        SurfaceError,
    >) {
        proof {
            lemma_rgba_rows(width, height, 2nat);
        }
        let n = width as usize * height as usize;
        let mut rg: Vec<u8> = Vec::new();
        let len = rgba8_data.len();
        let mut i: usize = 0;
        while i < n
            invariant
                len == rgba8_data@.len(),
                i <= n,
                n == width * height,
                4 * n <= rgba8_data@.len(),
                rg@ == rg_channels(rgba8_data@, i as nat),
            decreases n - i,
        {
            rg.push(rgba8_data[4 * i]);
            rg.push(rgba8_data[4 * i + 1]);
            assert(rg@ =~= rg_channels(rgba8_data@, (i + 1) as nat));
            i += 1;
        }
        Ok(EncodedPart { compressor: Some(Compressor::Bc5), width, height, data: rg })
    }
}

impl BcnEncode<[u8; 4]> for Bc6 {
    /// The channels converted to half-precision floats, for BC6H.
    open spec fn spec_compress(width: u32, height: u32, data: Seq<u8>, quality: Quality) -> Result<
        PartView,
        SurfaceError,
    > {
        Ok((Some(bc6h_compressor(quality)), width, height, f16_channels(data, (width * height) as nat)))
    }

    fn compression_input(width: u32, height: u32, rgba8_data: &[u8], quality: Quality) -> (r: Result<
        EncodedPart,
        SurfaceError,
    >) {
        proof {
            lemma_rgba_rows(width, height, 8nat);
        }
        // The BC6H encoder expects the data to be in half precision floating point.
        // This differs from the other formats that expect [u8; 4] for each pixel.
        let n = width as usize * height as usize;
        let mut f16_data: Vec<u8> = Vec::new();
        let len = rgba8_data.len();
        assert(4 * n <= len);
        let channels = 4 * n;
        let mut i: usize = 0;
        while i < channels
            invariant
                channels == 4 * n,
                len == rgba8_data@.len(),
                i <= 4 * n,
                n == width * height,
                4 * n <= rgba8_data@.len(),
                f16_data@ == f16_channels(rgba8_data@, n as nat).subrange(0, 2 * i),
            decreases channels - i,
        {
            let bits = unorm8_to_f16_bits(rgba8_data[i]);
            f16_data.push((bits % 256) as u8);
            f16_data.push((bits / 256) as u8);
            assert(f16_data@ =~= f16_channels(rgba8_data@, n as nat).subrange(0, 2 * (i + 1)));
            i += 1;
        }
        assert(f16_data@ =~= f16_channels(rgba8_data@, n as nat));
        let compressor = match quality {
            Quality::Fast => Compressor::Bc6hVeryFast,
            Quality::Normal => Compressor::Bc6hBasic,
            Quality::Slow => Compressor::Bc6hSlow,
        };
        Ok(EncodedPart { compressor: Some(compressor), width, height, data: f16_data })
    }
}

impl BcnEncode<[u8; 4]> for Bc7 {
    open spec fn spec_compress(width: u32, height: u32, data: Seq<u8>, quality: Quality) -> Result<
        PartView,
        SurfaceError,
    > {
        Ok((Some(bc7_compressor(quality)), width, height, data))
    }

    fn compression_input(width: u32, height: u32, rgba8_data: &[u8], quality: Quality) -> (r: Result<
        EncodedPart,
        SurfaceError,
    >) {
        // 4k rgba ultra fast (2s), very fast (7s), fast (12s)
        let compressor = match quality {
            Quality::Fast => Compressor::Bc7UltraFast,
            Quality::Normal => Compressor::Bc7VeryFast,
            Quality::Slow => Compressor::Bc7Fast,
        };
        Ok(rgba8_input(compressor, width, height, rgba8_data))
    }
}

/// The outcome of compressing `width` by `height` by `depth` RGBA8 pixels of `data` in
/// format `T`: the data must hold a whole number of 4x4 blocks of 64 bytes covering the
/// surface, and the compressor must accept the dimensions.
pub open spec fn spec_bcn_from_rgba8<T: BcnEncode<[u8; 4]>>(
    width: u32,
    height: u32,
    depth: u32,
    data: Seq<u8>,
    quality: Quality,
) -> Result<PartView, SurfaceError> {
    match spec_mip_size(width as usize, height as usize, depth as usize, 4, 4, 1, 64) {
        None => Err(SurfaceError::PixelCountWouldOverflow { width, height, depth }),
        Some(expected) => if data.len() < expected {
            Err(SurfaceError::NotEnoughData { expected, actual: data.len() as usize })
        } else if !compressible(width, height) {
            Err(SurfaceError::PixelCountWouldOverflow { width, height, depth })
        } else {
            T::spec_compress(width, height, data, quality)
        },
    }
}

/// Prepare the uncompressed RGBA8 bytes in `data` for compression to the given format `T`.
///
/// The compressor reads the `width * height` pixels of one depth slice, so a surface
/// without depth slices must still hold that many pixels.
pub fn bcn_compression_input<T: BcnEncode<[u8; 4]>>(
    width: u32,
    height: u32,
    depth: u32,
    data: &[u8],
    quality: Quality,
) -> (r: Result<EncodedPart, SurfaceError>)
    requires
        depth == 0 ==> width * height * 4 <= data@.len(),
    ensures
        match spec_bcn_from_rgba8::<T>(width, height, depth, data@, quality) {
            Ok(v) => r matches Ok(p) && p@ == v,
            Err(e) => r == Err::<EncodedPart, SurfaceError>(e),
        },
        r matches Ok(p) ==> compressor_input(p@),
{
    // Surface dimensions are not validated yet and may cause overflow.
    let expected_size = match mip_size(width as usize, height as usize, depth as usize, 4, 4, 1, 64) {
        None => return Err(SurfaceError::PixelCountWouldOverflow { width, height, depth }),
        Some(s) => s,
    };
    // The surface must be a multiple of the block dimensions for safety.
    if data.len() < expected_size {
        return Err(SurfaceError::NotEnoughData { expected: expected_size, actual: data.len() });
    }
    // The compressor computes the pixel count and row strides in 32 bit integers.
    assert(width as u64 * height as u64 <= 0xFFFF_FFFE_0000_0001) by (nonlinear_arith);
    let pixels = width as u64 * height as u64;
    if pixels + 15 > u32::MAX as u64 || width as u64 * 8 > i32::MAX as u64 || height as u64 > i32::MAX as u64 {
        return Err(SurfaceError::PixelCountWouldOverflow { width, height, depth });
    }
    proof {
        lemma_blocks_cover_pixels(width as nat, height as nat, depth as nat);
    }
    T::compression_input(width, height, data, quality)
}

/// Whole 4x4 blocks of 64 bytes cover 4 bytes for each pixel of the first depth slice.
pub(crate) proof fn lemma_blocks_cover_pixels(width: nat, height: nat, depth: nat)
    ensures
        depth >= 1 ==> width * height * 4 <= crate::layout::div_ceil(width, 4) * crate::layout::div_ceil(height, 4)
            * crate::layout::div_ceil(depth, 1) * 64,
{
    let x = crate::layout::div_ceil(width, 4);
    let y = crate::layout::div_ceil(height, 4);
    let z = crate::layout::div_ceil(depth, 1);
    assert(width <= 4 * x && height <= 4 * y);
    assert(depth >= 1 ==> z >= 1);
    assert(depth >= 1 ==> width * height * 4 <= x * y * z * 64) by (nonlinear_arith)
        requires
            width <= 4 * x,
            height <= 4 * y,
            depth >= 1 ==> z >= 1,
    ;
}

/// Compress the uncompressed RGBA8 bytes in `data` to the given format `T`: the blocks
/// that the compressor writes for the input that `bcn_compression_input` prepares.
///
/// The compressor reads the `width * height` pixels of one depth slice, so a surface
/// without depth slices must still hold that many pixels.
pub fn bcn_from_rgba8<T: BcnEncode<[u8; 4]>>(
    width: u32,
    height: u32,
    depth: u32,
    data: &[u8],
    quality: Quality,
) -> (r: Result<Vec<u8>, SurfaceError>)
    requires
        depth == 0 ==> width * height * 4 <= data@.len(),
    ensures
        match spec_bcn_from_rgba8::<T>(width, height, depth, data@, quality) {
            Ok(p) => r matches Ok(blocks) && blocks@.len() == part_len(p),
            Err(e) => r == Err::<Vec<u8>, SurfaceError>(e),
        },
{
    match bcn_compression_input::<T>(width, height, depth, data, quality) {
        Err(e) => Err(e),
        Ok(part) => Ok(crate::compress::compress_part(&part)),
    }
}

} // verus!
