//! Decoding of whole block compressed surfaces to RGBA8.
//!
//! BCn formats store 4x4 pixel blocks in row-major order. A block past the right or bottom
//! edge of a surface whose dimensions are not multiples of 4 still holds 16 pixels, of which
//! only those inside the surface are kept.
use vstd::prelude::*;
use crate::bc45::{bc4, bc5, signed_alpha_texels};
use crate::bc6h::{bc6h_half, bc6h_output};
use crate::bc7::{bc7, bc7_output};
use crate::bcdec::{bc1, bc1_texels, bc2, bc3, paint, sharp_alpha_texels, smooth_alpha_texels};
use crate::convert::{half_to_unorm8, spec_half_to_unorm8};
use crate::error::SurfaceError;
use crate::layout::{div_ceil, mip_size, spec_mip_size};

verus! {

/// The marker of the BC1 format.
pub struct Bc1;

/// The marker of the BC2 format.
pub struct Bc2;

/// The marker of the BC3 format.
pub struct Bc3;

/// The marker of the BC4 format.
pub struct Bc4;

/// The marker of the signed BC4 format.
pub struct Bc4S;

/// The marker of the BC5 format.
pub struct Bc5;

/// The marker of the signed BC5 format.
pub struct Bc5S;

/// The marker of the unsigned BC6H format.
pub struct Bc6;

/// The marker of the BC7 format.
pub struct Bc7;

/// A compressed block, copied from surface data.
pub trait ReadBlock: Sized {
    /// The number of bytes of a block.
    spec fn spec_size_in_bytes() -> nat;

    /// The bytes of the block.
    spec fn spec_bytes(&self) -> Seq<u8>;

    fn size_in_bytes() -> (r: usize)
        ensures
            r == Self::spec_size_in_bytes(),
            r == 8 || r == 16,
    ;

    /// The block starting at `offset` in `data`.
    fn read_block(data: &[u8], offset: usize) -> (r: Self)
        requires
            offset + Self::spec_size_in_bytes() <= data@.len(),
        ensures
            r.spec_bytes() == data@.subrange(offset as int, offset + Self::spec_size_in_bytes()),
    ;

    /// The bytes of the block.
    fn bytes(&self) -> (r: &[u8])
        ensures
            r@ == self.spec_bytes(),
            r@.len() == Self::spec_size_in_bytes(),
    ;
}

impl ReadBlock for [u8; 8] {
    open spec fn spec_size_in_bytes() -> nat {
        8
    }

    open spec fn spec_bytes(&self) -> Seq<u8> {
        self@
    }

    fn size_in_bytes() -> (r: usize) {
        8
    }

    fn read_block(data: &[u8], offset: usize) -> (r: [u8; 8]) {
        let mut block = [0u8; 8];
        let mut i: usize = 0;
        while i < 8
            invariant
                i <= 8,
                offset + 8 <= data@.len(),
                forall|j: int| 0 <= j < i ==> block@[j] == data@[offset + j],
            decreases 8 - i,
        {
            block[i] = data[offset + i];
            i += 1;
        }
        assert(block@ =~= data@.subrange(offset as int, offset + 8));
        block
    }

    fn bytes(&self) -> (r: &[u8]) {
        self.as_slice()
    }
}

impl ReadBlock for [u8; 16] {
    open spec fn spec_size_in_bytes() -> nat {
        16
    }

    open spec fn spec_bytes(&self) -> Seq<u8> {
        self@
    }

    fn size_in_bytes() -> (r: usize) {
        16
    }

    fn read_block(data: &[u8], offset: usize) -> (r: [u8; 16]) {
        let mut block = [0u8; 16];
        let mut i: usize = 0;
        while i < 16
            invariant
                i <= 16,
                offset + 16 <= data@.len(),
                forall|j: int| 0 <= j < i ==> block@[j] == data@[offset + j],
            decreases 16 - i,
        {
            block[i] = data[offset + i];
            i += 1;
        }
        assert(block@ =~= data@.subrange(offset as int, offset + 16));
        block
    }

    fn bytes(&self) -> (r: &[u8]) {
        self.as_slice()
    }
}

/// Decompression of a block to 4x4 pixels of type `Pixel`.
pub trait BcnDecode<Pixel> {
    /// The compressed block of the format.
    type CompressedBlock: ReadBlock;

    /// The 16 RGBA8 pixels of `block` in row-major order, 4 bytes each.
    spec fn spec_decompress_block(block: Seq<u8>) -> Seq<u8>;

    /// The decoded 4x4 pixel block in row-major order.
    fn decompress_block(block: &Self::CompressedBlock) -> (r: [u8; 64])
        ensures
            r@ == Self::spec_decompress_block(block.spec_bytes()),
    ;
}

/// 64 zero bytes.
pub open spec fn zeros64() -> Seq<u8> {
    Seq::new(64, |i: int| 0u8)
}

/// A block of one channel per pixel as RGBA8 with the channel in red, green and blue.
pub open spec fn gray_block(r: Seq<u8>) -> Seq<u8> {
    Seq::new(64, |i: int| if i % 4 == 3 { 255u8 } else { r[i / 4] })
}

/// A block of two channels per pixel as RGBA8 with `blue` in the blue channel.
pub open spec fn rg_block(rg: Seq<u8>, blue: u8) -> Seq<u8> {
    Seq::new(
        64,
        |i: int|
            if i % 4 == 3 {
                255u8
            } else if i % 4 == 2 {
                blue
            } else {
                rg[(i / 4) * 2 + i % 4]
            },
    )
}

impl BcnDecode<[u8; 4]> for Bc1 {
    type CompressedBlock = [u8; 8];

    open spec fn spec_decompress_block(block: Seq<u8>) -> Seq<u8> {
        paint(zeros64(), 16, 4, 0, bc1_texels(block, false), 16)
    }

    fn decompress_block(block: &[u8; 8]) -> (r: [u8; 64]) {
        let mut decompressed = [0u8; 64];
        assert(decompressed@ =~= zeros64());
        bc1(block.as_slice(), &mut decompressed, 16);
        decompressed
    }
}

impl BcnDecode<[u8; 4]> for Bc2 {
    type CompressedBlock = [u8; 16];

    open spec fn spec_decompress_block(block: Seq<u8>) -> Seq<u8> {
        paint(
            paint(zeros64(), 16, 4, 0, bc1_texels(block.subrange(8, 16), true), 16),
            16,
            4,
            3,
            sharp_alpha_texels(block),
            16,
        )
    }

    fn decompress_block(block: &[u8; 16]) -> (r: [u8; 64]) {
        let mut decompressed = [0u8; 64];
        assert(decompressed@ =~= zeros64());
        bc2(block.as_slice(), &mut decompressed, 16);
        decompressed
    }
}

impl BcnDecode<[u8; 4]> for Bc3 {
    type CompressedBlock = [u8; 16];

    open spec fn spec_decompress_block(block: Seq<u8>) -> Seq<u8> {
        paint(
            paint(zeros64(), 16, 4, 0, bc1_texels(block.subrange(8, 16), true), 16),
            16,
            4,
            3,
            smooth_alpha_texels(block),
            16,
        )
    }

    fn decompress_block(block: &[u8; 16]) -> (r: [u8; 64]) {
        let mut decompressed = [0u8; 64];
        assert(decompressed@ =~= zeros64());
        bc3(block.as_slice(), &mut decompressed, 16);
        decompressed
    }
}

/// Expand a block of one channel per pixel to RGBA8 with the channel in red, green and blue.
fn expand_gray(r: &[u8; 16]) -> (out: [u8; 64])
    ensures
        out@ == gray_block(r@),
{
    let mut out = [0u8; 64];
    let mut i: usize = 0;
    while i < 64
        invariant
            i <= 64,
            forall|j: int| 0 <= j < i ==> out@[j] == gray_block(r@)[j],
        decreases 64 - i,
    {
        // It's a convention in some programs display BC4 in the red channel.
        // Use grayscale instead to avoid confusing it with colored data.
        out[i] = if i % 4 == 3 { 255 } else { r[i / 4] };
        i += 1;
    }
    assert(out@ =~= gray_block(r@));
    out
}

/// Expand a block of two channels per pixel to RGBA8 with `blue` in the blue channel.
fn expand_rg(rg: &[u8; 32], blue: u8) -> (out: [u8; 64])
    ensures
        out@ == rg_block(rg@, blue),
{
    let mut out = [0u8; 64];
    let mut i: usize = 0;
    while i < 64
        invariant
            i <= 64,
            forall|j: int| 0 <= j < i ==> out@[j] == rg_block(rg@, blue)[j],
        decreases 64 - i,
    {
        out[i] = if i % 4 == 3 {
            255
        } else if i % 4 == 2 {
            blue
        } else {
            rg[(i / 4) * 2 + i % 4]
        };
        i += 1;
    }
    assert(out@ =~= rg_block(rg@, blue));
    out
}

impl BcnDecode<[u8; 4]> for Bc4 {
    type CompressedBlock = [u8; 8];

    open spec fn spec_decompress_block(block: Seq<u8>) -> Seq<u8> {
        gray_block(paint(Seq::new(16, |i: int| 0u8), 4, 1, 0, smooth_alpha_texels(block), 16))
    }

    fn decompress_block(block: &[u8; 8]) -> (r: [u8; 64]) {
        // BC4 stores grayscale data, so each decompressed pixel is 1 byte.
        let mut decompressed_r = [0u8; 16];
        assert(decompressed_r@ =~= Seq::new(16, |i: int| 0u8));
        bc4(block.as_slice(), &mut decompressed_r, 4, false);
        expand_gray(&decompressed_r)
    }
}

impl BcnDecode<[u8; 4]> for Bc4S {
    type CompressedBlock = [u8; 8];

    open spec fn spec_decompress_block(block: Seq<u8>) -> Seq<u8> {
        gray_block(paint(Seq::new(16, |i: int| 0u8), 4, 1, 0, signed_alpha_texels(block), 16))
    }

    fn decompress_block(block: &[u8; 8]) -> (r: [u8; 64]) {
        // The signed values are decoded to unorm8.
        let mut decompressed_r = [0u8; 16];
        assert(decompressed_r@ =~= Seq::new(16, |i: int| 0u8));
        bc4(block.as_slice(), &mut decompressed_r, 4, true);
        expand_gray(&decompressed_r)
    }
}

impl BcnDecode<[u8; 4]> for Bc5 {
    type CompressedBlock = [u8; 16];

    open spec fn spec_decompress_block(block: Seq<u8>) -> Seq<u8> {
        rg_block(
            paint(
                paint(Seq::new(32, |i: int| 0u8), 8, 2, 0, smooth_alpha_texels(block), 16),
                8,
                2,
                1,
                smooth_alpha_texels(block.subrange(8, 16)),
                16,
            ),
            0,
        )
    }

    fn decompress_block(block: &[u8; 16]) -> (r: [u8; 64]) {
        // BC5 stores RG data, so each decompressed pixel is 2 bytes.
        let mut decompressed_rg = [0u8; 32];
        assert(decompressed_rg@ =~= Seq::new(32, |i: int| 0u8));
        bc5(block.as_slice(), &mut decompressed_rg, 8, false);
        // It's convention to zero the blue channel when decompressing BC5.
        expand_rg(&decompressed_rg, 0)
    }
}

impl BcnDecode<[u8; 4]> for Bc5S {
    type CompressedBlock = [u8; 16];

    /// The signed channels decoded to unorm8, with blue set to the unorm8 value of a
    /// signed zero.
    open spec fn spec_decompress_block(block: Seq<u8>) -> Seq<u8> {
        rg_block(
            paint(
                paint(Seq::new(32, |i: int| 0u8), 8, 2, 0, signed_alpha_texels(block), 16),
                8,
                2,
                1,
                signed_alpha_texels(block.subrange(8, 16)),
                16,
            ),
            128,
        )
    }

    fn decompress_block(block: &[u8; 16]) -> (r: [u8; 64]) {
        let mut decompressed_rg = [0u8; 32];
        assert(decompressed_rg@ =~= Seq::new(32, |i: int| 0u8));
        bc5(block.as_slice(), &mut decompressed_rg, 8, true);
        // The blue channel holds zero, which is 128 as unorm8.
        expand_rg(&decompressed_rg, crate::convert::snorm8_to_unorm8(0))
    }
}

impl BcnDecode<[u8; 4]> for Bc6 {
    type CompressedBlock = [u8; 16];

    /// The unsigned half-precision texels converted to unorm8, with opaque alpha.
    open spec fn spec_decompress_block(block: Seq<u8>) -> Seq<u8> {
        let half = bc6h_output(Seq::new(48, |i: int| 0u16), block, 12, false);
        Seq::new(
            64,
            |i: int|
                if i % 4 == 3 {
                    255u8
                } else {
                    spec_half_to_unorm8(half[(i / 4) * 3 + i % 4]) as u8
                },
        )
    }

    fn decompress_block(block: &[u8; 16]) -> (r: [u8; 64]) {
        // BC6H uses half precision floating point data.
        let mut decompressed_rgb = [0u16; 48];
        assert(decompressed_rgb@ =~= Seq::new(48, |i: int| 0u16));
        bc6h_half(block.as_slice(), &mut decompressed_rgb, 12, false);
        let ghost half = decompressed_rgb@;
        let mut out = [0u8; 64];
        let mut i: usize = 0;
        while i < 64
            invariant
                i <= 64,
                half == decompressed_rgb@,
                half.len() == 48,
                forall|j: int|
                    0 <= j < i ==> out@[j] == (if j % 4 == 3 {
                        255u8
                    } else {
                        spec_half_to_unorm8(half[(j / 4) * 3 + j % 4]) as u8
                    }),
            decreases 64 - i,
        {
            out[i] = if i % 4 == 3 {
                255
            } else {
                half_to_unorm8(decompressed_rgb[(i / 4) * 3 + i % 4])
            };
            i += 1;
        }
        assert(out@ =~= Self::spec_decompress_block(block@));
        out
    }
}

impl BcnDecode<[u8; 4]> for Bc7 {
    type CompressedBlock = [u8; 16];

    open spec fn spec_decompress_block(block: Seq<u8>) -> Seq<u8> {
        bc7_output(zeros64(), block, 16)
    }

    fn decompress_block(block: &[u8; 16]) -> (r: [u8; 64]) {
        let mut decompressed = [0u8; 64];
        assert(decompressed@ =~= zeros64());
        bc7(block.as_slice(), &mut decompressed, 16);
        decompressed
    }
}

/// The index of channel `c` of the pixel at `(x, y)` of a `width` pixels wide RGBA image.
pub open spec fn pixel_index(width: int, x: int, y: int, c: int) -> int {
    (y * width + x) * 4 + c
}

/// Distinct pixels and channels of an image have distinct indices, and each lies in the image.
pub proof fn lemma_pixel_index(width: int, height: int, x: int, y: int, c: int)
    requires
        0 <= x < width,
        0 <= y < height,
        0 <= c < 4,
    ensures
        0 <= pixel_index(width, x, y, c) < width * height * 4,
        pixel_index(width, x, y, c) / 4 / width == y,
        (pixel_index(width, x, y, c) / 4) % width == x,
        pixel_index(width, x, y, c) % 4 == c,
{
    let p = y * width + x;
    vstd::arithmetic::div_mod::lemma_fundamental_div_mod_converse(p * 4 + c, 4, p, c);
    vstd::arithmetic::div_mod::lemma_fundamental_div_mod_converse(p, width, y, x);
    assert(0 <= p * 4 + c < width * height * 4) by (nonlinear_arith)
        requires
            p == y * width + x,
            0 <= x < width,
            0 <= y < height,
            0 <= c < 4,
    ;
}

/// Every index of a `width` by `height` RGBA image is the index of a channel of a pixel.
pub proof fn lemma_index_pixel(width: int, height: int, i: int)
    requires
        width > 0,
        0 <= i < width * height * 4,
    ensures
        i == pixel_index(width, (i / 4) % width, (i / 4) / width, i % 4),
        0 <= (i / 4) % width < width,
        0 <= (i / 4) / width < height,
{
    vstd::arithmetic::div_mod::lemma_fundamental_div_mod(i, 4);
    vstd::arithmetic::div_mod::lemma_fundamental_div_mod(i / 4, width);
    vstd::arithmetic::div_mod::lemma_mod_bound(i / 4, width);
    vstd::arithmetic::div_mod::lemma_mod_bound(i, 4);
    assert(i == (((i / 4) / width) * width + (i / 4) % width) * 4 + i % 4) by (nonlinear_arith)
        requires
            i == 4 * (i / 4) + i % 4,
            i / 4 == width * ((i / 4) / width) + (i / 4) % width,
    ;
    assert(i / 4 < width * height) by (nonlinear_arith)
        requires
            0 <= i < width * height * 4,
    ;
    assert((i / 4) / width < height) by (nonlinear_arith)
        requires
            0 <= i / 4 < width * height,
            width > 0,
    ;
    assert(i / 4 >= 0);
}

/// Whether the pixel `(px, py)` lies in the 4x4 block whose top left pixel is `(x, y)`.
pub open spec fn in_block(x: int, y: int, px: int, py: int) -> bool {
    x <= px < x + 4 && y <= py < y + 4
}

/// Place the 4x4 pixel block `pixels` with its top left pixel at `(x, y)` into the
/// `width` by `height` RGBA image `surface`, keeping only the pixels inside the image.
pub fn put_rgba_block(surface: &mut [u8], pixels: &[u8; 64], x: usize, y: usize, width: usize, height: usize)
    requires
        x < width,
        y < height,
        old(surface)@.len() == width * height * 4,
    ensures
        final(surface)@.len() == old(surface)@.len(),
        forall|px: int, py: int, c: int|
            0 <= px < width && 0 <= py < height && 0 <= c < 4 ==> #[trigger] final(surface)@[pixel_index(
                width as int,
                px,
                py,
                c,
            )] == if in_block(x as int, y as int, px, py) {
                pixels@[((py - y) * 4 + (px - x)) * 4 + c]
            } else {
                old(surface)@[pixel_index(width as int, px, py, c)]
            },
{
    let ghost w = width as int;
    let len = surface.len();
    // Add checks since the edges won't always have full blocks.
    let cols = if width - x < 4 { width - x } else { 4 };
    let rows = if height - y < 4 { height - y } else { 4 };
    let elements_per_row = 4 * cols;
    let mut row: usize = 0;
    while row < rows
        invariant
            row <= rows <= 4,
            cols <= 4,
            elements_per_row == 4 * cols,
            x + cols <= width,
            y + rows <= height,
            cols == width - x || cols == 4,
            rows == height - y || rows == 4,
            x < width,
            y < height,
            w == width,
            len == width * height * 4,
            surface@.len() == width * height * 4,
            forall|px: int, py: int, c: int|
                0 <= px < width && 0 <= py < height && 0 <= c < 4 ==> #[trigger] surface@[pixel_index(
                    w,
                    px,
                    py,
                    c,
                )] == if in_block(x as int, y as int, px, py) && py < y + row {
                    pixels@[((py - y) * 4 + (px - x)) * 4 + c]
                } else {
                    old(surface)@[pixel_index(w, px, py, c)]
                },
        decreases rows - row,
    {
        proof {
            lemma_pixel_index(w, height as int, x as int, (y + row) as int, 0);
            assert(((y + row) * width + x) * 4 + elements_per_row <= width * height * 4) by (nonlinear_arith)
                requires
                    x + cols <= width,
                    y + row < height,
                    elements_per_row == 4 * cols,
            ;
        }
        // Convert pixel coordinates to byte coordinates.
        let surface_index = ((y + row) * width + x) * 4;
        let ghost before = surface@;
        let mut k: usize = 0;
        while k < elements_per_row
            invariant
                k <= elements_per_row == 4 * cols,
                cols <= 4,
                row < rows <= 4,
                x + cols <= width,
                y + row < height,
                cols == width - x || cols == 4,
                surface_index == pixel_index(w, x as int, (y + row) as int, 0),
                surface_index + elements_per_row <= len,
                w == width,
                len == width * height * 4,
                surface@.len() == width * height * 4,
                forall|px: int, py: int, c: int|
                    0 <= px < width && 0 <= py < height && 0 <= c < 4 ==> #[trigger] surface@[pixel_index(
                        w,
                        px,
                        py,
                        c,
                    )] == if py == y + row && x <= px && (px - x) * 4 + c < k {
                        pixels@[((py - y) * 4 + (px - x)) * 4 + c]
                    } else {
                        before[pixel_index(w, px, py, c)]
                    },
            decreases elements_per_row - k,
        {
            let ghost prev = surface@;
            surface[surface_index + k] = pixels[row * 16 + k];
            proof {
                assert forall|px: int, py: int, c: int|
                    0 <= px < width && 0 <= py < height && 0 <= c < 4 implies #[trigger] surface@[pixel_index(
                        w,
                        px,
                        py,
                        c,
                    )] == if py == y + row && x <= px && (px - x) * 4 + c < k + 1 {
                        pixels@[((py - y) * 4 + (px - x)) * 4 + c]
                    } else {
                        before[pixel_index(w, px, py, c)]
                    } by {
                    let j = pixel_index(w, px, py, c);
                    let t = surface_index + k;
                    let tx = x + (k / 4) as int;
                    let tc = (k % 4) as int;
                    assert(k / 4 < cols && tx < width);
                    assert(t == pixel_index(w, tx, (y + row) as int, tc));
                    lemma_pixel_index(w, height as int, px, py, c);
                    lemma_pixel_index(w, height as int, tx, (y + row) as int, tc);
                    if j == t {
                        assert(px == tx && py == y + row && c == tc);
                    } else {
                        assert(!(py == y + row && x <= px && (px - x) * 4 + c == k));
                    }
                }
            }
            k += 1;
        }
        proof {
            assert forall|px: int, py: int, c: int|
                0 <= px < width && 0 <= py < height && 0 <= c < 4 implies #[trigger] surface@[pixel_index(
                    w,
                    px,
                    py,
                    c,
                )] == if in_block(x as int, y as int, px, py) && py < y + row + 1 {
                    pixels@[((py - y) * 4 + (px - x)) * 4 + c]
                } else {
                    old(surface)@[pixel_index(w, px, py, c)]
                } by {
                if py == y + row && x <= px && px < x + 4 {
                    assert(px < x + cols);
                }
            }
        }
        row += 1;
    }
    proof {
        assert forall|px: int, py: int, c: int|
            0 <= px < width && 0 <= py < height && 0 <= c < 4 implies #[trigger] surface@[pixel_index(
                w,
                px,
                py,
                c,
            )] == if in_block(x as int, y as int, px, py) {
                pixels@[((py - y) * 4 + (px - x)) * 4 + c]
            } else {
                old(surface)@[pixel_index(w, px, py, c)]
            } by {
            if in_block(x as int, y as int, px, py) {
                assert(py < y + rows);
            }
        }
    }
}

/// Channel `c` of the pixel at `(x, y)` of the decoded `width` pixels wide surface `data`
/// in format `F`: the channel of the pixel in the decoded block that covers it.
pub open spec fn bcn_texel<F: BcnDecode<[u8; 4]>>(data: Seq<u8>, width: nat, x: int, y: int, c: int) -> u8 {
    let s = <F::CompressedBlock as ReadBlock>::spec_size_in_bytes();
    let b = (y / 4) * div_ceil(width, 4) + x / 4;
    F::spec_decompress_block(data.subrange(b * s, b * s + s))[((y % 4) * 4 + x % 4) * 4 + c]
}

/// The RGBA8 pixels of the `width` by `height` surface `data` in format `F`, in row-major order.
pub open spec fn decoded_bcn<F: BcnDecode<[u8; 4]>>(data: Seq<u8>, width: nat, height: nat) -> Seq<u8> {
    Seq::new(
        width * height * 4,
        |i: int| bcn_texel::<F>(data, width, (i / 4) % (width as int), (i / 4) / (width as int), i % 4),
    )
}

/// The outcome of decoding the `width` by `height` surface `data` in format `F`.
pub open spec fn spec_decode_bcn<F: BcnDecode<[u8; 4]>>(width: u32, height: u32, data: Seq<u8>) -> Result<
    Seq<u8>,
    SurfaceError,
> {
    match spec_mip_size(
        width as usize,
        height as usize,
        1,
        4,
        4,
        1,
        <F::CompressedBlock as ReadBlock>::spec_size_in_bytes() as usize,
    ) {
        None => Err(SurfaceError::PixelCountWouldOverflow { width, height, depth: 1 }),
        Some(expected) => if data.len() < expected {
            Err(SurfaceError::NotEnoughData { expected, actual: data.len() as usize })
        } else if width * height * 4 > usize::MAX {
            Err(SurfaceError::PixelCountWouldOverflow { width, height, depth: 1 })
        } else {
            Ok(decoded_bcn::<F>(data, width as nat, height as nat))
        },
    }
}

/// Decompress the bytes in `data` to the uncompressed RGBA8 format.
pub fn decode_bcn<F: BcnDecode<[u8; 4]>>(width: u32, height: u32, data: &[u8]) -> (r: Result<
    Vec<u8>,
    SurfaceError,
>)
    ensures
        match spec_decode_bcn::<F>(width, height, data@) {
            Ok(v) => r matches Ok(out) && out@ == v,
            Err(e) => r == Err::<Vec<u8>, SurfaceError>(e),
        },
{
    let size = <F::CompressedBlock as ReadBlock>::size_in_bytes();
    // Validate surface dimensions to check for potential overflow.
    let expected_size = match mip_size(width as usize, height as usize, 1, 4, 4, 1, size) {
        None => return Err(SurfaceError::PixelCountWouldOverflow { width, height, depth: 1 }),
        Some(s) => s,
    };
    // Mipmap dimensions do not need to be multiples of the block dimensions.
    // A mipmap of size 1x1 pixels can still be decoded.
    // Simply checking the data length is sufficient.
    if data.len() < expected_size {
        return Err(SurfaceError::NotEnoughData { expected: expected_size, actual: data.len() });
    }
    let w = width as usize;
    let h = height as usize;
    let n = match w.checked_mul(h) {
        None => return Err(SurfaceError::PixelCountWouldOverflow { width, height, depth: 1 }),
        Some(wh) => match wh.checked_mul(4) {
            None => return Err(SurfaceError::PixelCountWouldOverflow { width, height, depth: 1 }),
            Some(n) => n,
        },
    };
    let mut rgba = vec![0u8; n];
    if w == 0 || h == 0 {
        assert(w * h * 4 == 0) by (nonlinear_arith)
            requires
                w == 0 || h == 0,
        ;
        assert(rgba@ =~= decoded_bcn::<F>(data@, width as nat, height as nat));
        return Ok(rgba);
    }
    // BCN formats lay out blocks in row-major order.
    let bw = w / 4 + if w % 4 == 0 { 0 } else { 1 };
    let bh = h / 4 + if h % 4 == 0 { 0 } else { 1 };
    let dlen = data.len();
    let ghost gw = w as int;
    let ghost ghh = h as int;
    assert(bw == div_ceil(w as nat, 4) && bh == div_ceil(h as nat, 4));
    assert(expected_size == bw * bh * size);
    let mut block_start: usize = 0;
    let mut by: usize = 0;
    assert forall|px: int, py: int, c: int|
        0 <= px < w && 0 <= py < h && 0 <= c < 4 implies #[trigger] rgba@[pixel_index(gw, px, py, c)]
            == 0u8 by {
        lemma_pixel_index(gw, ghh, px, py, c);
    }
    while by < bh
        invariant
            w > 0 && h > 0,
            gw == w && ghh == h,
            w == width && h == height,
            bw == div_ceil(w as nat, 4),
            bh == div_ceil(h as nat, 4),
            size == <F::CompressedBlock as ReadBlock>::spec_size_in_bytes(),
            size == 8 || size == 16,
            dlen == data@.len(),
            bw * bh * size <= data@.len(),
            by <= bh,
            block_start == by * bw * size,
            rgba@.len() == w * h * 4,
            forall|px: int, py: int, c: int|
                0 <= px < w && 0 <= py < h && 0 <= c < 4 ==> #[trigger] rgba@[pixel_index(gw, px, py, c)]
                    == if py / 4 < by {
                    bcn_texel::<F>(data@, w as nat, px, py, c)
                } else {
                    0u8
                },
        decreases bh - by,
    {
        let mut bx: usize = 0;
        while bx < bw
            invariant
                w > 0 && h > 0,
                gw == w && ghh == h,
                w == width && h == height,
                bw == div_ceil(w as nat, 4),
                bh == div_ceil(h as nat, 4),
                size == <F::CompressedBlock as ReadBlock>::spec_size_in_bytes(),
                size == 8 || size == 16,
                dlen == data@.len(),
                bw * bh * size <= data@.len(),
                by < bh,
                bx <= bw,
                block_start == (by * bw + bx) * size,
                rgba@.len() == w * h * 4,
                forall|px: int, py: int, c: int|
                    0 <= px < w && 0 <= py < h && 0 <= c < 4 ==> #[trigger] rgba@[pixel_index(gw, px, py, c)]
                        == if py / 4 < by || (py / 4 == by && px / 4 < bx) {
                        bcn_texel::<F>(data@, w as nat, px, py, c)
                    } else {
                        0u8
                    },
            decreases bw - bx,
        {
            proof {
                assert((by * bw + bx) * size + size <= bw * bh * size) by (nonlinear_arith)
                    requires
                        by < bh,
                        bx < bw,
                        size >= 0,
                ;
            }
            // Use a special type to enforce alignment.
            let block = <F::CompressedBlock as ReadBlock>::read_block(data, block_start);
            let pixels = F::decompress_block(&block);
            let x = bx * 4;
            let y = by * 4;
            let ghost before = rgba@;
            // Each block is 4x4, so we need to update multiple rows.
            put_rgba_block(&mut rgba, &pixels, x, y, w, h);
            proof {
                assert forall|px: int, py: int, c: int|
                    0 <= px < w && 0 <= py < h && 0 <= c < 4 implies #[trigger] rgba@[pixel_index(gw, px, py, c)]
                        == if py / 4 < by || (py / 4 == by && px / 4 < bx + 1) {
                        bcn_texel::<F>(data@, w as nat, px, py, c)
                    } else {
                        0u8
                    } by {
                    if in_block(x as int, y as int, px, py) {
                        assert(py / 4 == by && px / 4 == bx);
                        assert(py % 4 == py - y && px % 4 == px - x);
                        let b = (py / 4) * div_ceil(w as nat, 4) + px / 4;
                        assert(b * size == block_start) by (nonlinear_arith)
                            requires
                                b == by * bw + bx,
                                block_start == (by * bw + bx) * size,
                        ;
                    } else {
                        assert(!(py / 4 == by && px / 4 == bx));
                    }
                }
            }
            assert(block_start + size == (by * bw + bx + 1) * size) by (nonlinear_arith)
                requires
                    block_start == (by * bw + bx) * size,
            ;
            block_start += size;
            bx += 1;
        }
        proof {
            assert(block_start == (by + 1) * bw * size) by (nonlinear_arith)
                requires
                    block_start == (by * bw + bw) * size,
            ;
        }
        by += 1;
    }
    proof {
        assert forall|i: int| 0 <= i < rgba@.len() implies rgba@[i] == decoded_bcn::<F>(
            data@,
            w as nat,
            h as nat,
        )[i] by {
            lemma_index_pixel(gw, ghh, i);
            let px = (i / 4) % gw;
            let py = (i / 4) / gw;
            assert(py / 4 < bh);
            assert(rgba@[pixel_index(gw, px, py, i % 4)] == bcn_texel::<F>(data@, w as nat, px, py, i % 4));
        }
        assert(rgba@ =~= decoded_bcn::<F>(data@, w as nat, h as nat));
    }
    Ok(rgba)
}

} // verus!
