//! Uncompressed pixel formats and their conversion to and from RGBA8.
//!
//! A pixel is read from and written to its little endian bytes. Converting a pixel to RGBA8
//! converts each channel to unorm8; missing color channels are filled in as described by
//! [ToRgba], and missing alpha is opaque.
use vstd::prelude::*;
use crate::convert::{
    half_to_unorm8, snorm16_to_unorm8, snorm16_int, snorm8_int, snorm8_to_unorm8,
    spec_half_to_unorm8, spec_snorm16_to_unorm8, spec_snorm8_to_unorm8, spec_unorm8_to_snorm16,
    spec_unorm8_to_snorm8, unorm16_to_unorm8, unorm4_to_unorm8, unorm8_to_snorm16,
    unorm8_to_snorm8, unorm8_to_unorm16, unorm8_to_unorm4, round_half_up,
};
use crate::error::SurfaceError;
use crate::floatbits::{
    f32_to_unorm8, spec_f32_to_unorm8, spec_unorm8_to_f16_bits, spec_unorm8_to_f32_bits,
    unorm8_to_f16_bits, unorm8_to_f32_bits,
};

verus! {

/// The bits of a half-precision float.
#[derive(Debug, PartialEq, Eq, Structural, Clone, Copy)]
pub struct F16Bits(pub u16);

/// The bits of a single-precision float.
#[derive(Debug, PartialEq, Eq, Structural, Clone, Copy)]
pub struct F32Bits(pub u32);

/// A value read from little endian bytes.
pub trait FromBytes: Sized {
    /// The number of bytes of a value.
    spec fn spec_byte_count() -> nat;

    /// The value with the little endian bytes `bytes`.
    spec fn spec_from_bytes(bytes: Seq<u8>) -> Self;

    /// The little endian bytes of the value.
    spec fn spec_to_bytes(self) -> Seq<u8>;

    /// The number of bytes of a value.
    fn byte_count() -> (r: usize)
        ensures
            r == Self::spec_byte_count(),
            1 <= r <= 4,
    ;

    /// Read a value from the bytes of `bytes` starting at `start`.
    fn from_bytes(bytes: &[u8], start: usize) -> (r: Self)
        requires
            start + Self::spec_byte_count() <= bytes@.len(),
        ensures
            r == Self::spec_from_bytes(bytes@.subrange(start as int, start + Self::spec_byte_count())),
    ;

    /// Append the little endian bytes of the value to `out`.
    fn push_bytes(&self, out: &mut Vec<u8>)
        ensures
            final(out)@ == old(out)@ + self.spec_to_bytes(),
            self.spec_to_bytes().len() == Self::spec_byte_count(),
    ;
}

/// A channel of an uncompressed pixel format, which converts to and from unorm8.
pub trait Channel: FromBytes + Copy {
    /// The channel as a unorm8 value.
    spec fn spec_to_unorm8(self) -> u8;

    /// The channel closest to the unorm8 value `u`.
    spec fn spec_from_unorm8(u: u8) -> Self;

    /// The channel that stands for zero.
    spec fn spec_zero() -> Self;

    fn to_unorm8(self) -> (r: u8)
        ensures
            r == self.spec_to_unorm8(),
    ;

    fn from_unorm8(u: u8) -> (r: Self)
        ensures
            r == Self::spec_from_unorm8(u),
    ;

    fn zero() -> (r: Self)
        ensures
            r == Self::spec_zero(),
    ;
}

/// The value of two little endian bytes.
pub open spec fn le_u16(b: Seq<u8>) -> u16 {
    (b[0] + 256 * b[1]) as u16
}

/// The value of four little endian bytes.
pub open spec fn le_u32(b: Seq<u8>) -> u32 {
    (b[0] + 256 * b[1] + 65536 * b[2] + 16777216 * b[3]) as u32
}

/// The two little endian bytes of `x`.
pub open spec fn u16_le(x: u16) -> Seq<u8> {
    seq![(x % 256) as u8, (x / 256) as u8]
}

/// The four little endian bytes of `x`.
pub open spec fn u32_le(x: u32) -> Seq<u8> {
    seq![(x % 256) as u8, ((x / 256) % 256) as u8, ((x / 65536) % 256) as u8, (x / 16777216) as u8]
}

fn read_u16(bytes: &[u8], start: usize) -> (r: u16)
    requires
        start + 2 <= bytes@.len(),
    ensures
        r == le_u16(bytes@.subrange(start as int, start + 2)),
{
    bytes[start] as u16 + bytes[start + 1] as u16 * 256
}

fn read_u32(bytes: &[u8], start: usize) -> (r: u32)
    requires
        start + 4 <= bytes@.len(),
    ensures
        r == le_u32(bytes@.subrange(start as int, start + 4)),
{
    bytes[start] as u32 + bytes[start + 1] as u32 * 256 + bytes[start + 2] as u32 * 65536
        + bytes[start + 3] as u32 * 16777216
}

fn push_u16(x: u16, out: &mut Vec<u8>)
    ensures
        final(out)@ == old(out)@ + u16_le(x),
{
    out.push((x % 256) as u8);
    out.push((x / 256) as u8);
    assert(out@ =~= old(out)@ + u16_le(x));
}

fn push_u32(x: u32, out: &mut Vec<u8>)
    ensures
        final(out)@ == old(out)@ + u32_le(x),
{
    out.push((x % 256) as u8);
    out.push(((x / 256) % 256) as u8);
    out.push(((x / 65536) % 256) as u8);
    out.push((x / 16777216) as u8);
    assert(out@ =~= old(out)@ + u32_le(x));
}

impl FromBytes for u8 {
    open spec fn spec_byte_count() -> nat {
        1
    }

    open spec fn spec_from_bytes(bytes: Seq<u8>) -> u8 {
        bytes[0]
    }

    open spec fn spec_to_bytes(self) -> Seq<u8> {
        seq![self]
    }

    fn byte_count() -> (r: usize) {
        1
    }

    fn from_bytes(bytes: &[u8], start: usize) -> (r: u8) {
        bytes[start]
    }

    fn push_bytes(&self, out: &mut Vec<u8>) {
        out.push(*self);
        assert(out@ =~= old(out)@ + seq![*self]);
    }
}

impl Channel for u8 {
    open spec fn spec_to_unorm8(self) -> u8 {
        self
    }

    open spec fn spec_from_unorm8(u: u8) -> u8 {
        u
    }

    open spec fn spec_zero() -> u8 {
        0
    }

    fn to_unorm8(self) -> (r: u8) {
        self
    }

    fn from_unorm8(u: u8) -> (r: u8) {
        u
    }

    fn zero() -> (r: u8) {
        0
    }
}

impl FromBytes for i8 {
    open spec fn spec_byte_count() -> nat {
        1
    }

    open spec fn spec_from_bytes(bytes: Seq<u8>) -> i8 {
        bytes[0] as i8
    }

    open spec fn spec_to_bytes(self) -> Seq<u8> {
        seq![self as u8]
    }

    fn byte_count() -> (r: usize) {
        1
    }

    fn from_bytes(bytes: &[u8], start: usize) -> (r: i8) {
        bytes[start] as i8
    }

    fn push_bytes(&self, out: &mut Vec<u8>) {
        out.push(*self as u8);
        assert(out@ =~= old(out)@ + seq![*self as u8]);
    }
}

impl Channel for i8 {
    /// The snorm8 value remapped from `[-1, 1]` to `[0, 1]`.
    open spec fn spec_to_unorm8(self) -> u8 {
        spec_snorm8_to_unorm8(snorm8_int(self as u8)) as u8
    }

    /// The snorm8 value closest to the unorm8 value remapped from `[0, 1]` to `[-1, 1]`.
    open spec fn spec_from_unorm8(u: u8) -> i8 {
        spec_unorm8_to_snorm8(u as int) as i8
    }

    open spec fn spec_zero() -> i8 {
        0
    }

    fn to_unorm8(self) -> (r: u8) {
        snorm8_to_unorm8(self as u8)
    }

    fn from_unorm8(u: u8) -> (r: i8) {
        let b = unorm8_to_snorm8(u);
        assert((b as i8) as int == snorm8_int(b)) by (bit_vector);
        b as i8
    }

    fn zero() -> (r: i8) {
        0
    }
}

impl FromBytes for u16 {
    open spec fn spec_byte_count() -> nat {
        2
    }

    open spec fn spec_from_bytes(bytes: Seq<u8>) -> u16 {
        le_u16(bytes)
    }

    open spec fn spec_to_bytes(self) -> Seq<u8> {
        u16_le(self)
    }

    fn byte_count() -> (r: usize) {
        2
    }

    fn from_bytes(bytes: &[u8], start: usize) -> (r: u16) {
        read_u16(bytes, start)
    }

    fn push_bytes(&self, out: &mut Vec<u8>) {
        push_u16(*self, out);
    }
}

impl Channel for u16 {
    open spec fn spec_to_unorm8(self) -> u8 {
        round_half_up(self * 255, 65535) as u8
    }

    open spec fn spec_from_unorm8(u: u8) -> u16 {
        (u * 257) as u16
    }

    open spec fn spec_zero() -> u16 {
        0
    }

    fn to_unorm8(self) -> (r: u8) {
        unorm16_to_unorm8(self)
    }

    fn from_unorm8(u: u8) -> (r: u16) {
        unorm8_to_unorm16(u)
    }

    fn zero() -> (r: u16) {
        0
    }
}

impl FromBytes for i16 {
    open spec fn spec_byte_count() -> nat {
        2
    }

    open spec fn spec_from_bytes(bytes: Seq<u8>) -> i16 {
        le_u16(bytes) as i16
    }

    open spec fn spec_to_bytes(self) -> Seq<u8> {
        u16_le(self as u16)
    }

    fn byte_count() -> (r: usize) {
        2
    }

    fn from_bytes(bytes: &[u8], start: usize) -> (r: i16) {
        read_u16(bytes, start) as i16
    }

    fn push_bytes(&self, out: &mut Vec<u8>) {
        push_u16(*self as u16, out);
    }
}

impl Channel for i16 {
    /// The snorm16 value remapped from `[-1, 1]` to `[0, 1]`.
    open spec fn spec_to_unorm8(self) -> u8 {
        spec_snorm16_to_unorm8(snorm16_int(self as u16)) as u8
    }

    /// The snorm16 value closest to the unorm8 value remapped from `[0, 1]` to `[-1, 1]`.
    open spec fn spec_from_unorm8(u: u8) -> i16 {
        spec_unorm8_to_snorm16(u as int) as i16
    }

    open spec fn spec_zero() -> i16 {
        0
    }

    fn to_unorm8(self) -> (r: u8) {
        snorm16_to_unorm8(self as u16)
    }

    fn from_unorm8(u: u8) -> (r: i16) {
        unorm8_to_snorm16(u)
    }

    fn zero() -> (r: i16) {
        0
    }
}

impl FromBytes for F16Bits {
    open spec fn spec_byte_count() -> nat {
        2
    }

    open spec fn spec_from_bytes(bytes: Seq<u8>) -> F16Bits {
        F16Bits(le_u16(bytes))
    }

    open spec fn spec_to_bytes(self) -> Seq<u8> {
        u16_le(self.0)
    }

    fn byte_count() -> (r: usize) {
        2
    }

    fn from_bytes(bytes: &[u8], start: usize) -> (r: F16Bits) {
        F16Bits(read_u16(bytes, start))
    }

    fn push_bytes(&self, out: &mut Vec<u8>) {
        push_u16(self.0, out);
    }
}

impl Channel for F16Bits {
    /// The half-precision value scaled by 255 and truncated, saturating at 0 and 255.
    open spec fn spec_to_unorm8(self) -> u8 {
        spec_half_to_unorm8(self.0) as u8
    }

    /// The half-precision value closest to the single-precision value closest to `u / 255`.
    open spec fn spec_from_unorm8(u: u8) -> F16Bits {
        F16Bits(spec_unorm8_to_f16_bits(u) as u16)
    }

    open spec fn spec_zero() -> F16Bits {
        F16Bits(0)
    }

    fn to_unorm8(self) -> (r: u8) {
        half_to_unorm8(self.0)
    }

    fn from_unorm8(u: u8) -> (r: F16Bits) {
        F16Bits(unorm8_to_f16_bits(u))
    }

    fn zero() -> (r: F16Bits) {
        F16Bits(0)
    }
}

impl FromBytes for F32Bits {
    open spec fn spec_byte_count() -> nat {
        4
    }

    open spec fn spec_from_bytes(bytes: Seq<u8>) -> F32Bits {
        F32Bits(le_u32(bytes))
    }

    open spec fn spec_to_bytes(self) -> Seq<u8> {
        u32_le(self.0)
    }

    fn byte_count() -> (r: usize) {
        4
    }

    fn from_bytes(bytes: &[u8], start: usize) -> (r: F32Bits) {
        F32Bits(read_u32(bytes, start))
    }

    fn push_bytes(&self, out: &mut Vec<u8>) {
        push_u32(self.0, out);
    }
}

impl Channel for F32Bits {
    /// The single-precision value scaled by 255 and truncated, saturating at 0 and 255.
    open spec fn spec_to_unorm8(self) -> u8 {
        spec_f32_to_unorm8(self.0) as u8
    }

    /// The single-precision value closest to `u / 255`.
    open spec fn spec_from_unorm8(u: u8) -> F32Bits {
        F32Bits(spec_unorm8_to_f32_bits(u) as u32)
    }

    open spec fn spec_zero() -> F32Bits {
        F32Bits(0)
    }

    fn to_unorm8(self) -> (r: u8) {
        f32_to_unorm8(self.0)
    }

    fn from_unorm8(u: u8) -> (r: F32Bits) {
        F32Bits(unorm8_to_f32_bits(u))
    }

    fn zero() -> (r: F32Bits) {
        F32Bits(0)
    }
}

/// A pixel of an uncompressed format, stored as consecutive little endian bytes.
pub trait GetPixel: Sized {
    /// The number of bytes of a pixel.
    spec fn spec_pixel_size() -> nat;

    /// The pixel stored in the bytes `bytes`.
    spec fn spec_get_pixel(bytes: Seq<u8>) -> Self;

    /// The bytes that store the pixel.
    spec fn spec_pixel_bytes(self) -> Seq<u8>;

    /// The number of bytes of a pixel.
    fn pixel_size() -> (r: usize)
        ensures
            r == Self::spec_pixel_size(),
            1 <= r <= 16,
    ;

    /// The pixel at `index` in `data`.
    fn get_pixel(data: &[u8], index: usize) -> (r: Self)
        requires
            index * Self::spec_pixel_size() + Self::spec_pixel_size() <= data@.len(),
        ensures
            r == Self::spec_get_pixel(
                data@.subrange(
                    index * Self::spec_pixel_size(),
                    index * Self::spec_pixel_size() + Self::spec_pixel_size(),
                ),
            ),
    ;

    /// Append the bytes of the pixel to `out`.
    fn push_pixel(&self, out: &mut Vec<u8>)
        ensures
            final(out)@ == old(out)@ + self.spec_pixel_bytes(),
            self.spec_pixel_bytes().len() == Self::spec_pixel_size(),
    ;
}

/// Conversion of a pixel to RGBA with channels of type `T`.
pub trait ToRgba<T> {
    /// The red, green, blue and alpha channels of the pixel.
    spec fn spec_to_rgba(self) -> Seq<T>;

    fn to_rgba(self) -> (r: [T; 4])
        ensures
            r@ == self.spec_to_rgba(),
    ;
}

/// Conversion of RGBA with channels of type `T` to a pixel.
pub trait FromRgba<T>: Sized {
    /// The pixel closest to the red, green, blue and alpha channels in `rgba`.
    spec fn spec_from_rgba(rgba: Seq<T>) -> Self;

    fn from_rgba(rgba: [T; 4]) -> (r: Self)
        ensures
            r == Self::spec_from_rgba(rgba@),
    ;
}

/// A pixel with a red channel.
#[derive(Debug, PartialEq, Eq, Clone, Copy)]
pub struct R<T>(pub [T; 1]);

/// A pixel with red and green channels.
#[derive(Debug, PartialEq, Eq, Clone, Copy)]
pub struct Rg<T>(pub [T; 2]);

/// A pixel with red, green and blue channels.
#[derive(Debug, PartialEq, Eq, Clone, Copy)]
pub struct Rgb<T>(pub [T; 3]);

/// A pixel with red, green, blue and alpha channels.
#[derive(Debug, PartialEq, Eq, Clone, Copy)]
pub struct Rgba<T>(pub [T; 4]);

/// A pixel with 8 bit blue, green and red channels in that order.
#[derive(Debug, PartialEq, Eq, Clone, Copy)]
pub struct Bgr8(pub [u8; 3]);

/// A pixel with 8 bit blue, green, red and alpha channels in that order.
#[derive(Debug, PartialEq, Eq, Clone, Copy)]
pub struct Bgra8(pub [u8; 4]);

/// A pixel with 4 bit channels packed into 2 bytes, from the most significant bits:
/// alpha, red, green and blue.
#[derive(Debug, PartialEq, Eq, Clone, Copy)]
pub struct Bgra4(pub [u8; 2]);

/// A pixel with 5 bit blue, green and red channels and a 1 bit alpha channel packed into a
/// little endian `u16`, from the least significant bits: blue, green, red and alpha.
#[derive(Debug, PartialEq, Eq, Clone, Copy)]
pub struct Bgr5A1(pub [u8; 2]);

pub type R8 = R<u8>;
pub type Rg8 = Rg<u8>;
pub type Rgb8 = Rgb<u8>;
pub type Rgba8 = Rgba<u8>;
pub type R8Snorm = R<i8>;
pub type Rg8Snorm = Rg<i8>;
pub type Rgba8Snorm = Rgba<i8>;
pub type R16 = R<u16>;
pub type Rg16 = Rg<u16>;
pub type Rgba16 = Rgba<u16>;
pub type R16Snorm = R<i16>;
pub type Rg16Snorm = Rg<i16>;
pub type Rgba16Snorm = Rgba<i16>;
pub type Rf16 = R<F16Bits>;
pub type Rgf16 = Rg<F16Bits>;
pub type Rgbaf16 = Rgba<F16Bits>;
pub type Rf32 = R<F32Bits>;
pub type Rgf32 = Rg<F32Bits>;
pub type Rgbf32 = Rgb<F32Bits>;
pub type Rgbaf32 = Rgba<F32Bits>;

/// The channel at position `i` of the bytes of a pixel with channels of type `T`.
pub open spec fn channel_at<T: FromBytes>(bytes: Seq<u8>, i: int) -> T {
    T::spec_from_bytes(
        bytes.subrange(i * T::spec_byte_count(), i * T::spec_byte_count() + T::spec_byte_count()),
    )
}

/// Read the channel at position `i` of the pixel at `index`.
fn read_channel<T: FromBytes>(data: &[u8], index: usize, n: usize, i: usize) -> (r: T)
    requires
        i < n <= 4,
        index * (n * T::spec_byte_count()) + n * T::spec_byte_count() <= data@.len(),
    ensures
        r == channel_at::<T>(
            data@.subrange(
                index * (n * T::spec_byte_count()),
                index * (n * T::spec_byte_count()) + n * T::spec_byte_count(),
            ),
            i as int,
        ),
{
    let size = T::byte_count();
    let ghost pixel = data@.subrange(
        index * (n * size) as int,
        index * (n * size) + n * size,
    );
    assert(i * size + size <= n * size) by (nonlinear_arith)
        requires
            i < n,
    ;
    assert(n * size <= 16 && i * size <= 16) by (nonlinear_arith)
        requires
            i < n <= 4,
            size <= 4,
    ;
    let ns = n * size;
    let len = data.len();
    assert(index * ns + i * size + size <= len);
    let base = index * ns;
    let start = base + i * size;
    let r = T::from_bytes(data, start);
    assert(pixel.subrange(i * size as int, i * size + size) =~= data@.subrange(
        start as int,
        start + size,
    ));
    r
}

impl<T: Channel> GetPixel for R<T> {
    open spec fn spec_pixel_size() -> nat {
        T::spec_byte_count()
    }

    open spec fn spec_get_pixel(bytes: Seq<u8>) -> R<T> {
        R([channel_at::<T>(bytes, 0)])
    }

    open spec fn spec_pixel_bytes(self) -> Seq<u8> {
        self.0[0].spec_to_bytes()
    }

    fn pixel_size() -> (r: usize) {
        T::byte_count()
    }

    fn get_pixel(data: &[u8], index: usize) -> (r: R<T>) {
        let c0 = read_channel::<T>(data, index, 1, 0);
        let r = R([c0]);
        assert(r == Self::spec_get_pixel(
            data@.subrange(
                index * Self::spec_pixel_size(),
                index * Self::spec_pixel_size() + Self::spec_pixel_size(),
            ),
        ));
        r
    }

    fn push_pixel(&self, out: &mut Vec<u8>) {
        self.0[0].push_bytes(out);
    }
}

impl<T: Channel> GetPixel for Rg<T> {
    open spec fn spec_pixel_size() -> nat {
        2 * T::spec_byte_count()
    }

    open spec fn spec_get_pixel(bytes: Seq<u8>) -> Rg<T> {
        Rg([channel_at::<T>(bytes, 0), channel_at::<T>(bytes, 1)])
    }

    open spec fn spec_pixel_bytes(self) -> Seq<u8> {
        self.0[0].spec_to_bytes() + self.0[1].spec_to_bytes()
    }

    fn pixel_size() -> (r: usize) {
        2 * T::byte_count()
    }

    fn get_pixel(data: &[u8], index: usize) -> (r: Rg<T>) {
        let c0 = read_channel::<T>(data, index, 2, 0);
        let c1 = read_channel::<T>(data, index, 2, 1);
        let r = Rg([c0, c1]);
        assert(r == Self::spec_get_pixel(
            data@.subrange(
                index * Self::spec_pixel_size(),
                index * Self::spec_pixel_size() + Self::spec_pixel_size(),
            ),
        ));
        r
    }

    fn push_pixel(&self, out: &mut Vec<u8>) {
        self.0[0].push_bytes(out);
        self.0[1].push_bytes(out);
        assert(out@ =~= old(out)@ + self.spec_pixel_bytes());
    }
}

impl<T: Channel> GetPixel for Rgb<T> {
    open spec fn spec_pixel_size() -> nat {
        3 * T::spec_byte_count()
    }

    open spec fn spec_get_pixel(bytes: Seq<u8>) -> Rgb<T> {
        Rgb([channel_at::<T>(bytes, 0), channel_at::<T>(bytes, 1), channel_at::<T>(bytes, 2)])
    }

    open spec fn spec_pixel_bytes(self) -> Seq<u8> {
        self.0[0].spec_to_bytes() + self.0[1].spec_to_bytes() + self.0[2].spec_to_bytes()
    }

    fn pixel_size() -> (r: usize) {
        3 * T::byte_count()
    }

    fn get_pixel(data: &[u8], index: usize) -> (r: Rgb<T>) {
        let c0 = read_channel::<T>(data, index, 3, 0);
        let c1 = read_channel::<T>(data, index, 3, 1);
        let c2 = read_channel::<T>(data, index, 3, 2);
        let r = Rgb([c0, c1, c2]);
        assert(r == Self::spec_get_pixel(
            data@.subrange(
                index * Self::spec_pixel_size(),
                index * Self::spec_pixel_size() + Self::spec_pixel_size(),
            ),
        ));
        r
    }

    fn push_pixel(&self, out: &mut Vec<u8>) {
        self.0[0].push_bytes(out);
        self.0[1].push_bytes(out);
        self.0[2].push_bytes(out);
        assert(out@ =~= old(out)@ + self.spec_pixel_bytes());
    }
}

impl<T: Channel> GetPixel for Rgba<T> {
    open spec fn spec_pixel_size() -> nat {
        4 * T::spec_byte_count()
    }

    open spec fn spec_get_pixel(bytes: Seq<u8>) -> Rgba<T> {
        Rgba(
            [
                channel_at::<T>(bytes, 0),
                channel_at::<T>(bytes, 1),
                channel_at::<T>(bytes, 2),
                channel_at::<T>(bytes, 3),
            ],
        )
    }

    open spec fn spec_pixel_bytes(self) -> Seq<u8> {
        self.0[0].spec_to_bytes() + self.0[1].spec_to_bytes() + self.0[2].spec_to_bytes()
            + self.0[3].spec_to_bytes()
    }

    fn pixel_size() -> (r: usize) {
        4 * T::byte_count()
    }

    fn get_pixel(data: &[u8], index: usize) -> (r: Rgba<T>) {
        let c0 = read_channel::<T>(data, index, 4, 0);
        let c1 = read_channel::<T>(data, index, 4, 1);
        let c2 = read_channel::<T>(data, index, 4, 2);
        let c3 = read_channel::<T>(data, index, 4, 3);
        let r = Rgba([c0, c1, c2, c3]);
        assert(r == Self::spec_get_pixel(
            data@.subrange(
                index * Self::spec_pixel_size(),
                index * Self::spec_pixel_size() + Self::spec_pixel_size(),
            ),
        ));
        r
    }

    fn push_pixel(&self, out: &mut Vec<u8>) {
        self.0[0].push_bytes(out);
        self.0[1].push_bytes(out);
        self.0[2].push_bytes(out);
        self.0[3].push_bytes(out);
        assert(out@ =~= old(out)@ + self.spec_pixel_bytes());
    }
}

impl<T: Channel> ToRgba<u8> for R<T> {
    /// The red channel repeated in red, green and blue, with opaque alpha.
    open spec fn spec_to_rgba(self) -> Seq<u8> {
        let r = self.0[0].spec_to_unorm8();
        seq![r, r, r, 255u8]
    }

    fn to_rgba(self) -> (r: [u8; 4]) {
        let r = self.0[0].to_unorm8();
        let out = [r, r, r, 255u8];
        assert(out@ =~= self.spec_to_rgba());
        out
    }
}

impl<T: Channel> FromRgba<u8> for R<T> {
    open spec fn spec_from_rgba(rgba: Seq<u8>) -> R<T> {
        R([T::spec_from_unorm8(rgba[0])])
    }

    fn from_rgba(rgba: [u8; 4]) -> (r: R<T>) {
        R([T::from_unorm8(rgba[0])])
    }
}

impl<T: Channel> ToRgba<u8> for Rg<T> {
    /// The red and green channels, the value that zero converts to in blue (by convention
    /// for unorm and snorm data), and opaque alpha.
    open spec fn spec_to_rgba(self) -> Seq<u8> {
        seq![
            self.0[0].spec_to_unorm8(),
            self.0[1].spec_to_unorm8(),
            T::spec_zero().spec_to_unorm8(),
            255u8,
        ]
    }

    fn to_rgba(self) -> (r: [u8; 4]) {
        let out = [self.0[0].to_unorm8(), self.0[1].to_unorm8(), T::zero().to_unorm8(), 255u8];
        assert(out@ =~= self.spec_to_rgba());
        out
    }
}

impl<T: Channel> FromRgba<u8> for Rg<T> {
    open spec fn spec_from_rgba(rgba: Seq<u8>) -> Rg<T> {
        Rg([T::spec_from_unorm8(rgba[0]), T::spec_from_unorm8(rgba[1])])
    }

    fn from_rgba(rgba: [u8; 4]) -> (r: Rg<T>) {
        Rg([T::from_unorm8(rgba[0]), T::from_unorm8(rgba[1])])
    }
}

impl<T: Channel> ToRgba<u8> for Rgb<T> {
    /// The color channels with opaque alpha.
    open spec fn spec_to_rgba(self) -> Seq<u8> {
        seq![
            self.0[0].spec_to_unorm8(),
            self.0[1].spec_to_unorm8(),
            self.0[2].spec_to_unorm8(),
            255u8,
        ]
    }

    fn to_rgba(self) -> (r: [u8; 4]) {
        let out = [self.0[0].to_unorm8(), self.0[1].to_unorm8(), self.0[2].to_unorm8(), 255u8];
        assert(out@ =~= self.spec_to_rgba());
        out
    }
}

impl<T: Channel> FromRgba<u8> for Rgb<T> {
    open spec fn spec_from_rgba(rgba: Seq<u8>) -> Rgb<T> {
        Rgb([T::spec_from_unorm8(rgba[0]), T::spec_from_unorm8(rgba[1]), T::spec_from_unorm8(rgba[2])])
    }

    fn from_rgba(rgba: [u8; 4]) -> (r: Rgb<T>) {
        Rgb([T::from_unorm8(rgba[0]), T::from_unorm8(rgba[1]), T::from_unorm8(rgba[2])])
    }
}

impl<T: Channel> ToRgba<u8> for Rgba<T> {
    open spec fn spec_to_rgba(self) -> Seq<u8> {
        seq![
            self.0[0].spec_to_unorm8(),
            self.0[1].spec_to_unorm8(),
            self.0[2].spec_to_unorm8(),
            self.0[3].spec_to_unorm8(),
        ]
    }

    fn to_rgba(self) -> (r: [u8; 4]) {
        let out = [
            self.0[0].to_unorm8(),
            self.0[1].to_unorm8(),
            self.0[2].to_unorm8(),
            self.0[3].to_unorm8(),
        ];
        assert(out@ =~= self.spec_to_rgba());
        out
    }
}

impl<T: Channel> FromRgba<u8> for Rgba<T> {
    open spec fn spec_from_rgba(rgba: Seq<u8>) -> Rgba<T> {
        Rgba(
            [
                T::spec_from_unorm8(rgba[0]),
                T::spec_from_unorm8(rgba[1]),
                T::spec_from_unorm8(rgba[2]),
                T::spec_from_unorm8(rgba[3]),
            ],
        )
    }

    fn from_rgba(rgba: [u8; 4]) -> (r: Rgba<T>) {
        Rgba(
            [
                T::from_unorm8(rgba[0]),
                T::from_unorm8(rgba[1]),
                T::from_unorm8(rgba[2]),
                T::from_unorm8(rgba[3]),
            ],
        )
    }
}

impl GetPixel for Bgr8 {
    open spec fn spec_pixel_size() -> nat {
        3
    }

    open spec fn spec_get_pixel(bytes: Seq<u8>) -> Bgr8 {
        Bgr8([bytes[0], bytes[1], bytes[2]])
    }

    open spec fn spec_pixel_bytes(self) -> Seq<u8> {
        self.0@
    }

    fn pixel_size() -> (r: usize) {
        3
    }

    fn get_pixel(data: &[u8], index: usize) -> (r: Bgr8) {
        let start = index * 3;
        Bgr8([data[start], data[start + 1], data[start + 2]])
    }

    fn push_pixel(&self, out: &mut Vec<u8>) {
        out.push(self.0[0]);
        out.push(self.0[1]);
        out.push(self.0[2]);
        assert(out@ =~= old(out)@ + self.spec_pixel_bytes());
    }
}

impl ToRgba<u8> for Bgr8 {
    open spec fn spec_to_rgba(self) -> Seq<u8> {
        seq![self.0[2], self.0[1], self.0[0], 255u8]
    }

    fn to_rgba(self) -> (r: [u8; 4]) {
        let out = [self.0[2], self.0[1], self.0[0], 255u8];
        assert(out@ =~= self.spec_to_rgba());
        out
    }
}

impl FromRgba<u8> for Bgr8 {
    open spec fn spec_from_rgba(rgba: Seq<u8>) -> Bgr8 {
        Bgr8([rgba[2], rgba[1], rgba[0]])
    }

    fn from_rgba(rgba: [u8; 4]) -> (r: Bgr8) {
        Bgr8([rgba[2], rgba[1], rgba[0]])
    }
}

impl GetPixel for Bgra8 {
    open spec fn spec_pixel_size() -> nat {
        4
    }

    open spec fn spec_get_pixel(bytes: Seq<u8>) -> Bgra8 {
        Bgra8([bytes[0], bytes[1], bytes[2], bytes[3]])
    }

    open spec fn spec_pixel_bytes(self) -> Seq<u8> {
        self.0@
    }

    fn pixel_size() -> (r: usize) {
        4
    }

    fn get_pixel(data: &[u8], index: usize) -> (r: Bgra8) {
        let start = index * 4;
        Bgra8([data[start], data[start + 1], data[start + 2], data[start + 3]])
    }

    fn push_pixel(&self, out: &mut Vec<u8>) {
        out.push(self.0[0]);
        out.push(self.0[1]);
        out.push(self.0[2]);
        out.push(self.0[3]);
        assert(out@ =~= old(out)@ + self.spec_pixel_bytes());
    }
}

impl ToRgba<u8> for Bgra8 {
    open spec fn spec_to_rgba(self) -> Seq<u8> {
        seq![self.0[2], self.0[1], self.0[0], self.0[3]]
    }

    fn to_rgba(self) -> (r: [u8; 4]) {
        let out = [self.0[2], self.0[1], self.0[0], self.0[3]];
        assert(out@ =~= self.spec_to_rgba());
        out
    }
}

impl FromRgba<u8> for Bgra8 {
    open spec fn spec_from_rgba(rgba: Seq<u8>) -> Bgra8 {
        Bgra8([rgba[2], rgba[1], rgba[0], rgba[3]])
    }

    fn from_rgba(rgba: [u8; 4]) -> (r: Bgra8) {
        Bgra8([rgba[2], rgba[1], rgba[0], rgba[3]])
    }
}

impl GetPixel for Bgra4 {
    open spec fn spec_pixel_size() -> nat {
        2
    }

    open spec fn spec_get_pixel(bytes: Seq<u8>) -> Bgra4 {
        Bgra4([bytes[0], bytes[1]])
    }

    open spec fn spec_pixel_bytes(self) -> Seq<u8> {
        self.0@
    }

    fn pixel_size() -> (r: usize) {
        2
    }

    fn get_pixel(data: &[u8], index: usize) -> (r: Bgra4) {
        let start = index * 2;
        Bgra4([data[start], data[start + 1]])
    }

    fn push_pixel(&self, out: &mut Vec<u8>) {
        out.push(self.0[0]);
        out.push(self.0[1]);
        assert(out@ =~= old(out)@ + self.spec_pixel_bytes());
    }
}

impl ToRgba<u8> for Bgra4 {
    /// Each 4 bit channel expanded to 8 bits.
    open spec fn spec_to_rgba(self) -> Seq<u8> {
        seq![
            ((self.0[1] % 16) * 17) as u8,
            ((self.0[0] / 16) * 17) as u8,
            ((self.0[0] % 16) * 17) as u8,
            ((self.0[1] / 16) * 17) as u8,
        ]
    }

    fn to_rgba(self) -> (r: [u8; 4]) {
        // Expand 4 bit input channels to 8 bit output channels.
        // Most significant bit -> ARGB -> least significant bit.
        let out = [
            unorm4_to_unorm8(self.0[1] % 16),
            unorm4_to_unorm8(self.0[0] / 16),
            unorm4_to_unorm8(self.0[0] % 16),
            unorm4_to_unorm8(self.0[1] / 16),
        ];
        assert(out@ =~= self.spec_to_rgba());
        out
    }
}

impl FromRgba<u8> for Bgra4 {
    /// Each channel reduced to the nearest 4 bit value and packed.
    open spec fn spec_from_rgba(rgba: Seq<u8>) -> Bgra4 {
        Bgra4(
            [
                (round_half_up(rgba[1] * 15, 255) * 16 + round_half_up(rgba[2] * 15, 255)) as u8,
                (round_half_up(rgba[3] * 15, 255) * 16 + round_half_up(rgba[0] * 15, 255)) as u8,
            ],
        )
    }

    fn from_rgba(rgba: [u8; 4]) -> (r: Bgra4) {
        // Pack each channel into 4 bits.
        // Most significant bit -> ARGB -> least significant bit.
        Bgra4(
            [
                unorm8_to_unorm4(rgba[1]) * 16 + unorm8_to_unorm4(rgba[2]),
                unorm8_to_unorm4(rgba[3]) * 16 + unorm8_to_unorm4(rgba[0]),
            ],
        )
    }
}

/// A 5 bit unorm value expanded to 8 bits.
pub open spec fn spec_unorm5_to_unorm8(x: int) -> int {
    round_half_up(x * 255, 31)
}

/// An 8 bit unorm value reduced to the nearest 5 bit value.
pub open spec fn spec_unorm8_to_unorm5(x: int) -> int {
    round_half_up(x * 31, 255)
}

fn unorm5_to_unorm8(x: u16) -> (r: u8)
    requires
        x < 32,
    ensures
        r == spec_unorm5_to_unorm8(x as int),
{
    assert((2 * x * 255 + 31) / 62 < 256) by (nonlinear_arith)
        requires
            x < 32,
    ;
    ((2 * x * 255 + 31) / 62) as u8
}

fn unorm8_to_unorm5(x: u8) -> (r: u16)
    ensures
        r == spec_unorm8_to_unorm5(x as int),
        r < 32,
{
    assert((2 * x * 31 + 255) / 510 < 32) by (nonlinear_arith);
    (2 * x as u16 * 31 + 255) / 510
}

impl GetPixel for Bgr5A1 {
    open spec fn spec_pixel_size() -> nat {
        2
    }

    open spec fn spec_get_pixel(bytes: Seq<u8>) -> Bgr5A1 {
        Bgr5A1([bytes[0], bytes[1]])
    }

    open spec fn spec_pixel_bytes(self) -> Seq<u8> {
        self.0@
    }

    fn pixel_size() -> (r: usize) {
        2
    }

    fn get_pixel(data: &[u8], index: usize) -> (r: Bgr5A1) {
        let start = index * 2;
        Bgr5A1([data[start], data[start + 1]])
    }

    fn push_pixel(&self, out: &mut Vec<u8>) {
        out.push(self.0[0]);
        out.push(self.0[1]);
        assert(out@ =~= old(out)@ + self.spec_pixel_bytes());
    }
}

impl ToRgba<u8> for Bgr5A1 {
    /// Each 5 bit color channel expanded to 8 bits, and alpha 255 if its bit is set.
    open spec fn spec_to_rgba(self) -> Seq<u8> {
        let v = self.0[0] + 256 * self.0[1];
        seq![
            spec_unorm5_to_unorm8((v / 1024) % 32) as u8,
            spec_unorm5_to_unorm8((v / 32) % 32) as u8,
            spec_unorm5_to_unorm8(v % 32) as u8,
            if v >= 32768 { 255u8 } else { 0u8 },
        ]
    }

    fn to_rgba(self) -> (r: [u8; 4]) {
        let v = self.0[0] as u16 + self.0[1] as u16 * 256;
        let out = [
            unorm5_to_unorm8((v / 1024) % 32),
            unorm5_to_unorm8((v / 32) % 32),
            unorm5_to_unorm8(v % 32),
            if v >= 32768 { 255u8 } else { 0u8 },
        ];
        assert(out@ =~= self.spec_to_rgba());
        out
    }
}

impl FromRgba<u8> for Bgr5A1 {
    /// Each color channel reduced to the nearest 5 bit value, and the alpha bit set for alpha
    /// of at least 128.
    open spec fn spec_from_rgba(rgba: Seq<u8>) -> Bgr5A1 {
        let v = spec_unorm8_to_unorm5(rgba[2] as int) + 32 * spec_unorm8_to_unorm5(rgba[1] as int)
            + 1024 * spec_unorm8_to_unorm5(rgba[0] as int) + if rgba[3] >= 128 { 32768int } else { 0int };
        Bgr5A1([(v % 256) as u8, (v / 256) as u8])
    }

    fn from_rgba(rgba: [u8; 4]) -> (r: Bgr5A1) {
        let a: u16 = if rgba[3] >= 128 { 32768 } else { 0 };
        let v = unorm8_to_unorm5(rgba[2]) + 32 * unorm8_to_unorm5(rgba[1]) + 1024 * unorm8_to_unorm5(
            rgba[0],
        ) + a;
        Bgr5A1([(v % 256) as u8, (v / 256) as u8])
    }
}

/// The number of elements of a `width` by `height` image with `elements_per_pixel` elements
/// per pixel.
pub open spec fn spec_expected_size(width: u32, height: u32, elements_per_pixel: usize) -> int {
    width * height * elements_per_pixel
}

/// Whether the number of pixels or elements of a `width` by `height` image with
/// `elements_per_pixel` elements per pixel does not fit in `usize`.
pub open spec fn size_overflows(width: u32, height: u32, elements_per_pixel: usize) -> bool {
    width * height > usize::MAX || width * height * elements_per_pixel > usize::MAX
}

/// The number of elements of a `width` by `height` image with `elements_per_pixel` elements
/// per pixel, or `None` if it does not fit in `usize`.
pub fn expected_size(width: u32, height: u32, elements_per_pixel: usize) -> (r: Option<usize>)
    ensures
        r == (if !size_overflows(width, height, elements_per_pixel) {
            Some(spec_expected_size(width, height, elements_per_pixel) as usize)
        } else {
            None::<usize>
        }),
{
    let wh = (width as usize).checked_mul(height as usize);
    match wh {
        None => None,
        Some(n) => n.checked_mul(elements_per_pixel),
    }
}

/// The error for `data_len` elements that do not hold a `width` by `height` image with
/// `elements_per_pixel` elements per pixel, if any.
pub open spec fn spec_length_error(width: u32, height: u32, elements_per_pixel: usize, data_len: nat) -> Option<
    SurfaceError,
> {
    let expected = spec_expected_size(width, height, elements_per_pixel);
    if size_overflows(width, height, elements_per_pixel) {
        Some(SurfaceError::PixelCountWouldOverflow { width, height, depth: 1 })
    } else if data_len < expected {
        Some(SurfaceError::NotEnoughData { expected: expected as usize, actual: data_len as usize })
    } else {
        None
    }
}

/// Check that `data` holds a `width` by `height` image with `elements_per_pixel` elements per
/// pixel, and return the number of elements of the image.
pub fn validate_length<T>(width: u32, height: u32, elements_per_pixel: usize, data: &[T]) -> (r: Result<
    usize,
    SurfaceError,
>)
    ensures
        match spec_length_error(width, height, elements_per_pixel, data@.len()) {
            Some(e) => r == Err::<usize, SurfaceError>(e),
            None => r == Ok::<usize, SurfaceError>(
                spec_expected_size(width, height, elements_per_pixel) as usize,
            ),
        },
{
    match expected_size(width, height, elements_per_pixel) {
        None => Err(SurfaceError::PixelCountWouldOverflow { width, height, depth: 1 }),
        Some(expected) => {
            if data.len() < expected {
                Err(SurfaceError::NotEnoughData { expected, actual: data.len() })
            } else {
                Ok(expected)
            }
        },
    }
}

/// The RGBA channels of the first `n` pixels of `data` in order.
pub open spec fn decoded_rgba<P: GetPixel + ToRgba<T>, T>(data: Seq<u8>, n: nat) -> Seq<T>
    decreases n,
{
    if n == 0 {
        Seq::empty()
    } else {
        let s = P::spec_pixel_size();
        decoded_rgba::<P, T>(data, (n - 1) as nat) + P::spec_get_pixel(
            data.subrange((n - 1) * s, (n * s) as int),
        ).spec_to_rgba()
    }
}

/// The bytes of the first `n` pixels converted from the RGBA channels in `data`.
pub open spec fn encoded_rgba<P: GetPixel + FromRgba<T>, T>(data: Seq<T>, n: nat) -> Seq<u8>
    decreases n,
{
    if n == 0 {
        Seq::empty()
    } else {
        encoded_rgba::<P, T>(data, (n - 1) as nat) + P::spec_from_rgba(
            data.subrange(4 * (n - 1), (4 * n) as int),
        ).spec_pixel_bytes()
    }
}

/// The outcome of decoding a `width` by `height` image of pixels `P` in `data` to RGBA with
/// channels `T`.
pub open spec fn spec_decode_rgba<P: GetPixel + ToRgba<T>, T>(width: u32, height: u32, data: Seq<u8>) -> Result<
    Seq<T>,
    SurfaceError,
> {
    match spec_length_error(width, height, P::spec_pixel_size() as usize, data.len()) {
        Some(e) => Err(e),
        None => Ok(decoded_rgba::<P, T>(data, (width * height) as nat)),
    }
}

/// The outcome of encoding a `width` by `height` image with RGBA channels `T` in `data` to
/// pixels `P`.
pub open spec fn spec_encode_rgba<P: GetPixel + FromRgba<T>, T>(width: u32, height: u32, data: Seq<T>) -> Result<
    Seq<u8>,
    SurfaceError,
> {
    match spec_length_error(width, height, 4, data.len()) {
        Some(e) => Err(e),
        None => Ok(encoded_rgba::<P, T>(data, (width * height) as nat)),
    }
}

/// Decode a `width` by `height` image of pixels `P` to RGBA with channels `T`.
pub fn decode_rgba<P, T>(width: u32, height: u32, data: &[u8]) -> (r: Result<Vec<T>, SurfaceError>)
    where
        P: GetPixel + ToRgba<T>,
        T: Copy,
    ensures
        match spec_length_error(width, height, P::spec_pixel_size() as usize, data@.len()) {
            Some(e) => r == Err::<Vec<T>, SurfaceError>(e),
            None => r matches Ok(v) && v@ == decoded_rgba::<P, T>(data@, (width * height) as nat),
        },
{
    let size = P::pixel_size();
    let expected = validate_length(width, height, size, data);
    match expected {
        Err(e) => Err(e),
        Ok(_) => {
            let count = width as usize * height as usize;
            assert(count * size <= data@.len()) by (nonlinear_arith)
                requires
                    count == width * height,
                    width * height * size <= data@.len(),
            ;
            let mut out: Vec<T> = Vec::new();
            let mut i: usize = 0;
            while i < count
                invariant
                    i <= count,
                    count == width * height,
                    size == P::spec_pixel_size(),
                    count * size <= data@.len(),
                    out@ == decoded_rgba::<P, T>(data@, i as nat),
                decreases count - i,
            {
                assert(i * size + size <= count * size) by (nonlinear_arith)
                    requires
                        i < count,
                ;
                let rgba = P::get_pixel(data, i).to_rgba();
                out.push(rgba[0]);
                out.push(rgba[1]);
                out.push(rgba[2]);
                out.push(rgba[3]);
                proof {
                    let ghost s = P::spec_pixel_size();
                    assert((i + 1) * s == i * s + s) by (nonlinear_arith);
                    assert(out@ =~= decoded_rgba::<P, T>(data@, (i + 1) as nat));
                }
                i += 1;
            }
            Ok(out)
        },
    }
}

/// Encode a `width` by `height` image with RGBA channels `T` to pixels `P`.
pub fn encode_rgba<P, T>(width: u32, height: u32, data: &[T]) -> (r: Result<Vec<u8>, SurfaceError>)
    where
        P: GetPixel + FromRgba<T>,
        T: Copy,
    ensures
        match spec_length_error(width, height, 4, data@.len()) {
            Some(e) => r == Err::<Vec<u8>, SurfaceError>(e),
            None => r matches Ok(v) && v@ == encoded_rgba::<P, T>(data@, (width * height) as nat),
        },
{
    let expected = validate_length(width, height, 4, data);
    match expected {
        Err(e) => Err(e),
        Ok(_) => {
            let count = width as usize * height as usize;
            assert(4 * count <= data@.len()) by (nonlinear_arith)
                requires
                    count == width * height,
                    width * height * 4 <= data@.len(),
            ;
            let mut out: Vec<u8> = Vec::new();
            let len = data.len();
            let mut i: usize = 0;
            while i < count
                invariant
                    i <= count,
                    count == width * height,
                    len == data@.len(),
                    4 * count <= len,
                    out@ == encoded_rgba::<P, T>(data@, i as nat),
                decreases count - i,
            {
                let j = 4 * i;
                let rgba = [data[j], data[j + 1], data[j + 2], data[j + 3]];
                assert(rgba@ =~= data@.subrange(4 * i, 4 * (i + 1)));
                let pixel = P::from_rgba(rgba);
                pixel.push_pixel(&mut out);
                i += 1;
            }
            Ok(out)
        },
    }
}

} // verus!
