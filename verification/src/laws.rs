//! Properties that relate several operations of the library: reading back what was written,
//! and the shape of the mipmap chain.
use vstd::prelude::*;
use vstd::arithmetic::power2::{pow2, lemma_pow2_unfold, lemma_pow2_pos};
use crate::convert::round_half_up;
use crate::decode::spec_decode_rgba8_data;
use crate::encode::{spec_encode_rgba8_data, spec_encode_surface};
use crate::encoded_size::{lemma_encoded_pixels_len, sized};
use crate::error::SurfaceError;
use crate::format::{ImageFormat, Mipmaps, Quality};
use crate::layout::{bit_length, spec_mip_dimension};
use crate::rgba::{decoded_rgba, encoded_rgba, spec_decode_rgba, spec_encode_rgba, Bgra8, Channel, F32Bits, FromBytes, FromRgba, GetPixel, Rgba16, Rgba16Snorm, Rgba8, Rgbaf32, ToRgba};

verus! {

/// Whether every RGBA8 color converted to a pixel `P` is read back from the bytes of that
/// pixel unchanged.
pub open spec fn lossless<P: GetPixel + ToRgba<u8> + FromRgba<u8>>() -> bool {
    forall|c: Seq<u8>|
        c.len() == 4 ==> {
            &&& (#[trigger] P::spec_from_rgba(c)).spec_pixel_bytes().len() == P::spec_pixel_size()
            &&& P::spec_get_pixel(P::spec_from_rgba(c).spec_pixel_bytes()).spec_to_rgba() == c
        }
}

proof fn lemma_rgba8_lossless()
    ensures
        lossless::<Rgba8>(),
{
    assert forall|c: Seq<u8>| c.len() == 4 implies {
        &&& (#[trigger] Rgba8::spec_from_rgba(c)).spec_pixel_bytes().len() == Rgba8::spec_pixel_size()
        &&& Rgba8::spec_get_pixel(Rgba8::spec_from_rgba(c).spec_pixel_bytes()).spec_to_rgba() == c
    } by {
        let b = Rgba8::spec_from_rgba(c).spec_pixel_bytes();
        assert(b =~= c);
        assert(b.subrange(0, 1) =~= seq![c[0]]);
        assert(b.subrange(1, 2) =~= seq![c[1]]);
        assert(b.subrange(2, 3) =~= seq![c[2]]);
        assert(b.subrange(3, 4) =~= seq![c[3]]);
        assert(Rgba8::spec_get_pixel(b).spec_to_rgba() =~= c);
    }
}

proof fn lemma_bgra8_lossless()
    ensures
        lossless::<Bgra8>(),
{
    assert forall|c: Seq<u8>| c.len() == 4 implies {
        &&& (#[trigger] Bgra8::spec_from_rgba(c)).spec_pixel_bytes().len() == Bgra8::spec_pixel_size()
        &&& Bgra8::spec_get_pixel(Bgra8::spec_from_rgba(c).spec_pixel_bytes()).spec_to_rgba() == c
    } by {
        assert(Bgra8::spec_get_pixel(Bgra8::spec_from_rgba(c).spec_pixel_bytes()).spec_to_rgba() =~= c);
    }
}

/// A unorm8 value expanded to 16 bits is reduced back to itself.
proof fn lemma_unorm16_channel(u: u8)
    ensures
        round_half_up(((u * 257) as u16) * 255, 65535) == u,
        crate::rgba::le_u16(crate::rgba::u16_le((u * 257) as u16)) == (u * 257) as u16,
{
    assert((u * 257) as u16 == u * 257);
    assert(round_half_up(u * 257 * 255, 65535) == u) by (nonlinear_arith);
    let x = (u * 257) as u16;
    assert(x % 256 + 256 * (x / 256) == x);
}

proof fn lemma_rgba16_lossless()
    ensures
        lossless::<Rgba16>(),
{
    assert forall|c: Seq<u8>| c.len() == 4 implies {
        &&& (#[trigger] Rgba16::spec_from_rgba(c)).spec_pixel_bytes().len() == Rgba16::spec_pixel_size()
        &&& Rgba16::spec_get_pixel(Rgba16::spec_from_rgba(c).spec_pixel_bytes()).spec_to_rgba() == c
    } by {
        let p = Rgba16::spec_from_rgba(c);
        let b = p.spec_pixel_bytes();
        lemma_unorm16_channel(c[0]);
        lemma_unorm16_channel(c[1]);
        lemma_unorm16_channel(c[2]);
        lemma_unorm16_channel(c[3]);
        assert(b.subrange(0, 2) =~= crate::rgba::u16_le(p.0[0]));
        assert(b.subrange(2, 4) =~= crate::rgba::u16_le(p.0[1]));
        assert(b.subrange(4, 6) =~= crate::rgba::u16_le(p.0[2]));
        assert(b.subrange(6, 8) =~= crate::rgba::u16_le(p.0[3]));
        assert(Rgba16::spec_get_pixel(b).spec_to_rgba() =~= c);
    }
}

/// A unorm8 value stored as a little endian snorm16 value is read back as itself.
proof fn lemma_snorm16_channel(u: u8)
    ensures
        i16::spec_from_bytes(i16::spec_from_unorm8(u).spec_to_bytes()).spec_to_unorm8() == u,
{
    let v = crate::convert::spec_unorm8_to_snorm16(u as int);
    assert(-32767 <= v <= 32767) by (nonlinear_arith)
        requires
            v == crate::convert::spec_unorm8_to_snorm16(u as int),
    ;
    crate::convert::lemma_unorm8_snorm16_roundtrip(u);
    let s = v as i16;
    assert(s == v);
    let b = s as u16;
    assert(b % 256 + 256 * (b / 256) == b);
    assert(crate::rgba::le_u16(crate::rgba::u16_le(b)) == b);
    assert((b as i16) == s) by (bit_vector)
        requires
            b == s as u16,
    ;
    assert(crate::convert::snorm16_int(s as u16) == s as int) by (bit_vector);
}

proof fn lemma_rgba16_snorm_lossless()
    ensures
        lossless::<Rgba16Snorm>(),
{
    assert forall|c: Seq<u8>| c.len() == 4 implies {
        &&& (#[trigger] Rgba16Snorm::spec_from_rgba(c)).spec_pixel_bytes().len() == Rgba16Snorm::spec_pixel_size()
        &&& Rgba16Snorm::spec_get_pixel(Rgba16Snorm::spec_from_rgba(c).spec_pixel_bytes()).spec_to_rgba() == c
    } by {
        let p = Rgba16Snorm::spec_from_rgba(c);
        let b = p.spec_pixel_bytes();
        lemma_snorm16_channel(c[0]);
        lemma_snorm16_channel(c[1]);
        lemma_snorm16_channel(c[2]);
        lemma_snorm16_channel(c[3]);
        assert(b.subrange(0, 2) =~= p.0[0].spec_to_bytes());
        assert(b.subrange(2, 4) =~= p.0[1].spec_to_bytes());
        assert(b.subrange(4, 6) =~= p.0[2].spec_to_bytes());
        assert(b.subrange(6, 8) =~= p.0[3].spec_to_bytes());
        assert(Rgba16Snorm::spec_get_pixel(b).spec_to_rgba() =~= c);
    }
}

/// A unorm8 value stored as a little endian single-precision float is read back as itself.
proof fn lemma_f32_channel(u: u8)
    ensures
        F32Bits::spec_from_bytes(F32Bits::spec_from_unorm8(u).spec_to_bytes()).spec_to_unorm8() == u,
{
    let x = F32Bits::spec_from_unorm8(u).0;
    assert(crate::rgba::le_u32(crate::rgba::u32_le(x)) == x) by (bit_vector);
    crate::floatbits::lemma_unorm8_f32_roundtrip(u);
}

proof fn lemma_rgbaf32_lossless()
    ensures
        lossless::<Rgbaf32>(),
{
    assert forall|c: Seq<u8>| c.len() == 4 implies {
        &&& (#[trigger] Rgbaf32::spec_from_rgba(c)).spec_pixel_bytes().len() == Rgbaf32::spec_pixel_size()
        &&& Rgbaf32::spec_get_pixel(Rgbaf32::spec_from_rgba(c).spec_pixel_bytes()).spec_to_rgba() == c
    } by {
        let p = Rgbaf32::spec_from_rgba(c);
        let b = p.spec_pixel_bytes();
        lemma_f32_channel(c[0]);
        lemma_f32_channel(c[1]);
        lemma_f32_channel(c[2]);
        lemma_f32_channel(c[3]);
        assert(b.subrange(0, 4) =~= p.0[0].spec_to_bytes());
        assert(b.subrange(4, 8) =~= p.0[1].spec_to_bytes());
        assert(b.subrange(8, 12) =~= p.0[2].spec_to_bytes());
        assert(b.subrange(12, 16) =~= p.0[3].spec_to_bytes());
        assert(Rgbaf32::spec_get_pixel(b).spec_to_rgba() =~= c);
    }
}

/// The encoded bytes of the first `n` pixels hold `n` pixels.
proof fn lemma_encoded_len<P: GetPixel + ToRgba<u8> + FromRgba<u8>>(data: Seq<u8>, n: nat)
    requires
        lossless::<P>(),
        4 * n <= data.len(),
    ensures
        encoded_rgba::<P, u8>(data, n).len() == n * P::spec_pixel_size(),
{
    assert(sized::<P>());
    lemma_encoded_pixels_len::<P>(data, n);
}

/// Decoding the first `k` pixels reads only the bytes of those pixels.
proof fn lemma_decoded_prefix<P: GetPixel + ToRgba<u8>>(a: Seq<u8>, b: Seq<u8>, k: nat)
    requires
        k * P::spec_pixel_size() <= a.len(),
        k * P::spec_pixel_size() <= b.len(),
        a.subrange(0, (k * P::spec_pixel_size()) as int) == b.subrange(0, (k * P::spec_pixel_size()) as int),
    ensures
        decoded_rgba::<P, u8>(a, k) == decoded_rgba::<P, u8>(b, k),
    decreases k,
{
    if k > 0 {
        let s = P::spec_pixel_size();
        assert((k - 1) * s + s == k * s) by (nonlinear_arith);
        assert(0 <= (k - 1) * s) by (nonlinear_arith)
            requires
                k >= 1,
        ;
        assert(a.subrange(0, (k - 1) * s) =~= a.subrange(0, (k * s) as int).subrange(0, (k - 1) * s));
        assert(b.subrange(0, (k - 1) * s) =~= b.subrange(0, (k * s) as int).subrange(0, (k - 1) * s));
        lemma_decoded_prefix::<P>(a, b, (k - 1) as nat);
        assert(a.subrange((k - 1) * s, (k * s) as int) =~= a.subrange(0, (k * s) as int).subrange((k - 1) * s, (k * s) as int));
        assert(b.subrange((k - 1) * s, (k * s) as int) =~= b.subrange(0, (k * s) as int).subrange((k - 1) * s, (k * s) as int));
    }
}

/// Decoding the encoded bytes of the first `n` pixels of a lossless format gives back
/// their RGBA8 data.
proof fn lemma_pixels_roundtrip<P: GetPixel + ToRgba<u8> + FromRgba<u8>>(data: Seq<u8>, n: nat)
    requires
        lossless::<P>(),
        4 * n <= data.len(),
    ensures
        decoded_rgba::<P, u8>(encoded_rgba::<P, u8>(data, n), n) == data.subrange(0, (4 * n) as int),
    decreases n,
{
    if n > 0 {
        let s = P::spec_pixel_size();
        let prev = encoded_rgba::<P, u8>(data, (n - 1) as nat);
        let all = encoded_rgba::<P, u8>(data, n);
        let c = data.subrange(4 * (n - 1), (4 * n) as int);
        lemma_pixels_roundtrip::<P>(data, (n - 1) as nat);
        lemma_encoded_len::<P>(data, (n - 1) as nat);
        lemma_encoded_len::<P>(data, n);
        assert((n - 1) * s + s == n * s) by (nonlinear_arith);
        assert(all =~= prev + P::spec_from_rgba(c).spec_pixel_bytes());
        assert(all.subrange(0, (n - 1) * s) =~= prev.subrange(0, (n - 1) * s));
        lemma_decoded_prefix::<P>(all, prev, (n - 1) as nat);
        assert(all.subrange((n - 1) * s, (n * s) as int) =~= P::spec_from_rgba(c).spec_pixel_bytes());
        assert(data.subrange(0, (4 * n) as int) =~= data.subrange(0, 4 * (n - 1)) + c);
    }
}

/// Decoding the data that encoding RGBA8 data to a format with pixels `P` produced gives
/// back the RGBA8 data of the image, if `P` is lossless.
proof fn lemma_rgba_roundtrip<P: GetPixel + ToRgba<u8> + FromRgba<u8>>(width: u32, height: u32, data: Seq<u8>)
    requires
        lossless::<P>(),
    ensures
        spec_encode_rgba::<P, u8>(width, height, data) matches Ok(e) ==> (e.len() <= usize::MAX
            ==> spec_decode_rgba::<P, u8>(width, height, e) == Ok::<Seq<u8>, SurfaceError>(
            data.subrange(0, width * height * 4),
        )),
{
    if let Ok(e) = spec_encode_rgba::<P, u8>(width, height, data) {
        let n = (width * height) as nat;
        assert(n * 4 == width * height * 4) by (nonlinear_arith)
            requires
                n == width * height,
        ;
        lemma_encoded_len::<P>(data, n);
        lemma_pixels_roundtrip::<P>(data, n);
        assert(n * P::spec_pixel_size() == width * height * P::spec_pixel_size()) by (nonlinear_arith)
            requires
                n == width * height,
        ;
    }
}

/// Encoding RGBA8 data to `Rgba8Unorm`, `Bgra8Unorm`, `Rgba16Unorm`, `Rgba16Snorm` or
/// `Rgba32Float` (or the sRGB variants) gives bytes that need no compressor, and decoding them gives back the RGBA8
/// data of the image. The encoded bytes are held in memory, so their number fits in `usize`.
pub proof fn lemma_encode_decode_lossless(
    width: u32,
    height: u32,
    data: Seq<u8>,
    format: ImageFormat,
    quality: Quality,
)
    requires
        format is Rgba8Unorm || format is Rgba8UnormSrgb || format is Bgra8Unorm || format is Bgra8UnormSrgb
            || format is Rgba16Unorm || format is Rgba16Snorm || format is Rgba32Float,
    ensures
        spec_encode_rgba8_data(width, height, data, format, quality) matches Ok(e) ==> {
            &&& e.0 is None
            &&& e.3.len() <= usize::MAX ==> spec_decode_rgba8_data(width, height, format, e.3)
                == Ok::<Seq<u8>, SurfaceError>(data.subrange(0, width * height * 4))
        },
{
    reveal(spec_encode_rgba8_data);
    lemma_rgba8_lossless();
    lemma_bgra8_lossless();
    lemma_rgba16_lossless();
    lemma_rgba16_snorm_lossless();
    lemma_rgbaf32_lossless();
    lemma_rgba_roundtrip::<Rgba8>(width, height, data);
    lemma_rgba_roundtrip::<Bgra8>(width, height, data);
    lemma_rgba_roundtrip::<Rgba16>(width, height, data);
    lemma_rgba_roundtrip::<Rgba16Snorm>(width, height, data);
    lemma_rgba_roundtrip::<Rgbaf32>(width, height, data);
}

/// Generating an exact count of 0 or 1 mipmaps is the same as disabling mipmaps: the encoded
/// surface has one mipmap, with the same parts, and the same error comes for the same input.
pub proof fn lemma_exact_single_mipmap_is_disabled(
    data: Seq<u8>,
    dimensions: (u32, u32, u32),
    layers: u32,
    surface_mipmaps: u32,
    format: ImageFormat,
    quality: Quality,
    count: u32,
)
    requires
        count <= 1,
    ensures
        spec_encode_surface(data, dimensions, layers, surface_mipmaps, format, quality, Mipmaps::GeneratedExact(count))
            == spec_encode_surface(data, dimensions, layers, surface_mipmaps, format, quality, Mipmaps::Disabled),
        spec_encode_surface(data, dimensions, layers, surface_mipmaps, format, quality, Mipmaps::Disabled) matches Ok(
            e,
        ) ==> e.0 == 1,
{
}

/// Each mip level halves the dimension of the level before it, rounding down, but never
/// below 1.
pub proof fn lemma_mip_dimension_halves(base_dimension: u32, mipmap: u32)
    requires
        mipmap < u32::MAX,
    ensures
        spec_mip_dimension(base_dimension, (mipmap + 1) as u32) == if spec_mip_dimension(base_dimension, mipmap) / 2 < 1 {
            1
        } else {
            spec_mip_dimension(base_dimension, mipmap) / 2
        },
{
    let p = pow2(mipmap as nat);
    lemma_pow2_pos(mipmap as nat);
    lemma_pow2_unfold((mipmap + 1) as nat);
    vstd::arithmetic::div_mod::lemma_div_denominator(base_dimension as int, p as int, 2);
    assert(p * 2 == pow2((mipmap + 1) as nat));
    let q = base_dimension as nat / p;
    vstd::arithmetic::div_mod::lemma_div_is_ordered(base_dimension as int, u32::MAX as int, p as int);
    vstd::arithmetic::div_mod::lemma_div_is_ordered_by_denominator(base_dimension as int, 1, p as int);
    vstd::arithmetic::div_mod::lemma_div_is_ordered_by_denominator(base_dimension as int, 1, (p * 2) as int);
}

/// A positive `x` lies between the powers of two below and at its bit length.
proof fn lemma_bit_length_range(x: nat)
    requires
        x > 0,
    ensures
        bit_length(x) >= 1,
        pow2((bit_length(x) - 1) as nat) <= x < pow2(bit_length(x)),
    decreases x,
{
    if x == 1 {
        assert(bit_length(0) == 0);
        vstd::arithmetic::power2::lemma2_to64();
    } else {
        lemma_bit_length_range(x / 2);
        let b = bit_length(x / 2);
        lemma_pow2_unfold(b + 1);
        lemma_pow2_unfold(b);
    }
}

/// The mipmap count of a surface whose largest dimension is `max_dimension`, the bit length
/// that [`crate::layout::max_mipmap_count`] returns, reaches dimension 1 at its last level
/// and no earlier: each earlier level of that dimension is larger than 1.
pub proof fn lemma_max_mipmap_count_last_level(max_dimension: u32)
    requires
        max_dimension > 0,
    ensures
        bit_length(max_dimension as nat) >= 1,
        spec_mip_dimension(max_dimension, (bit_length(max_dimension as nat) - 1) as u32) == 1,
        forall|m: u32|
            m + 1 < bit_length(max_dimension as nat) ==> #[trigger] spec_mip_dimension(max_dimension, m) > 1,
{
    let x = max_dimension as nat;
    lemma_bit_length_range(x);
    let n = bit_length(x);
    vstd::arithmetic::power2::lemma2_to64();
    crate::layout::lemma_bit_length_bound(x, 32);
    let top = pow2((n - 1) as nat);
    lemma_pow2_pos((n - 1) as nat);
    lemma_pow2_unfold(n);
    assert(x / top == 1) by {
        vstd::arithmetic::div_mod::lemma_fundamental_div_mod(x as int, top as int);
        assert(x / top >= 1 && x / top < 2) by (nonlinear_arith)
            requires
                top <= x < 2 * top,
                x == top * (x / top) + x % top,
                0 <= x % top < top,
        ;
    }
    assert((n - 1) as u32 == n - 1);
    assert forall|m: u32| m + 1 < n implies #[trigger] spec_mip_dimension(max_dimension, m) > 1 by {
        let pm = pow2(m as nat);
        lemma_pow2_pos(m as nat);
        let rest = pow2((n - 1 - m - 1) as nat);
        lemma_pow2_pos((n - 1 - m - 1) as nat);
        vstd::arithmetic::power2::lemma_pow2_adds(m as nat, (n - 1 - m) as nat);
        lemma_pow2_unfold((n - 1 - m) as nat);
        assert(top == pm * (2 * rest));
        vstd::arithmetic::div_mod::lemma_div_multiples_vanish((2 * rest) as int, pm as int);
        vstd::arithmetic::div_mod::lemma_div_is_ordered(top as int, x as int, pm as int);
        assert(pm * (2 * rest) == top);
    }
}

} // verus!
