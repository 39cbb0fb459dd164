//! Decoding an encoded surface: the surface-level read back of what encoding wrote.
use vstd::prelude::*;
use crate::format::{is_block_compressed, spec_block_dimensions, spec_block_size_in_bytes, ImageFormat};
use crate::layout::{div_ceil, level_size, levels_fit, levels_size, spec_mip_dimension, spec_mip_size};
use crate::surface::{layer_slices, spec_mipmap_range, spec_validate};
use crate::bcn_encode::{part_len, PartView};
use crate::decode::{decode_layers, decode_levels, decode_mips, decode_part, spec_decode_rgba8_data, spec_decode_surface};
use crate::encode::{
    assembled, levels_encoded, mip_slices, spec_encode_layers, spec_encode_mip, spec_encode_mips,
    spec_encode_rgba8_data, spec_encode_surface, spec_get_mipmap_data, spec_mip_chain,
};
use crate::format::{Mipmaps, Quality};
use crate::mipgen::round_up;

verus! {

/// In a surface of `width` x `height` pixels with one depth slice and one mipmap in an
/// uncompressed `format`, array layer `layer` takes the `width * height * size` bytes after
/// the layers before it.
proof fn lemma_single_level_range(len: nat, width: u32, height: u32, format: ImageFormat, layer: u32)
    requires
        !is_block_compressed(format),
        width >= 1,
        height >= 1,
        (layer + 1) * (width * height * spec_block_size_in_bytes(format)) <= len,
        len <= usize::MAX,
    ensures
        ({
            let nb = width * height * spec_block_size_in_bytes(format);
            spec_mipmap_range(len, (width, height, 1), 1, format, layer, 0, 0, 1) == Some(
                (layer * nb, (layer + 1) * nb),
            )
        }),
{
    let bs = spec_block_size_in_bytes(format);
    let nb = width * height * bs;
    let dims = (width, height, 1u32);
    let bd = spec_block_dimensions(format);
    assert(bd == (1u32, 1u32, 1u32));
    vstd::arithmetic::power2::lemma2_to64();
    assert(spec_mip_dimension(width, 0) == width);
    assert(spec_mip_dimension(height, 0) == height);
    assert(spec_mip_dimension(1, 0) == 1);
    assert(div_ceil(width as nat, 1) == width);
    assert(div_ceil(height as nat, 1) == height);
    assert(div_ceil(1, 1) == 1);
    assert(width * height * 1 * bs == nb) by (nonlinear_arith)
        requires
            nb == width * height * bs,
    ;
    assert(nb <= len) by (nonlinear_arith)
        requires
            (layer + 1) * nb <= len,
            nb >= 0,
    ;
    assert(width * height <= nb) by (nonlinear_arith)
        requires
            nb == width * height * bs,
            bs >= 1,
    ;
    assert(spec_mip_size(width as usize, height as usize, 1, 1, 1, 1, bs) == Some(nb as usize));
    assert(level_size(dims, bd, bs, 0) == Some(nb as usize));
    assert(levels_fit(dims, bd, bs, 1));
    assert(levels_size(dims, bd, bs, 0) == 0);
    assert(levels_size(dims, bd, bs, 1) == nb);
    assert(layer * nb + nb == (layer + 1) * nb) by (nonlinear_arith);
    assert(layer * nb <= len) by (nonlinear_arith)
        requires
            (layer + 1) * nb <= len,
            nb >= 0,
    ;
}

/// Whether `format` is one whose pixels keep every RGBA8 color: `Rgba8Unorm`, `Bgra8Unorm`,
/// their sRGB variants, `Rgba16Unorm`, `Rgba16Snorm` or `Rgba32Float`.
pub open spec fn keeps_rgba8(format: ImageFormat) -> bool {
    format is Rgba8Unorm || format is Rgba8UnormSrgb || format is Bgra8Unorm || format is Bgra8UnormSrgb
        || format is Rgba16Unorm || format is Rgba16Snorm || format is Rgba32Float
}

/// Encoding the first `n` layers of a `width` x `height` RGBA8 surface with one depth slice
/// and one mipmap, without mipmaps, encodes the RGBA8 bytes of each layer on its own.
proof fn lemma_encoded_layers(
    data: Seq<u8>,
    width: u32,
    height: u32,
    layers: u32,
    format: ImageFormat,
    quality: Quality,
    n: nat,
)
    requires
        !is_block_compressed(format),
        width >= 1,
        height >= 1,
        n <= layers,
        data.len() == layers * (width * height * 4),
        data.len() <= usize::MAX,
    ensures
        spec_encode_layers(data, (width, height, 1), 1, format, quality, false, 1, n) matches Ok(v) ==> {
            &&& v.len() == n
            &&& forall|l: int|
                0 <= l < n ==> spec_encode_rgba8_data(
                    width,
                    height,
                    data.subrange(l * (width * height * 4), (l + 1) * (width * height * 4)),
                    format,
                    quality,
                ) == Ok::<PartView, crate::error::SurfaceError>(#[trigger] v[l])
        },
    decreases n,
{
    if n > 0 {
        lemma_encoded_layers(data, width, height, layers, format, quality, (n - 1) as nat);
        let dims = (width, height, 1u32);
        if let Ok(v) = spec_encode_layers(data, dims, 1, format, quality, false, 1, n) {
            let acc = spec_encode_layers(data, dims, 1, format, quality, false, 1, (n - 1) as nat)->Ok_0;
            let l = (n - 1) as u32;
            let n4 = width * height * 4;
            assert(levels_encoded(1) == 1);
            let layer_parts = spec_encode_mips(data, dims, 1, l, format, quality, false, 1, 1)->Ok_0;
            assert(v == acc + layer_parts);
            let bd = spec_block_dimensions(format);
            let mip = spec_mip_chain(data, dims, 1, l, bd, false, 0)->Ok_0;
            assert(spec_encode_mips(data, dims, 1, l, format, quality, false, 1, 0)
                == Ok::<Seq<PartView>, crate::error::SurfaceError>(Seq::empty()));
            let part = spec_encode_mip(mip, format, quality)->Ok_0;
            assert(layer_parts == Seq::<PartView>::empty().push(part));
            // The mipmap read for layer `l` is its bytes.
            assert((l + 1) * n4 <= data.len()) by (nonlinear_arith)
                requires
                    l < layers,
                    data.len() == layers * n4,
                    n4 >= 0,
            ;
            assert(width * height * spec_block_size_in_bytes(ImageFormat::Rgba8Unorm) == n4);
            lemma_single_level_range(data.len(), width, height, ImageFormat::Rgba8Unorm, l);
            assert(0 <= l * n4 && (l + 1) * n4 == l * n4 + n4) by (nonlinear_arith)
                requires
                    n4 >= 0,
            ;
            let slices = data.subrange(l * n4, (l + 1) * n4);
            assert(layer_slices(data, dims, 1, ImageFormat::Rgba8Unorm, l, 0, 1, 0) == Some(Seq::<u8>::empty()));
            assert(mip_slices(data, dims, 1, l, 0, 1) == Some(Seq::<u8>::empty() + slices));
            assert(Seq::<u8>::empty() + slices =~= slices);
            assert(bd == (1u32, 1u32, 1u32));
            assert(round_up(width as nat, 1) == width && round_up(height as nat, 1) == height && round_up(1, 1) == 1);
            assert(slices.len() == width * height * 1 * 4) by (nonlinear_arith)
                requires
                    slices.len() == n4,
                    n4 == width * height * 4,
            ;
            vstd::arithmetic::power2::lemma2_to64();
            assert(spec_mip_dimension(width, 0) == width);
            assert(spec_mip_dimension(height, 0) == height);
            assert(spec_mip_dimension(1, 0) == 1);
            reveal(spec_get_mipmap_data);
            assert(mip == (width as usize, height as usize, 1usize, slices));
            reveal(spec_encode_mip);
            assert(height * 1 == height);
            assert(spec_encode_rgba8_data(width, height, slices, format, quality) == Ok::<PartView, crate::error::SurfaceError>(part));
            assert forall|k: int| 0 <= k < n implies spec_encode_rgba8_data(
                width,
                height,
                data.subrange(k * n4, (k + 1) * n4),
                format,
                quality,
            ) == Ok::<PartView, crate::error::SurfaceError>(#[trigger] v[k]) by {
                if k < n - 1 {
                    assert(v[k] == acc[k]);
                } else {
                    assert(v[k] == part);
                }
            }
        }
    }
}

/// Bytes laid end to end from parts that need no compressor and hold `nb` bytes each are
/// those parts, one after another.
proof fn lemma_assembled_uniform(d: Seq<u8>, v: Seq<PartView>, nb: nat)
    requires
        assembled(d, v),
        forall|k: int| 0 <= k < v.len() ==> (#[trigger] v[k]).0 is None && v[k].3.len() == nb,
    ensures
        d.len() == v.len() * nb,
        forall|k: int| 0 <= k < v.len() ==> d.subrange(k * nb, (k + 1) * nb) == (#[trigger] v[k]).3,
    decreases v.len(),
{
    if v.len() > 0 {
        let last = v.last();
        assert(last == v[v.len() - 1]);
        assert(part_len(last) == nb);
        let prefix = d.subrange(0, d.len() - nb);
        let rest = v.drop_last();
        assert forall|k: int| 0 <= k < rest.len() implies (#[trigger] rest[k]).0 is None && rest[k].3.len() == nb by {
            assert(rest[k] == v[k]);
        }
        lemma_assembled_uniform(prefix, rest, nb);
        assert((v.len() - 1) * nb + nb == v.len() * nb) by (nonlinear_arith);
        assert forall|k: int| 0 <= k < v.len() implies d.subrange(k * nb, (k + 1) * nb) == (#[trigger] v[k]).3 by {
            assert(0 <= k * nb && (k + 1) * nb == k * nb + nb) by (nonlinear_arith)
                requires
                    0 <= k,
            ;
            if k < v.len() - 1 {
                assert(rest[k] == v[k]);
                assert((k + 1) * nb <= (v.len() - 1) * nb) by (nonlinear_arith)
                    requires
                        k + 1 <= v.len() - 1,
                ;
                assert(d.subrange(k * nb, (k + 1) * nb) =~= prefix.subrange(k * nb, (k + 1) * nb));
            } else {
                assert(k * nb == d.len() - nb);
            }
        }
    }
}

/// Decoding layer `layer` of a surface with one depth slice and one mipmap in an
/// uncompressed format reads the bytes of that layer.
proof fn lemma_decode_part_single(d: Seq<u8>, width: u32, height: u32, layers: u32, format: ImageFormat, layer: u32)
    requires
        !is_block_compressed(format),
        width >= 1,
        height >= 1,
        layer < layers,
        d.len() == layers * (width * height * spec_block_size_in_bytes(format)),
        d.len() <= usize::MAX,
    ensures
        ({
            let nb = width * height * spec_block_size_in_bytes(format);
            decode_part(d, (width, height, 1), 1, format, layer, 0, 0) == spec_decode_rgba8_data(
                width,
                height,
                format,
                d.subrange(layer * nb, (layer + 1) * nb),
            )
        }),
{
    let nb = width * height * spec_block_size_in_bytes(format);
    assert((layer + 1) * nb <= d.len()) by (nonlinear_arith)
        requires
            layer < layers,
            d.len() == layers * nb,
            nb >= 0,
    ;
    lemma_single_level_range(d.len(), width, height, format, layer);
    vstd::arithmetic::power2::lemma2_to64();
    assert(spec_mip_dimension(width, 0) == width);
    assert(spec_mip_dimension(height, 0) == height);
    reveal(decode_part);
}

/// Decoding the first `n` layers of a surface with one depth slice and one mipmap, whose
/// layer `l` takes bytes `l * nb .. (l + 1) * nb` and decodes to bytes `l * n4 .. (l + 1) * n4`
/// of `data`, gives the first `n * n4` bytes of `data`.
proof fn lemma_decoded_layers(
    d: Seq<u8>,
    data: Seq<u8>,
    width: u32,
    height: u32,
    layers: u32,
    format: ImageFormat,
    n: nat,
)
    requires
        !is_block_compressed(format),
        width >= 1,
        height >= 1,
        n <= layers,
        d.len() == layers * (width * height * spec_block_size_in_bytes(format)),
        d.len() <= usize::MAX,
        data.len() == layers * (width * height * 4),
        forall|l: int|
            0 <= l < layers ==> #[trigger] spec_decode_rgba8_data(
                width,
                height,
                format,
                d.subrange(
                    l * (width * height * spec_block_size_in_bytes(format)),
                    (l + 1) * (width * height * spec_block_size_in_bytes(format)),
                ),
            ) == Ok::<Seq<u8>, crate::error::SurfaceError>(
                data.subrange(l * (width * height * 4), (l + 1) * (width * height * 4)),
            ),
    ensures
        decode_layers(d, (width, height, 1), 1, format, 0..layers, 0..1, n) == Ok::<
            Seq<u8>,
            crate::error::SurfaceError,
        >(data.subrange(0, n * (width * height * 4))),
    decreases n,
{
    let n4 = width * height * 4;
    if n == 0 {
        assert(data.subrange(0, 0) =~= Seq::<u8>::empty());
    } else {
        let l = (n - 1) as u32;
        lemma_decoded_layers(d, data, width, height, layers, format, (n - 1) as nat);
        let nb = width * height * spec_block_size_in_bytes(format);
        let dims = (width, height, 1u32);
        lemma_decode_part_single(d, width, height, layers, format, l);
        vstd::arithmetic::power2::lemma2_to64();
        assert(spec_mip_dimension(1, 0) == 1);
        let part = data.subrange(l * n4, (l + 1) * n4);
        assert(spec_decode_rgba8_data(width, height, format, d.subrange(l * nb, (l + 1) * nb))
            == Ok::<Seq<u8>, crate::error::SurfaceError>(part));
        assert(decode_part(d, dims, 1, format, l, 0, 0) == Ok::<Seq<u8>, crate::error::SurfaceError>(part));
        assert(decode_levels(d, dims, 1, format, l, 0, 0) == Ok::<Seq<u8>, crate::error::SurfaceError>(Seq::empty()));
        assert(decode_levels(d, dims, 1, format, l, 0, 1) == Ok::<Seq<u8>, crate::error::SurfaceError>(Seq::<u8>::empty() + part));
        assert(decode_mips(d, dims, 1, format, l, 0..1, 0) == Ok::<Seq<u8>, crate::error::SurfaceError>(Seq::empty()));
        assert(decode_mips(d, dims, 1, format, l, 0..1, 1) == Ok::<Seq<u8>, crate::error::SurfaceError>(
            Seq::<u8>::empty() + (Seq::<u8>::empty() + part),
        ));
        assert(0 <= l * n4 && (l + 1) * n4 == l * n4 + n4 && n * n4 == (l + 1) * n4) by (nonlinear_arith)
            requires
                n4 >= 0,
                n == l + 1,
        ;
        assert((l + 1) * n4 <= data.len()) by (nonlinear_arith)
            requires
                l < layers,
                data.len() == layers * n4,
                n4 >= 0,
        ;
        assert(data.subrange(0, n * n4) =~= data.subrange(0, l * n4) + (Seq::<u8>::empty() + (Seq::<u8>::empty() + part)));
    }
}

/// The encoded part of an image in a format that keeps every RGBA8 color needs no
/// compressor, holds `size` bytes per pixel, and decodes to the image.
proof fn lemma_lossless_part(width: u32, height: u32, slices: Seq<u8>, format: ImageFormat, quality: Quality, p: PartView)
    requires
        keeps_rgba8(format),
        slices.len() == width * height * 4,
        spec_encode_rgba8_data(width, height, slices, format, quality) == Ok::<PartView, crate::error::SurfaceError>(p),
    ensures
        p.0 is None,
        p.3.len() == width * height * spec_block_size_in_bytes(format),
        p.3.len() <= usize::MAX ==> spec_decode_rgba8_data(width, height, format, p.3) == Ok::<
            Seq<u8>,
            crate::error::SurfaceError,
        >(slices),
{
    crate::encoded_size::lemma_encoded_part_len(width, height, slices, format, quality);
    crate::laws::lemma_encode_decode_lossless(width, height, slices, format, quality);
    assert(slices.subrange(0, width * height * 4) =~= slices);
}

/// A surface of `layers` layers of `width` x `height` pixels with one depth slice and one
/// mipmap in `format`, whose data holds exactly its layers, is valid.
proof fn lemma_single_level_valid(width: u32, height: u32, layers: u32, format: ImageFormat, len: nat)
    requires
        !is_block_compressed(format),
        width >= 1,
        height >= 1,
        layers >= 1,
        len == layers * (width * height * spec_block_size_in_bytes(format)),
        len <= usize::MAX,
    ensures
        spec_validate(width, height, 1, 1, format, len) == Ok::<(), crate::error::SurfaceError>(()),
{
    let bs = spec_block_size_in_bytes(format);
    let nb = width * height * bs;
    assert(nb <= len) by (nonlinear_arith)
        requires
            len == layers * nb,
            layers >= 1,
            nb >= 0,
    ;
    assert(width * height <= nb) by (nonlinear_arith)
        requires
            nb == width * height * bs,
            bs >= 1,
    ;
    assert(width * height * 1 * bs == nb);
    assert(spec_block_dimensions(format) == (1u32, 1u32, 1u32));
    assert(div_ceil(width as nat, 1) == width && div_ceil(height as nat, 1) == height && div_ceil(1, 1) == 1);
    assert(spec_mip_size(width as usize, height as usize, 1, 1, 1, 1, bs) == Some(nb as usize));
    let m = crate::surface::max3(width, height, 1);
    assert(m >= 1);
    assert(crate::layout::bit_length(m as nat) >= 1);
    vstd::arithmetic::power2::lemma2_to64();
    crate::layout::lemma_bit_length_bound(m as nat, 32);
    assert(crate::layout::bit_length(m as nat) as u32 >= 1);
}

/// Encoding a `width` x `height` RGBA8 surface of `layers` layers with one depth slice and
/// one mipmap, without mipmaps, to a format whose pixels keep every RGBA8 color, and
/// decoding the surface of encoded bytes `d` again, gives back the RGBA8 data of every layer
/// in order. The data and the encoded bytes are held in memory, so their numbers fit in
/// `usize`.
pub proof fn lemma_surface_encode_decode(
    data: Seq<u8>,
    width: u32,
    height: u32,
    layers: u32,
    format: ImageFormat,
    quality: Quality,
    d: Seq<u8>,
)
    requires
        keeps_rgba8(format),
        data.len() == layers * width * height * 4,
        data.len() <= usize::MAX,
        d.len() <= usize::MAX,
    ensures
        spec_encode_surface(data, (width, height, 1), layers, 1, format, quality, Mipmaps::Disabled) matches Ok(
            (num_mipmaps, v),
        ) ==> (assembled(d, v) ==> {
            &&& num_mipmaps == 1
            &&& spec_validate(width, height, 1, 1, format, d.len()) == Ok::<(), crate::error::SurfaceError>(())
            &&& spec_decode_surface(d, (width, height, 1), 1, format, 0..layers, 0..1) == Ok::<
                Seq<u8>,
                crate::error::SurfaceError,
            >(data)
        }),
{
    if let Ok((num_mipmaps, v)) = spec_encode_surface(data, (width, height, 1), layers, 1, format, quality, Mipmaps::Disabled) {
        if assembled(d, v) {
            let n4 = width * height * 4;
            let nb = width * height * spec_block_size_in_bytes(format);
            assert(spec_validate(width, height, 1, 1, ImageFormat::Rgba8Unorm, data.len()) is Ok);
            assert(v == spec_encode_layers(data, (width, height, 1), 1, format, quality, false, 1, layers as nat)->Ok_0);
            assert(data.len() == layers * n4) by (nonlinear_arith)
                requires
                    data.len() == layers * width * height * 4,
                    n4 == width * height * 4,
            ;
            assert(width >= 1 && height >= 1);
            assert(width * height * 1 * 4 == n4);
            assert(layers >= 1) by (nonlinear_arith)
                requires
                    n4 <= data.len(),
                    data.len() == layers * n4,
                    n4 == width * height * 4,
                    width >= 1,
                    height >= 1,
            ;
            lemma_encoded_layers(data, width, height, layers, format, quality, layers as nat);
            assert forall|k: int| 0 <= k < v.len() implies (#[trigger] v[k]).0 is None && v[k].3.len() == nb by {
                assert(0 <= k * n4 && (k + 1) * n4 == k * n4 + n4 && (k + 1) * n4 <= data.len())
                    by (nonlinear_arith)
                    requires
                        n4 >= 0,
                        0 <= k < layers,
                        data.len() == layers * n4,
                ;
                lemma_lossless_part(width, height, data.subrange(k * n4, (k + 1) * n4), format, quality, v[k]);
            }
            lemma_assembled_uniform(d, v, nb as nat);
            assert forall|l: int| 0 <= l < layers implies #[trigger] spec_decode_rgba8_data(
                width,
                height,
                format,
                d.subrange(l * nb, (l + 1) * nb),
            ) == Ok::<Seq<u8>, crate::error::SurfaceError>(data.subrange(l * n4, (l + 1) * n4)) by {
                assert(0 <= l * n4 && (l + 1) * n4 == l * n4 + n4 && (l + 1) * n4 <= data.len())
                    by (nonlinear_arith)
                    requires
                        n4 >= 0,
                        0 <= l < layers,
                        data.len() == layers * n4,
                ;
                lemma_lossless_part(width, height, data.subrange(l * n4, (l + 1) * n4), format, quality, v[l]);
            }
            lemma_decoded_layers(d, data, width, height, layers, format, layers as nat);
            assert(data.subrange(0, layers * n4) =~= data);
            lemma_single_level_valid(width, height, layers, format, d.len());
        }
    }
}

} // verus!
