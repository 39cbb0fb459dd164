use image_dds::bcn::{Bc1, Bc2, Bc3, Bc4, Bc5, Bc6, Bc7};
use image_dds::bcn_encode::{bcn_compression_input, bcn_from_rgba8, BcnEncode, Compressor, EncodedPart};
use image_dds::dds::{
    dds_format, dds_image_format, D3dFormat, DdsFormat, DdsFormatInfo, DdsView,
    DXGI_FORMAT_BC7_UNORM, FOURCC_ATI2, FOURCC_BC5U, FOURCC_DXT1,
};
use image_dds::error::SurfaceError;
use image_dds::surface::{Surface, SurfaceRgba8};
use image_dds::{ImageFormat, Mipmaps, Quality};

const ALL_FORMATS: [ImageFormat; 39] = [
    ImageFormat::BC1RgbaUnorm,
    ImageFormat::BC1RgbaUnormSrgb,
    ImageFormat::BC2RgbaUnorm,
    ImageFormat::BC2RgbaUnormSrgb,
    ImageFormat::BC3RgbaUnorm,
    ImageFormat::BC3RgbaUnormSrgb,
    ImageFormat::BC4RUnorm,
    ImageFormat::BC4RSnorm,
    ImageFormat::BC5RgUnorm,
    ImageFormat::BC5RgSnorm,
    ImageFormat::BC6hRgbUfloat,
    ImageFormat::BC6hRgbSfloat,
    ImageFormat::BC7RgbaUnorm,
    ImageFormat::BC7RgbaUnormSrgb,
    ImageFormat::R8Unorm,
    ImageFormat::R8Snorm,
    ImageFormat::Rg8Unorm,
    ImageFormat::Rg8Snorm,
    ImageFormat::Rgba8Unorm,
    ImageFormat::Rgba8UnormSrgb,
    ImageFormat::Rgba16Float,
    ImageFormat::Rgba32Float,
    ImageFormat::Bgra8Unorm,
    ImageFormat::Bgra8UnormSrgb,
    ImageFormat::Bgra4Unorm,
    ImageFormat::Bgr8Unorm,
    ImageFormat::R16Unorm,
    ImageFormat::R16Snorm,
    ImageFormat::Rg16Unorm,
    ImageFormat::Rg16Snorm,
    ImageFormat::Rgba16Unorm,
    ImageFormat::Rgba16Snorm,
    ImageFormat::Rg16Float,
    ImageFormat::Rg32Float,
    ImageFormat::R16Float,
    ImageFormat::R32Float,
    ImageFormat::Rgba8Snorm,
    ImageFormat::Rgb32Float,
    ImageFormat::Bgr5A1Unorm,
];

fn decode_block(format: ImageFormat, block: &[u8]) -> Vec<u8> {
    Surface {
        width: 4,
        height: 4,
        depth: 1,
        layers: 1,
        mipmaps: 1,
        image_format: format,
        data: block,
    }
    .decode_rgba8()
    .unwrap()
    .data
}

#[test]
fn bc1_block_palette() {
    // White and black endpoints with the indices 0, 1, 2, 3 in every row.
    let block = [0xff, 0xff, 0x00, 0x00, 0xe4, 0xe4, 0xe4, 0xe4];
    let row = [
        255, 255, 255, 255, 0, 0, 0, 255, 170, 170, 170, 255, 85, 85, 85, 255,
    ];
    let expected: Vec<u8> = row.iter().copied().cycle().take(64).collect();
    assert_eq!(expected, decode_block(ImageFormat::BC1RgbaUnorm, &block));
}

#[test]
fn bc1_block_transparent_mode() {
    // With the first endpoint not above the second, index 3 is transparent black.
    let block = [0x00, 0x00, 0xff, 0xff, 0xff, 0xff, 0xff, 0xff];
    assert_eq!(vec![0u8; 64], decode_block(ImageFormat::BC1RgbaUnorm, &block));
}

#[test]
fn bc4_block_endpoints() {
    // Index 0 selects the first endpoint and index 1 the second.
    let mut block = [255u8, 0, 0, 0, 0, 0, 0, 0];
    assert_eq!(vec![255u8; 64], decode_block(ImageFormat::BC4RUnorm, &block));

    let ones: u64 = (0..16).map(|i| 1u64 << (3 * i)).sum();
    block[2..8].copy_from_slice(&ones.to_le_bytes()[..6]);
    let expected: Vec<u8> = [0u8, 0, 0, 255].iter().copied().cycle().take(64).collect();
    assert_eq!(expected, decode_block(ImageFormat::BC4RUnorm, &block));
}

#[test]
fn bc5_block_channels() {
    // Red from the first half of the block and green from the second, blue 0 and alpha 255.
    let block = [200u8, 0, 0, 0, 0, 0, 0, 0, 100, 0, 0, 0, 0, 0, 0, 0];
    let expected: Vec<u8> = [200u8, 100, 0, 255].iter().copied().cycle().take(64).collect();
    assert_eq!(expected, decode_block(ImageFormat::BC5RgUnorm, &block));
}

#[test]
fn bc7_block_without_mode_is_transparent() {
    // A block whose first byte has no set bit has no mode and decodes to transparent black.
    let block = [0u8; 16];
    assert_eq!(vec![0u8; 64], decode_block(ImageFormat::BC7RgbaUnorm, &block));
}

fn distinct_rgba(pixels: usize) -> Vec<u8> {
    (0..pixels * 4).map(|i| (i * 37 % 256) as u8).collect()
}

#[test]
fn uncompressed_encode_decode_roundtrip() {
    let data = distinct_rgba(4 * 3);
    for format in [
        ImageFormat::Rgba8Unorm,
        ImageFormat::Rgba8UnormSrgb,
        ImageFormat::Bgra8Unorm,
        ImageFormat::Bgra8UnormSrgb,
        ImageFormat::Rgba16Unorm,
        ImageFormat::Rgba16Snorm,
        ImageFormat::Rgba32Float,
    ] {
        let surface = SurfaceRgba8 {
            width: 4,
            height: 3,
            depth: 1,
            layers: 1,
            mipmaps: 1,
            data: data.as_slice(),
        };
        let encoded = surface.encode(format, Quality::Fast, Mipmaps::Disabled).unwrap();
        assert_eq!(1, encoded.mipmaps);
        assert_eq!(format, encoded.image_format);
        assert_eq!(4 * 3 * format.block_size_in_bytes(), encoded.data.len(), "{format:?}");
        let decoded = encoded.decode_rgba8().unwrap();
        assert_eq!(data, decoded.data, "{format:?}");
    }
}

#[test]
fn every_channel_value_survives_snorm16_and_float32() {
    // 64 pixels hold every byte value once.
    let data: Vec<u8> = (0..=255u8).collect();
    for format in [ImageFormat::Rgba16Snorm, ImageFormat::Rgba32Float] {
        let encoded = SurfaceRgba8 {
            width: 8,
            height: 8,
            depth: 1,
            layers: 1,
            mipmaps: 1,
            data: data.as_slice(),
        }
        .encode(format, Quality::Normal, Mipmaps::Disabled)
        .unwrap();
        let decoded = encoded.decode_rgba8().unwrap();
        assert_eq!(data, decoded.data, "{format:?}");
    }
}

#[test]
fn bgra8_swaps_red_and_blue() {
    let surface = SurfaceRgba8 {
        width: 1,
        height: 1,
        depth: 1,
        layers: 1,
        mipmaps: 1,
        data: vec![1u8, 2, 3, 4],
    };
    let encoded = surface
        .encode(ImageFormat::Bgra8Unorm, Quality::Fast, Mipmaps::Disabled)
        .unwrap();
    assert_eq!(vec![3, 2, 1, 4], encoded.data);
}

#[test]
fn encoded_mipmaps_follow_surface_layout() {
    // The encoded parts hold every mipmap of every layer, each padded to whole blocks.
    let surface = SurfaceRgba8 {
        width: 8,
        height: 8,
        depth: 1,
        layers: 2,
        mipmaps: 1,
        data: vec![128u8; 8 * 8 * 4 * 2],
    };
    let plan = surface
        .encode_plan(ImageFormat::BC1RgbaUnorm, Quality::Fast, Mipmaps::GeneratedAutomatic)
        .unwrap();
    assert_eq!(4, plan.mipmaps);
    assert_eq!(8, plan.parts.len());
    let dimensions: Vec<(u32, u32)> = plan.parts.iter().map(|p| (p.width, p.height)).collect();
    assert_eq!(
        vec![(8, 8), (4, 4), (4, 4), (4, 4), (8, 8), (4, 4), (4, 4), (4, 4)],
        dimensions
    );
    let lengths: Vec<usize> = plan.parts.iter().map(|p| p.encoded_len().unwrap()).collect();
    assert_eq!(vec![32, 8, 8, 8, 32, 8, 8, 8], lengths);
    // The compressed surface holds the blocks of the parts end to end.
    let encoded = surface
        .encode(ImageFormat::BC1RgbaUnorm, Quality::Fast, Mipmaps::GeneratedAutomatic)
        .unwrap();
    assert_eq!(4, encoded.mipmaps);
    assert_eq!(112, encoded.data.len());
    for layer in 0..2 {
        for mipmap in 0..4 {
            assert_eq!(
                lengths[(layer * 4 + mipmap) as usize],
                encoded.get(layer, 0, mipmap).unwrap().len()
            );
        }
    }
    // The layout that reads the surface back expects the same sizes.
    let layout = Surface {
        width: 8,
        height: 8,
        depth: 1,
        layers: 2,
        mipmaps: 4,
        image_format: ImageFormat::BC1RgbaUnorm,
        data: vec![0u8; lengths.iter().sum()],
    };
    for layer in 0..2 {
        for mipmap in 0..4 {
            assert_eq!(
                lengths[(layer * 4 + mipmap) as usize],
                layout.get(layer, 0, mipmap).unwrap().len()
            );
        }
    }
    // Padding a 2x2 mipmap to a whole block repeats no pixels: the rest is zero.
    let padded = &plan.parts[2].data;
    assert_eq!(vec![128u8; 8], padded[..8].to_vec());
    assert_eq!(vec![0u8; 8], padded[8..16].to_vec());
}

#[test]
fn encoded_volume_parts_have_mip_level_sizes() {
    // A 4x2x2 volume has 3 mip levels: 4x2x2, 2x1x1 and 1x1x1 pixels of 8 bytes.
    let surface = SurfaceRgba8 {
        width: 4,
        height: 2,
        depth: 2,
        layers: 1,
        mipmaps: 1,
        data: distinct_rgba(16),
    };
    let plan = surface
        .encode_plan(ImageFormat::Rgba16Unorm, Quality::Normal, Mipmaps::GeneratedAutomatic)
        .unwrap();
    assert_eq!(3, plan.mipmaps);
    let lengths: Vec<usize> = plan.parts.iter().map(|p| p.encoded_len().unwrap()).collect();
    assert_eq!(vec![128, 16, 8], lengths);
    // R16Float data is written as half-precision floats, 2 bytes per pixel.
    let plan = surface
        .encode_plan(ImageFormat::R16Float, Quality::Normal, Mipmaps::Disabled)
        .unwrap();
    assert_eq!(vec![32], plan.parts.iter().map(|p| p.encoded_len().unwrap()).collect::<Vec<usize>>());
    let encoded = surface
        .encode(ImageFormat::R16Float, Quality::Normal, Mipmaps::Disabled)
        .unwrap();
    assert_eq!(32, encoded.data.len());
    let encoded = surface
        .encode(ImageFormat::Rgba16Unorm, Quality::Normal, Mipmaps::GeneratedAutomatic)
        .unwrap();
    assert_eq!(128 + 16 + 8, encoded.data.len());
}

#[test]
fn generated_mipmaps_average_the_previous_level() {
    let surface = SurfaceRgba8 {
        width: 2,
        height: 2,
        depth: 1,
        layers: 1,
        mipmaps: 1,
        data: vec![0u8, 0, 0, 0, 255, 255, 255, 255, 0, 0, 0, 0, 255, 255, 255, 255],
    };
    let plan = surface
        .encode_plan(ImageFormat::Rgba8Unorm, Quality::Fast, Mipmaps::GeneratedAutomatic)
        .unwrap();
    assert_eq!(2, plan.mipmaps);
    assert_eq!(vec![127u8; 4], plan.parts[1].data);
    let encoded = surface
        .encode(ImageFormat::Rgba8Unorm, Quality::Fast, Mipmaps::GeneratedAutomatic)
        .unwrap();
    assert_eq!(surface.data, encoded.data[..16].to_vec());
    assert_eq!(vec![127u8; 4], encoded.data[16..].to_vec());
}

fn compressor_input<T: BcnEncode<[u8; 4]>>(quality: Quality) -> EncodedPart {
    let rgba: Vec<u8> = [200u8, 100, 50, 255].repeat(16);
    bcn_compression_input::<T>(4, 4, 1, &rgba, quality).unwrap()
}

#[test]
fn compressor_inputs() {
    let rgba: Vec<u8> = [200u8, 100, 50, 255].repeat(16);
    for quality in [Quality::Fast, Quality::Normal, Quality::Slow] {
        let bc1 = compressor_input::<Bc1>(quality);
        assert_eq!((Some(Compressor::Bc1), 4, 4), (bc1.compressor, bc1.width, bc1.height));
        assert_eq!(rgba, bc1.data);
        assert_eq!(Some(8), bc1.encoded_len());

        let bc3 = compressor_input::<Bc3>(quality);
        assert_eq!(Some(Compressor::Bc3), bc3.compressor);
        assert_eq!(rgba, bc3.data);
        assert_eq!(Some(16), bc3.encoded_len());

        // BC4 reads the red channel and BC5 the red and green channels.
        let bc4 = compressor_input::<Bc4>(quality);
        assert_eq!(Some(Compressor::Bc4), bc4.compressor);
        assert_eq!(vec![200u8; 16], bc4.data);
        assert_eq!(Some(8), bc4.encoded_len());

        let bc5 = compressor_input::<Bc5>(quality);
        assert_eq!(Some(Compressor::Bc5), bc5.compressor);
        assert_eq!([200u8, 100].repeat(16), bc5.data);
        assert_eq!(Some(16), bc5.encoded_len());

        // BC6H reads half-precision floats of each unorm8 channel.
        let bc6 = compressor_input::<Bc6>(quality);
        let halfs: Vec<u8> = [200u8, 100, 50, 255]
            .iter()
            .flat_map(|c| half::f16::from_f32(*c as f32 / 255.0).to_le_bytes())
            .collect();
        assert_eq!(halfs.repeat(16), bc6.data);
        assert_eq!(Some(16), bc6.encoded_len());

        let bc7 = compressor_input::<Bc7>(quality);
        assert_eq!(rgba, bc7.data);
        assert_eq!(Some(16), bc7.encoded_len());

        let (bc6_settings, bc7_settings) = match quality {
            Quality::Fast => (Compressor::Bc6hVeryFast, Compressor::Bc7UltraFast),
            Quality::Normal => (Compressor::Bc6hBasic, Compressor::Bc7VeryFast),
            Quality::Slow => (Compressor::Bc6hSlow, Compressor::Bc7Fast),
        };
        assert_eq!(Some(bc6_settings), bc6.compressor);
        assert_eq!(Some(bc7_settings), bc7.compressor);
    }
    assert_eq!(
        Err(SurfaceError::UnsupportedEncodeFormat {
            format: ImageFormat::BC2RgbaUnorm
        }),
        bcn_compression_input::<Bc2>(4, 4, 1, &rgba, Quality::Fast)
    );
}

#[test]
fn bcn_from_rgba8_errors() {
    assert_eq!(
        Err(SurfaceError::NotEnoughData {
            expected: 64,
            actual: 63
        }),
        bcn_from_rgba8::<Bc1>(4, 4, 1, &[0u8; 63], Quality::Fast)
    );
    assert_eq!(
        Err(SurfaceError::PixelCountWouldOverflow {
            width: u32::MAX,
            height: u32::MAX,
            depth: 1
        }),
        bcn_from_rgba8::<Bc7>(u32::MAX, u32::MAX, 1, &[], Quality::Fast)
    );
    assert_eq!(
        Err(SurfaceError::UnsupportedEncodeFormat {
            format: ImageFormat::BC2RgbaUnorm
        }),
        bcn_from_rgba8::<Bc2>(4, 4, 1, &[0u8; 64], Quality::Fast)
    );
    // A surface with no depth slices needs no data beyond its first slice.
    assert_eq!(Ok(8), bcn_from_rgba8::<Bc1>(4, 4, 0, &[0u8; 64], Quality::Fast).map(|b| b.len()));
    assert_eq!(Ok(0), bcn_from_rgba8::<Bc7>(0, 4, 0, &[], Quality::Fast).map(|b| b.len()));
}

#[test]
fn bcn_from_rgba8_block_counts() {
    // One block for each 16 pixels, rounded up, for each compressor.
    let rgba = vec![77u8; 8 * 4 * 4];
    for quality in [Quality::Fast, Quality::Normal, Quality::Slow] {
        assert_eq!(16, bcn_from_rgba8::<Bc1>(8, 4, 1, &rgba, quality).unwrap().len());
        assert_eq!(32, bcn_from_rgba8::<Bc3>(8, 4, 1, &rgba, quality).unwrap().len());
        assert_eq!(16, bcn_from_rgba8::<Bc4>(8, 4, 1, &rgba, quality).unwrap().len());
        assert_eq!(32, bcn_from_rgba8::<Bc5>(8, 4, 1, &rgba, quality).unwrap().len());
        assert_eq!(32, bcn_from_rgba8::<Bc6>(8, 4, 1, &rgba, quality).unwrap().len());
        assert_eq!(32, bcn_from_rgba8::<Bc7>(8, 4, 1, &rgba, quality).unwrap().len());
    }
}

#[test]
fn decode_missing_mipmap_data() {
    // The base level validates but the second mipmap lies past the end of the data.
    let result = Surface {
        width: 4,
        height: 4,
        depth: 1,
        layers: 1,
        mipmaps: 2,
        image_format: ImageFormat::Rgba8Unorm,
        data: &[0u8; 64][..],
    }
    .decode_rgba8();
    assert_eq!(
        Err(SurfaceError::MipmapDataOutOfBounds {
            layer: 0,
            mipmap: 1
        }),
        result
    );
}

#[test]
fn dds_format_roundtrip() {
    for format in ALL_FORMATS {
        let info = match dds_format(format) {
            DdsFormat::Dxgi(code) => DdsFormatInfo {
                dxgi: Some(code),
                d3d: None,
                fourcc: None,
            },
            DdsFormat::D3d(d3d) => DdsFormatInfo {
                dxgi: None,
                d3d: Some(d3d),
                fourcc: None,
            },
        };
        assert_eq!(Ok(format), dds_image_format(info), "{format:?}");
    }
    assert_eq!(
        DdsFormat::D3d(D3dFormat::R8G8B8),
        dds_format(ImageFormat::Bgr8Unorm)
    );
    assert_eq!(
        DdsFormat::Dxgi(DXGI_FORMAT_BC7_UNORM),
        dds_format(ImageFormat::BC7RgbaUnorm)
    );
}

#[test]
fn dds_format_priority() {
    // The Direct3D 9 format is read first, then DXGI, then the FourCC code.
    let info = DdsFormatInfo {
        dxgi: Some(DXGI_FORMAT_BC7_UNORM),
        d3d: Some(D3dFormat::DXT1),
        fourcc: Some(FOURCC_ATI2),
    };
    assert_eq!(Ok(ImageFormat::BC1RgbaUnorm), dds_image_format(info));
    let info = DdsFormatInfo {
        dxgi: Some(0),
        d3d: Some(D3dFormat::L8),
        fourcc: Some(FOURCC_BC5U),
    };
    assert_eq!(Ok(ImageFormat::BC5RgUnorm), dds_image_format(info));
    let info = DdsFormatInfo {
        dxgi: None,
        d3d: None,
        fourcc: Some(FOURCC_DXT1),
    };
    assert_eq!(Ok(ImageFormat::BC1RgbaUnorm), dds_image_format(info));
    let unknown = DdsFormatInfo {
        dxgi: Some(0),
        d3d: None,
        fourcc: None,
    };
    assert_eq!(Err(unknown), dds_image_format(unknown));
}

#[test]
fn surface_from_dds_view() {
    let data = vec![0u8; 4 * 4 * 4 * 6];
    let view = DdsView {
        width: 4,
        height: 4,
        depth: 1,
        array_layers: 1,
        is_cubemap: true,
        mipmaps: 1,
        format: DdsFormatInfo {
            dxgi: None,
            d3d: Some(D3dFormat::A8B8G8R8),
            fourcc: None,
        },
        data: &data,
    };
    let surface = Surface::from_dds(&view).unwrap();
    assert_eq!(6, surface.layers);
    assert_eq!(ImageFormat::Rgba8Unorm, surface.image_format);
    assert_eq!(data.len(), surface.data.len());

    let unsupported = DdsView {
        format: DdsFormatInfo {
            dxgi: None,
            d3d: Some(D3dFormat::L8),
            fourcc: None,
        },
        ..view
    };
    assert_eq!(
        Err(SurfaceError::UnsupportedDdsFormat(unsupported.format)),
        Surface::from_dds(&unsupported)
    );

    let too_many = DdsView {
        array_layers: u32::MAX,
        ..view
    };
    assert_eq!(
        Err(SurfaceError::PixelCountWouldOverflow {
            width: 4,
            height: 4,
            depth: 1
        }),
        Surface::from_dds(&too_many)
    );
}

#[test]
fn dds_params_for_surfaces() {
    let cube = Surface {
        width: 4,
        height: 4,
        depth: 1,
        layers: 6,
        mipmaps: 3,
        image_format: ImageFormat::BC7RgbaUnorm,
        data: Vec::<u8>::new(),
    };
    let params = cube.dds_params();
    assert!(params.is_cubemap);
    assert!(!params.is_3d);
    assert_eq!(None, params.array_layers);
    assert_eq!(Some(3), params.mipmap_levels);
    assert_eq!(None, params.depth);

    let volume = Surface {
        depth: 4,
        layers: 2,
        mipmaps: 1,
        ..cube
    };
    let params = volume.dds_params();
    assert!(!params.is_cubemap);
    assert!(params.is_3d);
    assert_eq!(Some(2), params.array_layers);
    assert_eq!(None, params.mipmap_levels);
    assert_eq!(Some(4), params.depth);
}

#[test]
fn dds_params_read_back_as_the_surface() {
    // A file that stores the header values asked for reads back as the surface.
    for format in ALL_FORMATS {
        for (depth, layers, mipmaps) in [(1, 1, 1), (1, 6, 2), (4, 1, 3), (1, 3, 1)] {
            let data = vec![0u8; 16];
            let surface = Surface {
                width: 4,
                height: 4,
                depth,
                layers,
                mipmaps,
                image_format: format,
                data: data.as_slice(),
            };
            let params = surface.dds_params();
            let view = DdsView {
                width: params.width,
                height: params.height,
                depth: params.depth.unwrap_or(1),
                array_layers: if params.is_cubemap { 1 } else { params.array_layers.unwrap_or(1) },
                is_cubemap: params.is_cubemap,
                mipmaps: params.mipmap_levels.unwrap_or(1),
                format: match params.format {
                    DdsFormat::Dxgi(code) => DdsFormatInfo {
                        dxgi: Some(code),
                        d3d: None,
                        fourcc: None,
                    },
                    DdsFormat::D3d(d3d) => DdsFormatInfo {
                        dxgi: None,
                        d3d: Some(d3d),
                        fourcc: None,
                    },
                },
                data: &data,
            };
            assert_eq!(Ok(surface), Surface::from_dds(&view), "{format:?}");
        }
    }
}

#[test]
fn decode_volume_with_mipmaps() {
    // Mip 0 holds two 2x2 slices (32 bytes), mip 1 one 1x1 slice (4 bytes).
    let data: Vec<u8> = (0..36).collect();
    let decoded = Surface {
        width: 2,
        height: 2,
        depth: 2,
        layers: 1,
        mipmaps: 2,
        image_format: ImageFormat::Rgba8Unorm,
        data: data.as_slice(),
    }
    .decode_rgba8()
    .unwrap();
    assert_eq!(2, decoded.depth);
    assert_eq!(2, decoded.mipmaps);
    assert_eq!(data, decoded.data);
}

#[test]
fn exact_mipmap_count_of_zero_or_one_disables_mipmaps() {
    let data = distinct_rgba(16);
    let surface = SurfaceRgba8 {
        width: 4,
        height: 4,
        depth: 1,
        layers: 1,
        mipmaps: 1,
        data: data.as_slice(),
    };
    let disabled = surface
        .encode(ImageFormat::Rgba8Unorm, Quality::Fast, Mipmaps::Disabled)
        .unwrap();
    assert_eq!(1, disabled.mipmaps);
    assert_eq!(data, disabled.data);
    for count in [0, 1] {
        let exact = surface
            .encode(ImageFormat::Rgba8Unorm, Quality::Fast, Mipmaps::GeneratedExact(count))
            .unwrap();
        assert_eq!(disabled, exact);
        let compressed = surface
            .encode(ImageFormat::BC7RgbaUnorm, Quality::Fast, Mipmaps::GeneratedExact(count))
            .unwrap();
        assert_eq!(1, compressed.mipmaps);
        assert_eq!(16, compressed.data.len());
    }
}

#[test]
fn bc5_is_two_bc4_channels() {
    let block: Vec<u8> = (0..16u32).map(|i| (i * 97 + 13) as u8).collect();
    for is_signed in [false, true] {
        let mut rg = [0u8; 32];
        image_dds::bc45::bc5(&block, &mut rg, 8, is_signed);
        let mut r = [0u8; 16];
        let mut g = [0u8; 16];
        image_dds::bc45::bc4(&block[0..8], &mut r, 4, is_signed);
        image_dds::bc45::bc4(&block[8..16], &mut g, 4, is_signed);
        for k in 0..16 {
            assert_eq!(r[k], rg[2 * k]);
            assert_eq!(g[k], rg[2 * k + 1]);
        }
    }
}

#[test]
fn layered_surface_encode_decode_roundtrip() {
    let data = distinct_rgba(2 * 3 * 2);
    for format in [ImageFormat::Bgra8Unorm, ImageFormat::Rgba16Snorm, ImageFormat::Rgba32Float] {
        let encoded = SurfaceRgba8 {
            width: 2,
            height: 3,
            depth: 1,
            layers: 2,
            mipmaps: 1,
            data: data.as_slice(),
        }
        .encode(format, Quality::Normal, Mipmaps::Disabled)
        .unwrap();
        let decoded = encoded.decode_rgba8().unwrap();
        assert_eq!(data, decoded.data, "{format:?}");
        assert_eq!(2, decoded.layers);
    }
}
