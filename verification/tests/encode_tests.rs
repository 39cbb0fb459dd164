use image_dds::error::SurfaceError;
use image_dds::mipgen::{pad_mipmap_rgba, physical_dimensions};
use image_dds::surface::SurfaceRgba8;
use image_dds::{ImageFormat, Mipmaps, Quality};

const ALL_FORMATS: [ImageFormat; 39] = [
    ImageFormat::BC1RgbaUnorm,
    ImageFormat::BC1RgbaUnormSrgb,
    ImageFormat::BC2RgbaUnorm,
    ImageFormat::BC2RgbaUnormSrgb,
    ImageFormat::BC3RgbaUnorm,
    ImageFormat::BC3RgbaUnormSrgb,
    ImageFormat::BC4RUnorm,
    ImageFormat::BC4RSnorm,
    ImageFormat::BC5RgUnorm,
    ImageFormat::BC5RgSnorm,
    ImageFormat::BC6hRgbUfloat,
    ImageFormat::BC6hRgbSfloat,
    ImageFormat::BC7RgbaUnorm,
    ImageFormat::BC7RgbaUnormSrgb,
    ImageFormat::R8Unorm,
    ImageFormat::R8Snorm,
    ImageFormat::Rg8Unorm,
    ImageFormat::Rg8Snorm,
    ImageFormat::Rgba8Unorm,
    ImageFormat::Rgba8UnormSrgb,
    ImageFormat::Rgba16Float,
    ImageFormat::Rgba32Float,
    ImageFormat::Bgra8Unorm,
    ImageFormat::Bgra8UnormSrgb,
    ImageFormat::Bgra4Unorm,
    ImageFormat::Bgr8Unorm,
    ImageFormat::R16Unorm,
    ImageFormat::R16Snorm,
    ImageFormat::Rg16Unorm,
    ImageFormat::Rg16Snorm,
    ImageFormat::Rgba16Unorm,
    ImageFormat::Rgba16Snorm,
    ImageFormat::Rg16Float,
    ImageFormat::Rg32Float,
    ImageFormat::R16Float,
    ImageFormat::R32Float,
    ImageFormat::Rgba8Snorm,
    ImageFormat::Rgb32Float,
    ImageFormat::Bgr5A1Unorm,
];

#[test]
fn encode_surface_integral_dimensions() {
    // It's ok for mipmaps to not be divisible by the block width.
    let surface = SurfaceRgba8 {
        width: 12,
        height: 12,
        depth: 1,
        layers: 1,
        mipmaps: 1,
        data: &[0u8; 12 * 12 * 4],
    }
    .encode(
        ImageFormat::BC7RgbaUnormSrgb,
        Quality::Fast,
        Mipmaps::GeneratedAutomatic,
    )
    .unwrap();

    assert_eq!(12, surface.width);
    assert_eq!(12, surface.height);
    assert_eq!(1, surface.depth);
    assert_eq!(1, surface.layers);
    assert_eq!(4, surface.mipmaps);
    assert_eq!(ImageFormat::BC7RgbaUnormSrgb, surface.image_format);
    // Each mipmap must be at least 1 block in size.
    assert_eq!((9 + 4 + 1 + 1) * 16, surface.data.len());
}

#[test]
fn encode_surface_cube_mipmaps() {
    // It's ok for mipmaps to not be divisible by the block width.
    let surface = SurfaceRgba8 {
        width: 4,
        height: 4,
        depth: 1,
        layers: 6,
        mipmaps: 3,
        data: &[0u8; (4 * 4 + 2 * 2 + 1 * 1) * 6 * 4],
    }
    .encode(
        ImageFormat::BC7RgbaUnormSrgb,
        Quality::Fast,
        Mipmaps::GeneratedAutomatic,
    )
    .unwrap();

    assert_eq!(4, surface.width);
    assert_eq!(4, surface.height);
    assert_eq!(1, surface.depth);
    assert_eq!(6, surface.layers);
    assert_eq!(3, surface.mipmaps);
    assert_eq!(ImageFormat::BC7RgbaUnormSrgb, surface.image_format);
    // Each mipmap must be at least 1 block in size.
    assert_eq!(3 * 16 * 6, surface.data.len());
}

#[test]
fn encode_surface_disabled_mipmaps() {
    let surface = SurfaceRgba8 {
        width: 4,
        height: 4,
        depth: 1,
        layers: 1,
        mipmaps: 3,
        data: &[0u8; 64 + 16 + 4],
    }
    .encode(
        ImageFormat::BC7RgbaUnormSrgb,
        Quality::Fast,
        Mipmaps::Disabled,
    )
    .unwrap();

    assert_eq!(4, surface.width);
    assert_eq!(4, surface.height);
    assert_eq!(1, surface.depth);
    assert_eq!(1, surface.layers);
    assert_eq!(1, surface.mipmaps);
    assert_eq!(ImageFormat::BC7RgbaUnormSrgb, surface.image_format);
    assert_eq!(16, surface.data.len());
}

#[test]
fn encode_surface_mipmaps_from_surface() {
    let surface = SurfaceRgba8 {
        width: 4,
        height: 4,
        depth: 1,
        layers: 1,
        mipmaps: 2,
        data: &[0u8; 64 + 16],
    }
    .encode(
        ImageFormat::BC7RgbaUnormSrgb,
        Quality::Fast,
        Mipmaps::FromSurface,
    )
    .unwrap();

    assert_eq!(4, surface.width);
    assert_eq!(4, surface.height);
    assert_eq!(1, surface.depth);
    assert_eq!(1, surface.layers);
    assert_eq!(2, surface.mipmaps);
    assert_eq!(ImageFormat::BC7RgbaUnormSrgb, surface.image_format);
    assert_eq!(16 * 2, surface.data.len());
}

#[test]
fn encode_surface_non_integral_dimensions() {
    // This should succeed with appropriate padding.
    let surface = SurfaceRgba8 {
        width: 3,
        height: 5,
        depth: 1,
        layers: 1,
        mipmaps: 1,
        data: &[0u8; 256],
    }
    .encode(
        ImageFormat::BC7RgbaUnormSrgb,
        Quality::Fast,
        Mipmaps::GeneratedAutomatic,
    )
    .unwrap();

    assert_eq!(3, surface.width);
    assert_eq!(5, surface.height);
    assert_eq!(1, surface.depth);
    assert_eq!(1, surface.layers);
    assert_eq!(3, surface.mipmaps);
    assert_eq!(ImageFormat::BC7RgbaUnormSrgb, surface.image_format);
    // Each mipmap must have an integral size in blocks.
    assert_eq!((2 + 2) * 16, surface.data.len());
}

#[test]
fn encode_surface_zero_size() {
    let result = SurfaceRgba8 {
        width: 0,
        height: 0,
        depth: 0,
        layers: 1,
        mipmaps: 1,
        data: &[0u8; 0],
    }
    .encode(
        ImageFormat::BC7RgbaUnormSrgb,
        Quality::Fast,
        Mipmaps::GeneratedAutomatic,
    );
    assert!(matches!(
        result,
        Err(SurfaceError::ZeroSizedSurface {
            width: 0,
            height: 0,
            depth: 0,
        })
    ));
}

#[test]
fn pad_1x1_to_1x1() {
    assert_eq!(
        vec![1, 2, 3, 4],
        pad_mipmap_rgba(1, 1, 1, 1, 1, 1, &[1, 2, 3, 4])
    );
}

#[test]
fn pad_1x1_to_2x2() {
    assert_eq!(
        vec![1, 2, 3, 4, 0, 0, 0, 0, 0, 0, 0, 0, 0, 0, 0, 0 ],
        pad_mipmap_rgba(1, 1, 1, 2, 2, 1, &[1, 2, 3, 4])
    );
}

#[test]
fn pad_2x2_to_3x3() {
    assert_eq!(
        vec![
            1, 2, 3, 4, 5, 6, 7, 8, 0, 0, 0, 0, 9, 10, 11, 12, 13, 14, 15, 16, 0, 0, 0, 0, 0,
            0, 0, 0, 0, 0, 0, 0, 0, 0, 0, 0,
        ],
        pad_mipmap_rgba(
            2,
            2,
            1,
            3,
            3,
            1,
            &[1, 2, 3, 4, 5, 6, 7, 8, 9, 10, 11, 12, 13, 14, 15, 16]
        )
    );
}

#[test]
fn physical_dimensions_padding() {
    assert_eq!((4, 5, 6), physical_dimensions(2, 3, 1, (4, 5, 6)));
}

#[test]
fn physical_dimensions_mipmaps() {
    assert_eq!((8, 8, 1), physical_dimensions(8, 8, 1, (4, 4, 1)));
    assert_eq!((4, 4, 1), physical_dimensions(4, 4, 1, (4, 4, 1)));
    assert_eq!((4, 4, 1), physical_dimensions(2, 2, 1, (4, 4, 1)));
    assert_eq!((4, 4, 1), physical_dimensions(1, 1, 1, (4, 4, 1)));
}

#[test]
fn encode_all_u8() {
    for image_format in ALL_FORMATS {
        let surface = SurfaceRgba8 {
            width: 4,
            height: 4,
            depth: 1,
            layers: 1,
            mipmaps: 1,
            data: vec![0u8; 4 * 4 * 4],
        };
        let result = surface.encode(image_format, Quality::Normal, Mipmaps::GeneratedAutomatic);
        if matches!(
            image_format,
            ImageFormat::BC2RgbaUnorm | ImageFormat::BC2RgbaUnormSrgb
        ) {
            // The block compressor has no BC2 encoder, so BC2 is refused.
            assert_eq!(
                Err(SurfaceError::UnsupportedEncodeFormat {
                    format: ImageFormat::BC2RgbaUnorm
                }),
                result
            );
        } else {
            let encoded = result.unwrap();
            assert_eq!(image_format, encoded.image_format);
            // Mip levels of 4x4, 2x2 and 1x1 pixels, each padded to whole blocks.
            assert_eq!(3, encoded.mipmaps);
            let (block_width, block_height, _) = image_format.block_dimensions();
            let blocks: u32 = [4u32, 2, 1]
                .iter()
                .map(|d| d.div_ceil(block_width) * d.div_ceil(block_height))
                .sum();
            assert_eq!(blocks as usize * image_format.block_size_in_bytes(), encoded.data.len());
        }
    }
}
