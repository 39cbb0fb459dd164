use image_dds::error::SurfaceError;
use image_dds::surface::{Surface, SurfaceRgba8};
use image_dds::ImageFormat;

const ALL_FORMATS: [ImageFormat; 39] = [
    ImageFormat::BC1RgbaUnorm,
    ImageFormat::BC1RgbaUnormSrgb,
    ImageFormat::BC2RgbaUnorm,
    ImageFormat::BC2RgbaUnormSrgb,
    ImageFormat::BC3RgbaUnorm,
    ImageFormat::BC3RgbaUnormSrgb,
    ImageFormat::BC4RUnorm,
    ImageFormat::BC4RSnorm,
    ImageFormat::BC5RgUnorm,
    ImageFormat::BC5RgSnorm,
    ImageFormat::BC6hRgbUfloat,
    ImageFormat::BC6hRgbSfloat,
    ImageFormat::BC7RgbaUnorm,
    ImageFormat::BC7RgbaUnormSrgb,
    ImageFormat::R8Unorm,
    ImageFormat::R8Snorm,
    ImageFormat::Rg8Unorm,
    ImageFormat::Rg8Snorm,
    ImageFormat::Rgba8Unorm,
    ImageFormat::Rgba8UnormSrgb,
    ImageFormat::Rgba16Float,
    ImageFormat::Rgba32Float,
    ImageFormat::Bgra8Unorm,
    ImageFormat::Bgra8UnormSrgb,
    ImageFormat::Bgra4Unorm,
    ImageFormat::Bgr8Unorm,
    ImageFormat::R16Unorm,
    ImageFormat::R16Snorm,
    ImageFormat::Rg16Unorm,
    ImageFormat::Rg16Snorm,
    ImageFormat::Rgba16Unorm,
    ImageFormat::Rgba16Snorm,
    ImageFormat::Rg16Float,
    ImageFormat::Rg32Float,
    ImageFormat::R16Float,
    ImageFormat::R32Float,
    ImageFormat::Rgba8Snorm,
    ImageFormat::Rgb32Float,
    ImageFormat::Bgr5A1Unorm,
];

#[test]
fn decode_surface_zero_size() {
    let result = Surface {
        width: 0,
        height: 0,
        depth: 0,
        layers: 1,
        mipmaps: 1,
        image_format: ImageFormat::Rgba8UnormSrgb,
        data: &[0u8; 0],
    }
    .decode_rgba8();

    assert!(matches!(
        result,
        Err(SurfaceError::ZeroSizedSurface {
            width: 0,
            height: 0,
            depth: 0,
        })
    ));
}

#[test]
fn decode_surface_dimensions_overflow() {
    let result = Surface {
        width: u32::MAX,
        height: u32::MAX,
        depth: u32::MAX,
        layers: 1,
        mipmaps: 1,
        image_format: ImageFormat::Rgba8UnormSrgb,
        data: &[0u8; 0],
    }
    .decode_rgba8();

    assert!(matches!(
        result,
        Err(SurfaceError::PixelCountWouldOverflow {
            width: u32::MAX,
            height: u32::MAX,
            depth: u32::MAX,
        })
    ));
}

#[test]
fn decode_surface_too_many_mipmaps() {
    let result = Surface {
        width: 4,
        height: 4,
        depth: 1,
        layers: 1,
        mipmaps: 10,
        image_format: ImageFormat::Rgba8UnormSrgb,
        data: &[0u8; 4 * 4 * 4],
    }
    .decode_rgba8();

    assert!(matches!(
        result,
        Err(SurfaceError::UnexpectedMipmapCount {
            mipmaps: 10,
            max_mipmaps: 3
        })
    ));
}

#[test]
fn decode_layers_mipmaps_rgba8_single_mipmap() {
    let rgba8 = Surface {
        width: 4,
        height: 4,
        depth: 1,
        layers: 1,
        mipmaps: 3,
        image_format: ImageFormat::Rgba8UnormSrgb,
        data: &[0u8; 512],
    }
    .decode_layers_mipmaps_rgba8(0..1, 1..2)
    .unwrap();

    assert_eq!(
        SurfaceRgba8 {
            width: 2,
            height: 2,
            depth: 1,
            layers: 1,
            mipmaps: 1,
            data: vec![0u8; 2 * 2 * 4]
        },
        rgba8
    );
}

#[test]
fn decode_layers_mipmaps_rgba8_no_mipmaps() {
    // An empty mipmap range decodes no data but still describes one mipmap.
    let rgba8 = Surface {
        width: 4,
        height: 4,
        depth: 1,
        layers: 1,
        mipmaps: 1,
        image_format: ImageFormat::Rgba8UnormSrgb,
        data: &[0u8; 4 * 4 * 4],
    }
    .decode_layers_mipmaps_rgba8(0..1, 0..0)
    .unwrap();

    assert_eq!(
        SurfaceRgba8 {
            width: 4,
            height: 4,
            depth: 1,
            layers: 1,
            mipmaps: 1,
            data: Vec::new()
        },
        rgba8
    );
}

#[test]
fn decode_all_u8() {
    for image_format in ALL_FORMATS {
        let data = vec![0u8; 4 * 4 * image_format.block_size_in_bytes()];
        let surface = Surface {
            width: 4,
            height: 4,
            depth: 1,
            layers: 1,
            mipmaps: 1,
            image_format,
            data: data.as_slice(),
        };
        surface.decode_rgba8().unwrap();
    }
}
