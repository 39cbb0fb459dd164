use image_dds::surface::{Surface, SurfaceRgba32Float, SurfaceRgba8};
use image_dds::ImageFormat;

#[test]
fn surface_as_ref() {
    assert_eq!(
        Surface {
            width: 4,
            height: 4,
            depth: 1,
            layers: 1,
            mipmaps: 1,
            image_format: ImageFormat::BC7RgbaUnorm,
            data: &[0u8; 4 * 4][..],
        },
        Surface {
            width: 4,
            height: 4,
            depth: 1,
            layers: 1,
            mipmaps: 1,
            image_format: ImageFormat::BC7RgbaUnorm,
            data: vec![0u8; 4 * 4],
        }
        .as_ref()
    );
}

#[test]
fn surface_rgba8_as_ref() {
    assert_eq!(
        SurfaceRgba8 {
            width: 4,
            height: 5,
            depth: 1,
            layers: 1,
            mipmaps: 1,
            data: &[0u8; 4 * 5 * 4][..],
        },
        SurfaceRgba8 {
            width: 4,
            height: 5,
            depth: 1,
            layers: 1,
            mipmaps: 1,
            data: vec![0u8; 4 * 5 * 4],
        }
        .as_ref()
    );
}

#[test]
fn surface_rgbaf32_as_ref() {
    assert_eq!(
        SurfaceRgba32Float {
            width: 4,
            height: 5,
            depth: 1,
            layers: 1,
            mipmaps: 1,
            data: &[0.0; 4 * 5 * 4][..],
        },
        SurfaceRgba32Float {
            width: 4,
            height: 5,
            depth: 1,
            layers: 1,
            mipmaps: 1,
            data: vec![0.0; 4 * 5 * 4],
        }
        .as_ref()
    );
}

#[test]
fn image_data_stacks_layers_and_depth_slices() {
    // Two layers of a 2x2 surface with 2 mipmaps: 16 + 4 bytes per layer.
    let data: Vec<u8> = (0..40).collect();
    let surface = SurfaceRgba8 {
        width: 2,
        height: 2,
        depth: 1,
        layers: 2,
        mipmaps: 2,
        data: data.as_slice(),
    };
    assert_eq!(Some(vec![16, 17, 18, 19, 36, 37, 38, 39]), surface.image_data(1));
    let mut base: Vec<u8> = (0..16).collect();
    base.extend(20..36);
    assert_eq!(Some(base), surface.image_data(0));

    // A 1x1x3 volume: one slice for each depth level.
    let volume = SurfaceRgba8 {
        width: 1,
        height: 1,
        depth: 3,
        layers: 1,
        mipmaps: 1,
        data: vec![1u8, 2, 3, 4, 5, 6, 7, 8, 9, 10, 11, 12],
    };
    assert_eq!(Some(volume.data.clone()), volume.image_data(0));

    // A slice past the end of the data gives nothing.
    let short = SurfaceRgba8 {
        width: 2,
        height: 2,
        depth: 1,
        layers: 2,
        mipmaps: 1,
        data: vec![0u8; 20],
    };
    assert_eq!(None, short.image_data(0));
}

#[test]
fn image_data_of_float_surfaces() {
    let surface = SurfaceRgba32Float {
        width: 1,
        height: 1,
        depth: 1,
        layers: 2,
        mipmaps: 1,
        data: vec![0.5f32, 1.0, 1.5, 2.0, 2.5, 3.0, 3.5, 4.0],
    };
    let data: Vec<f32> = surface.image_data(0).unwrap();
    assert_eq!(surface.data, data);
}

#[test]
fn layer_data_of_a_volume() {
    // Two layers of a 1x1x2 volume: 2 pixels of 4 channels per layer.
    let data: Vec<f32> = (0..16).map(|i| i as f32).collect();
    let surface = SurfaceRgba32Float {
        width: 1,
        height: 1,
        depth: 2,
        layers: 2,
        mipmaps: 1,
        data: data.as_slice(),
    };
    assert_eq!(Some(data[8..16].to_vec()), surface.layer_data::<f32>(1, 0));
    assert_eq!(None, surface.layer_data::<f32>(2, 0));
}
