use ddsfile::{
    AlphaMode, Caps2, D3D10ResourceDimension, D3DFormat, Dds, DxgiFormat, MiscFlag, NewD3dParams,
    NewDxgiParams,
};
use image_dds::dds::{D3dFormat, DdsFormat, DdsFormatInfo, DdsView};
use image_dds::{ImageFormat, Surface};
use num_traits::FromPrimitive;

const ALL_FORMATS: [ImageFormat; 39] = [
    ImageFormat::R8Unorm,
    ImageFormat::R8Snorm,
    ImageFormat::Rg8Unorm,
    ImageFormat::Rg8Snorm,
    ImageFormat::Rgba8Unorm,
    ImageFormat::Rgba8UnormSrgb,
    ImageFormat::Rgba16Float,
    ImageFormat::Rgba32Float,
    ImageFormat::Bgra8Unorm,
    ImageFormat::Bgra8UnormSrgb,
    ImageFormat::Bgra4Unorm,
    ImageFormat::Bgr8Unorm,
    ImageFormat::BC1RgbaUnorm,
    ImageFormat::BC1RgbaUnormSrgb,
    ImageFormat::BC2RgbaUnorm,
    ImageFormat::BC2RgbaUnormSrgb,
    ImageFormat::BC3RgbaUnorm,
    ImageFormat::BC3RgbaUnormSrgb,
    ImageFormat::BC4RUnorm,
    ImageFormat::BC4RSnorm,
    ImageFormat::BC5RgUnorm,
    ImageFormat::BC5RgSnorm,
    ImageFormat::BC6hRgbUfloat,
    ImageFormat::BC6hRgbSfloat,
    ImageFormat::BC7RgbaUnorm,
    ImageFormat::BC7RgbaUnormSrgb,
    ImageFormat::R16Unorm,
    ImageFormat::R16Snorm,
    ImageFormat::Rg16Unorm,
    ImageFormat::Rg16Snorm,
    ImageFormat::Rgba16Unorm,
    ImageFormat::Rgba16Snorm,
    ImageFormat::R16Float,
    ImageFormat::Rg16Float,
    ImageFormat::R32Float,
    ImageFormat::Rg32Float,
    ImageFormat::Rgb32Float,
    ImageFormat::Bgr5A1Unorm,
    ImageFormat::Rgba8Snorm,
];

/// A DDS file written by `ddsfile` with the header values that the library gives for `surface`.
fn write_dds(surface: &Surface<&[u8]>) -> Dds {
    let params = surface.dds_params();
    let caps2 = params.is_cubemap.then_some(Caps2::CUBEMAP | Caps2::CUBEMAP_ALLFACES);
    let mut dds = match params.format {
        DdsFormat::Dxgi(code) => Dds::new_dxgi(NewDxgiParams {
            height: params.height,
            width: params.width,
            depth: params.depth,
            format: DxgiFormat::from_u32(code).unwrap(),
            mipmap_levels: params.mipmap_levels,
            array_layers: params.array_layers,
            caps2,
            is_cubemap: params.is_cubemap,
            resource_dimension: if params.is_3d {
                D3D10ResourceDimension::Texture3D
            } else {
                D3D10ResourceDimension::Texture2D
            },
            alpha_mode: AlphaMode::Straight,
        })
        .unwrap(),
        DdsFormat::D3d(format) => {
            assert_eq!(D3dFormat::R8G8B8, format);
            Dds::new_d3d(NewD3dParams {
                height: params.height,
                width: params.width,
                depth: params.depth,
                format: D3DFormat::R8G8B8,
                mipmap_levels: params.mipmap_levels,
                caps2,
            })
            .unwrap()
        }
    };
    dds.data = surface.data.to_vec();
    dds
}

/// The header values and data that `ddsfile` reads from `dds`.
fn read_dds(dds: &Dds) -> DdsView<'_> {
    DdsView {
        width: dds.get_width(),
        height: dds.get_height(),
        depth: dds.get_depth(),
        array_layers: dds.get_num_array_layers(),
        is_cubemap: matches!(&dds.header10, Some(header10) if header10.misc_flag == MiscFlag::TEXTURECUBE),
        mipmaps: dds.get_num_mipmap_levels(),
        format: DdsFormatInfo {
            dxgi: dds.get_dxgi_format().map(|f| f as u32),
            d3d: dds.get_d3d_format().map(|f| match f {
                D3DFormat::R8G8B8 => D3dFormat::R8G8B8,
                other => panic!("unexpected Direct3D 9 format {other:?}"),
            }),
            fourcc: dds.header.spf.fourcc.as_ref().map(|f| f.0),
        },
        data: &dds.data,
    }
}

#[test]
fn dds_to_from_surface() {
    for image_format in ALL_FORMATS {
        let data = vec![0u8; 4 * 4 * 6 * image_format.block_size_in_bytes()];
        let surface = Surface {
            width: 4,
            height: 4,
            depth: 1,
            layers: 1,
            mipmaps: 1,
            image_format,
            data: data.as_slice(),
        };
        let dds = write_dds(&surface);
        assert_eq!(surface, Surface::from_dds(&read_dds(&dds)).unwrap());
    }
}

#[test]
fn dds_to_from_surface_cube() {
    for image_format in ALL_FORMATS {
        let data = vec![0u8; 4 * 4 * 6 * image_format.block_size_in_bytes()];
        let surface = Surface {
            width: 4,
            height: 4,
            depth: 1,
            layers: 6,
            mipmaps: 1,
            image_format,
            data: data.as_slice(),
        };
        let dds = write_dds(&surface);
        assert_eq!(surface, Surface::from_dds(&read_dds(&dds)).unwrap());
    }
}

#[test]
fn dds_to_from_surface_3d() {
    for image_format in ALL_FORMATS {
        let data = vec![0u8; 4 * 4 * 4 * image_format.block_size_in_bytes()];
        let surface = Surface {
            width: 4,
            height: 4,
            depth: 4,
            layers: 1,
            mipmaps: 1,
            image_format,
            data: data.as_slice(),
        };
        let dds = write_dds(&surface);
        assert_eq!(surface, Surface::from_dds(&read_dds(&dds)).unwrap());
    }
}
