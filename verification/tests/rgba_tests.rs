use half::f16;
use image_dds::error::SurfaceError;
use image_dds::rgba::{
    decode_rgba, encode_rgba, Bgr8, Bgra4, Bgra8, R16, R16Snorm, R8, R8Snorm, Rf16, Rf32, Rg16, Rg16Snorm, Rg8, Rg8Snorm, Rgb8, Rgba16, Rgba16Snorm, Rgba8, Rgbaf16, Rgbaf32, Rgf16, Rgf32,
};

#[test]
fn r8_from_rgba8_valid() {
    assert_eq!(vec![1], encode_rgba::<R8, u8>(1, 1, &[1, 2, 3, 4]).unwrap());
}

#[test]
fn r8_from_rgba8_invalid() {
    let result = encode_rgba::<R8, u8>(1, 1, &[1, 2, 3]);
    assert_eq!(
        result,
        Err(SurfaceError::NotEnoughData {
            expected: 4,
            actual: 3
        })
    );
}

#[test]
fn rgba8_from_r8_valid() {
    assert_eq!(
        vec![64, 64, 64, 255],
        decode_rgba::<R8, u8>(1, 1, &[64]).unwrap()
    );
}

#[test]
fn rgba8_from_r8_invalid() {
    let result = decode_rgba::<R8, u8>(4, 4, &[64]);
    assert_eq!(
        result,
        Err(SurfaceError::NotEnoughData {
            expected: 16,
            actual: 1
        })
    );
}

#[test]
fn r8_snorm_from_rgba8_valid() {
    assert_eq!(
        vec![130],
        encode_rgba::<R8Snorm, u8>(1, 1, &[1, 2, 3, 4]).unwrap()
    );
}

#[test]
fn r8_snorm_from_rgba8_invalid() {
    let result = encode_rgba::<R8Snorm, u8>(1, 1, &[1, 2, 3]);
    assert_eq!(
        result,
        Err(SurfaceError::NotEnoughData {
            expected: 4,
            actual: 3
        })
    );
}

#[test]
fn rgba8_from_r8_snorm_valid() {
    assert_eq!(
        vec![192, 192, 192, 255],
        decode_rgba::<R8Snorm, u8>(1, 1, &[64]).unwrap()
    );
}

#[test]
fn rgba8_from_r8_snorm_invalid() {
    let result = decode_rgba::<R8Snorm, u8>(4, 4, &[64]);
    assert_eq!(
        result,
        Err(SurfaceError::NotEnoughData {
            expected: 16,
            actual: 1
        })
    );
}

#[test]
fn rg8_from_rgba8_valid() {
    assert_eq!(
        vec![1, 2],
        encode_rgba::<Rg8, u8>(1, 1, &[1, 2, 3, 4]).unwrap()
    );
}

#[test]
fn rg8_from_rgba8_invalid() {
    let result = encode_rgba::<Rg8, u8>(1, 1, &[1, 2, 3]);
    assert_eq!(
        result,
        Err(SurfaceError::NotEnoughData {
            expected: 4,
            actual: 3
        })
    );
}

#[test]
fn rg8_snorm_from_rgba8_valid() {
    assert_eq!(
        vec![130, 131],
        encode_rgba::<Rg8Snorm, u8>(1, 1, &[1, 2, 3, 4]).unwrap()
    );
}

#[test]
fn rg8_snorm_from_rgba8_invalid() {
    let result = encode_rgba::<Rg8Snorm, u8>(1, 1, &[1, 2, 3]);
    assert_eq!(
        result,
        Err(SurfaceError::NotEnoughData {
            expected: 4,
            actual: 3
        })
    );
}

#[test]
fn rgba8_from_rg8_snorm_valid() {
    assert_eq!(
        vec![129, 130, 128, 255],
        decode_rgba::<Rg8Snorm, u8>(1, 1, &[1, 2]).unwrap()
    );
}

#[test]
fn rgba8_from_rg8_snorm_invalid() {
    let result = decode_rgba::<Rg8Snorm, u8>(1, 1, &[64]);
    assert_eq!(
        result,
        Err(SurfaceError::NotEnoughData {
            expected: 2,
            actual: 1
        })
    );
}

#[test]
fn bgra8_from_rgba8_valid() {
    assert_eq!(
        vec![3, 2, 1, 4],
        encode_rgba::<Bgra8, u8>(1, 1, &[1, 2, 3, 4]).unwrap()
    );
}

#[test]
fn bgra8_from_rgba8_invalid() {
    let result = encode_rgba::<Bgra8, u8>(1, 1, &[1, 2, 3]);
    assert_eq!(
        result,
        Err(SurfaceError::NotEnoughData {
            expected: 4,
            actual: 3
        })
    );
}

#[test]
fn rgba8_from_bgra8_valid() {
    assert_eq!(
        vec![3, 2, 1, 4],
        decode_rgba::<Bgra8, u8>(1, 1, &[1, 2, 3, 4]).unwrap()
    );
}

#[test]
fn rgba8_from_bgra8_invalid() {
    let result = decode_rgba::<Bgra8, u8>(1, 1, &[1, 2, 3]);
    assert_eq!(
        result,
        Err(SurfaceError::NotEnoughData {
            expected: 4,
            actual: 3
        })
    );
}

#[test]
fn rgb8_from_rgba8_valid() {
    assert_eq!(
        vec![1, 2, 3],
        encode_rgba::<Rgb8, u8>(1, 1, &[1, 2, 3, 4]).unwrap()
    );
}

#[test]
fn rgb8_from_rgba8_invalid() {
    let result = encode_rgba::<Rgb8, u8>(1, 1, &[1, 2]);
    assert_eq!(
        result,
        Err(SurfaceError::NotEnoughData {
            expected: 4,
            actual: 2
        })
    );
}

#[test]
fn rgba8_from_bgr8_valid() {
    assert_eq!(
        vec![3, 2, 1, 255],
        decode_rgba::<Bgr8, u8>(1, 1, &[1, 2, 3]).unwrap()
    );
}

#[test]
fn rgba8_from_bgr8_invalid() {
    let result = decode_rgba::<Bgr8, u8>(1, 1, &[1, 2]);
    assert_eq!(
        result,
        Err(SurfaceError::NotEnoughData {
            expected: 3,
            actual: 2
        })
    );
}

#[test]
fn rgba8_from_rgf32_valid() {
    assert_eq!(
        vec![0, 63, 0, 255],
        decode_rgba::<Rgf32, u8>(1, 1, bytemuck::cast_slice(&[0.0f32, 0.25f32])).unwrap()
    );
}

#[test]
fn rgba8_from_rgf32_invalid() {
    let result = decode_rgba::<Rgf32, u8>(1, 1, &[0; 7]);
    assert_eq!(
        result,
        Err(SurfaceError::NotEnoughData {
            expected: 8,
            actual: 7
        })
    );
}

#[test]
fn rgf32_from_rgba8_valid() {
    assert_eq!(
        bytemuck::cast_slice::<_, u8>(&[0.0f32, 0.2f32]),
        encode_rgba::<Rgf32, u8>(1, 1, &[0, 51, 153, 255])
            .unwrap()
            .as_slice()
    );
}

#[test]
fn rgf32_from_rgba8_invalid() {
    let result = encode_rgba::<Rgf32, u8>(1, 1, &[1, 2, 3]);
    assert_eq!(
        result,
        Err(SurfaceError::NotEnoughData {
            expected: 4,
            actual: 3
        })
    );
}

#[test]
fn rgba8_from_rf16_valid() {
    assert_eq!(
        vec![63, 63, 63, 255],
        decode_rgba::<Rf16, u8>(1, 1, bytemuck::cast_slice(&[f16::from_f32(0.25f32)])).unwrap()
    );
}

#[test]
fn rgba8_from_rf16_invalid() {
    let result = decode_rgba::<Rf16, u8>(1, 1, &[0; 1]);
    assert_eq!(
        result,
        Err(SurfaceError::NotEnoughData {
            expected: 2,
            actual: 1
        })
    );
}

#[test]
fn rf16_from_rgba8_valid() {
    assert_eq!(
        bytemuck::cast_slice::<_, u8>(&[f16::from_f32(0.2f32)]),
        encode_rgba::<Rf16, u8>(1, 1, &[51, 27, 153, 255])
            .unwrap()
            .as_slice()
    );
}

#[test]
fn rf16_from_rgba8_invalid() {
    let result = encode_rgba::<Rf16, u8>(1, 1, &[1, 2, 3]);
    assert_eq!(
        result,
        Err(SurfaceError::NotEnoughData {
            expected: 4,
            actual: 3
        })
    );
}

#[test]
fn rgba8_from_rf32_valid() {
    assert_eq!(
        vec![63, 63, 63, 255],
        decode_rgba::<Rf32, u8>(1, 1, bytemuck::cast_slice(&[0.25f32])).unwrap()
    );
}

#[test]
fn rgba8_from_rf32_invalid() {
    let result = decode_rgba::<Rf32, u8>(1, 1, &[0; 3]);
    assert_eq!(
        result,
        Err(SurfaceError::NotEnoughData {
            expected: 4,
            actual: 3
        })
    );
}

#[test]
fn rf32_from_rgba8_valid() {
    assert_eq!(
        bytemuck::cast_slice::<_, u8>(&[0.2f32]),
        encode_rgba::<Rf32, u8>(1, 1, &[51, 27, 153, 255])
            .unwrap()
            .as_slice()
    );
}

#[test]
fn rf32_from_rgba8_invalid() {
    let result = encode_rgba::<Rf32, u8>(1, 1, &[1, 2, 3]);
    assert_eq!(
        result,
        Err(SurfaceError::NotEnoughData {
            expected: 4,
            actual: 3
        })
    );
}

#[test]
fn rgba8_from_rgbaf32_valid() {
    assert_eq!(
        vec![0, 63, 127, 255],
        decode_rgba::<Rgbaf32, u8>(
            1,
            1,
            bytemuck::cast_slice(&[0.0f32, 0.25f32, 0.5f32, 1.0f32])
        )
        .unwrap()
    );
}

#[test]
fn rgba8_from_rgbaf32_invalid() {
    let result = decode_rgba::<Rgbaf32, u8>(1, 1, &[0; 15]);
    assert_eq!(
        result,
        Err(SurfaceError::NotEnoughData {
            expected: 16,
            actual: 15
        })
    );
}

#[test]
fn rgbaf32_from_rgba8_valid() {
    assert_eq!(
        bytemuck::cast_slice::<_, u8>(&[0.0f32, 0.2f32, 0.6f32, 1.0f32]),
        encode_rgba::<Rgbaf32, u8>(1, 1, &[0, 51, 153, 255])
            .unwrap()
            .as_slice()
    );
}

#[test]
fn rgbaf32_from_rgba8_invalid() {
    let result = encode_rgba::<Rgbaf32, u8>(1, 1, &[1, 2, 3]);
    assert_eq!(
        result,
        Err(SurfaceError::NotEnoughData {
            expected: 4,
            actual: 3
        })
    );
}

#[test]
fn rgba8_from_rgf16_valid() {
    assert_eq!(
        vec![0, 63, 0, 255],
        decode_rgba::<Rgf16, u8>(
            1,
            1,
            bytemuck::cast_slice(&[f16::from_f32(0.0f32), f16::from_f32(0.25f32),])
        )
        .unwrap()
    );
}

#[test]
fn rgba8_from_rgf16_invalid() {
    let result = decode_rgba::<Rgf16, u8>(1, 1, &[0; 3]);
    assert_eq!(
        result,
        Err(SurfaceError::NotEnoughData {
            expected: 4,
            actual: 3
        })
    );
}

#[test]
fn rgf16_from_rgba8_valid() {
    assert_eq!(
        bytemuck::cast_slice::<f16, u8>(&[f16::from_f32(0.0f32), f16::from_f32(0.2f32),]),
        encode_rgba::<Rgf16, u8>(1, 1, &[0, 51, 153, 255])
            .unwrap()
            .as_slice()
    );
}

#[test]
fn rgf16_from_rgba8_invalid() {
    let result = encode_rgba::<Rgf16, u8>(1, 1, &[1, 2, 3]);
    assert_eq!(
        result,
        Err(SurfaceError::NotEnoughData {
            expected: 4,
            actual: 3
        })
    );
}

#[test]
fn rgba8_from_rgbaf16_valid() {
    assert_eq!(
        vec![0, 63, 127, 255],
        decode_rgba::<Rgbaf16, u8>(
            1,
            1,
            bytemuck::cast_slice(&[
                f16::from_f32(0.0f32),
                f16::from_f32(0.25f32),
                f16::from_f32(0.5f32),
                f16::from_f32(1.0f32)
            ])
        )
        .unwrap()
    );
}

#[test]
fn rgba8_from_rgbaf16_invalid() {
    let result = decode_rgba::<Rgbaf16, u8>(1, 1, &[0; 7]);
    assert_eq!(
        result,
        Err(SurfaceError::NotEnoughData {
            expected: 8,
            actual: 7
        })
    );
}

#[test]
fn rgbaf16_from_rgba8_valid() {
    assert_eq!(
        bytemuck::cast_slice::<f16, u8>(&[
            f16::from_f32(0.0f32),
            f16::from_f32(0.2f32),
            f16::from_f32(0.6f32),
            f16::from_f32(1.0f32)
        ]),
        encode_rgba::<Rgbaf16, u8>(1, 1, &[0, 51, 153, 255])
            .unwrap()
            .as_slice()
    );
}

#[test]
fn rgbaf16_from_rgba8_invalid() {
    let result = encode_rgba::<Rgbaf16, u8>(1, 1, &[1, 2, 3]);
    assert_eq!(
        result,
        Err(SurfaceError::NotEnoughData {
            expected: 4,
            actual: 3
        })
    );
}

#[test]
fn rgba8_from_rgba8_valid() {
    assert_eq!(
        vec![1, 2, 3, 4],
        decode_rgba::<Rgba8, u8>(1, 1, &[1, 2, 3, 4]).unwrap()
    );
}

#[test]
fn rgba8_from_rgba8_invalid() {
    let result = decode_rgba::<Rgba8, u8>(1, 1, &[1, 2, 3]);
    assert_eq!(
        result,
        Err(SurfaceError::NotEnoughData {
            expected: 4,
            actual: 3
        })
    );
}

#[test]
fn bgra4_from_rgba8_valid() {
    assert_eq!(
        vec![0x30, 0xCF],
        encode_rgba::<Bgra4, u8>(1, 1, &[255, 51, 0, 204]).unwrap()
    );
}

#[test]
fn bgra4_from_rgba8_invalid() {
    let result = encode_rgba::<Bgra4, u8>(1, 1, &[1, 2, 3]);
    assert_eq!(
        result,
        Err(SurfaceError::NotEnoughData {
            expected: 4,
            actual: 3
        })
    );
}

#[test]
fn rgba8_from_bgra4_valid() {
    assert_eq!(
        vec![255, 51, 0, 204],
        decode_rgba::<Bgra4, u8>(1, 1, &[0x30, 0xCF]).unwrap()
    );
}

#[test]
fn rgba8_from_bgra4_invalid() {
    let result = decode_rgba::<Bgra4, u8>(1, 1, &[1]);
    assert_eq!(
        result,
        Err(SurfaceError::NotEnoughData {
            expected: 2,
            actual: 1
        })
    );
}

#[test]
fn r16_from_rgba8_valid() {
    assert_eq!(
        vec![127, 127],
        encode_rgba::<R16, u8>(1, 1, &[127, 128, 129, 130]).unwrap()
    );
}

#[test]
fn r16_from_rgba8_invalid() {
    let result = encode_rgba::<R16, u8>(1, 1, &[1, 2, 3]);
    assert_eq!(
        result,
        Err(SurfaceError::NotEnoughData {
            expected: 4,
            actual: 3
        })
    );
}

#[test]
fn rgba8_from_r16_valid() {
    assert_eq!(
        vec![127, 127, 127, 255],
        decode_rgba::<R16, u8>(1, 1, &[127, 127]).unwrap()
    );
}

#[test]
fn rgba8_from_r16_invalid() {
    let result = decode_rgba::<R16, u8>(1, 1, &[1]);
    assert_eq!(
        result,
        Err(SurfaceError::NotEnoughData {
            expected: 2,
            actual: 1
        })
    );
}

#[test]
fn r16_snorm_from_rgba8_valid() {
    assert_eq!(
        vec![128, 255],
        encode_rgba::<R16Snorm, u8>(1, 1, &[127, 128, 129, 130]).unwrap()
    );
}

#[test]
fn r16_snorm_from_rgba8_invalid() {
    let result = encode_rgba::<R16Snorm, u8>(1, 1, &[1, 2, 3]);
    assert_eq!(
        result,
        Err(SurfaceError::NotEnoughData {
            expected: 4,
            actual: 3
        })
    );
}

#[test]
fn rgba8_from_r16_snorm_valid() {
    assert_eq!(
        vec![255, 255, 255, 255],
        decode_rgba::<R16Snorm, u8>(1, 1, &[127, 127]).unwrap()
    );
}

#[test]
fn rgba8_from_r16_snorm_invalid() {
    let result = decode_rgba::<R16Snorm, u8>(1, 1, &[1]);
    assert_eq!(
        result,
        Err(SurfaceError::NotEnoughData {
            expected: 2,
            actual: 1
        })
    );
}

#[test]
fn rg16_from_rgba8_valid() {
    assert_eq!(
        vec![127, 127, 128, 128],
        encode_rgba::<Rg16, u8>(1, 1, &[127, 128, 129, 130]).unwrap()
    );
}

#[test]
fn rg16_from_rgba8_invalid() {
    let result = encode_rgba::<Rg16, u8>(1, 1, &[1, 2, 3]);
    assert_eq!(
        result,
        Err(SurfaceError::NotEnoughData {
            expected: 4,
            actual: 3
        })
    );
}

#[test]
fn rgba8_from_rg16_valid() {
    assert_eq!(
        vec![127, 128, 0, 255],
        decode_rgba::<Rg16, u8>(1, 1, &[127, 127, 128, 128]).unwrap()
    );
}

#[test]
fn rgba8_from_rg16_invalid() {
    let result = decode_rgba::<Rg16, u8>(1, 1, &[1, 1, 1]);
    assert_eq!(
        result,
        Err(SurfaceError::NotEnoughData {
            expected: 4,
            actual: 3
        })
    );
}

#[test]
fn rg16_snorm_from_rgba8_valid() {
    assert_eq!(
        vec![128, 255, 128, 0],
        encode_rgba::<Rg16Snorm, u8>(1, 1, &[127, 128, 129, 130]).unwrap()
    );
}

#[test]
fn rg16_snorm_from_rgba8_invalid() {
    let result = encode_rgba::<Rg16Snorm, u8>(1, 1, &[1, 2, 3]);
    assert_eq!(
        result,
        Err(SurfaceError::NotEnoughData {
            expected: 4,
            actual: 3
        })
    );
}

#[test]
fn rgba8_from_rg16_snorm_valid() {
    assert_eq!(
        vec![255, 0, 128, 255],
        decode_rgba::<Rg16Snorm, u8>(1, 1, &[127, 127, 128, 128]).unwrap()
    );
}

#[test]
fn rgba8_from_rg16_snorm_invalid() {
    let result = decode_rgba::<Rg16Snorm, u8>(1, 1, &[1, 1, 1]);
    assert_eq!(
        result,
        Err(SurfaceError::NotEnoughData {
            expected: 4,
            actual: 3
        })
    );
}

#[test]
fn rgba16_from_rgba8_valid() {
    assert_eq!(
        vec![127, 127, 128, 128, 129, 129, 130, 130],
        encode_rgba::<Rgba16, u8>(1, 1, &[127, 128, 129, 130]).unwrap()
    );
}

#[test]
fn rgba16_from_rgba8_invalid() {
    let result = encode_rgba::<Rgba16, u8>(1, 1, &[1, 2, 3]);
    assert_eq!(
        result,
        Err(SurfaceError::NotEnoughData {
            expected: 4,
            actual: 3
        })
    );
}

#[test]
fn rgba8_from_rgba16_valid() {
    assert_eq!(
        vec![127, 128, 129, 130],
        decode_rgba::<Rgba16, u8>(1, 1, &[127, 127, 128, 128, 129, 129, 130, 130]).unwrap()
    );
}

#[test]
fn rgba8_from_rgba16_invalid() {
    let result = decode_rgba::<Rgba16, u8>(1, 1, &[0; 7]);
    assert_eq!(
        result,
        Err(SurfaceError::NotEnoughData {
            expected: 8,
            actual: 7
        })
    );
}

#[test]
fn rgba16_snorm_from_rgba8_valid() {
    assert_eq!(
        vec![128, 255, 128, 0, 129, 1, 130, 2],
        encode_rgba::<Rgba16Snorm, u8>(1, 1, &[127, 128, 129, 130]).unwrap()
    );
}

#[test]
fn rgba16_snorm_from_rgba8_invalid() {
    let result = encode_rgba::<Rgba16Snorm, u8>(1, 1, &[1, 2, 3]);
    assert_eq!(
        result,
        Err(SurfaceError::NotEnoughData {
            expected: 4,
            actual: 3
        })
    );
}

#[test]
fn rgba8_from_rgba16_snorm_valid() {
    assert_eq!(
        vec![255, 0, 1, 2],
        decode_rgba::<Rgba16Snorm, u8>(1, 1, &[127, 127, 128, 128, 129, 129, 130, 130])
            .unwrap()
    );
}

#[test]
fn rgba8_from_rgba16_snorm_invalid() {
    let result = decode_rgba::<Rgba16Snorm, u8>(1, 1, &[0; 7]);
    assert_eq!(
        result,
        Err(SurfaceError::NotEnoughData {
            expected: 8,
            actual: 7
        })
    );
}
