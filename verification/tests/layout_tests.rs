use image_dds::layout::{calculate_offset, max_mipmap_count};
use image_dds::mip_dimension;
use image_dds::mipgen::downsample_rgba;

#[test]
fn max_mipmap_count_zero() {
    assert_eq!(0, max_mipmap_count(0));
}

#[test]
fn max_mipmap_count_1() {
    assert_eq!(1, max_mipmap_count(1));
}

#[test]
fn max_mipmap_count_4() {
    assert_eq!(4, max_mipmap_count(12));
}

#[test]
fn downsample_rgba8_4x4() {
    // Test that a checkerboard is averaged.
    let original: Vec<_> = std::iter::repeat([0u8, 0u8, 0u8, 0u8, 255u8, 255u8, 255u8, 255u8])
        .take(4 * 4 / 2)
        .flatten()
        .collect();
    assert_eq!(
        vec![127u8; 2 * 2 * 1 * 4],
        downsample_rgba(2, 2, 1, 4, 4, 1, &original)
    );
}

#[test]
fn downsample_rgba8_3x3() {
    // Test that a checkerboard is averaged.
    let original: Vec<_> = std::iter::repeat([
        0u8, 0u8, 0u8, 0u8, 255u8, 255u8, 255u8, 255u8, 0u8, 0u8, 0u8, 0u8,
    ])
    .take(3 * 3 / 3)
    .flatten()
    .collect();
    assert_eq!(
        vec![127u8; 1 * 1 * 4],
        downsample_rgba(1, 1, 1, 3, 3, 1, &original)
    );
}

#[test]
fn downsample_rgba8_2x2x2() {
    // Test that two slices of 2x2 pixels are averaged.
    let original = vec![
        0, 0, 0, 0, 0, 0, 0, 0, 0, 0, 0, 0, 0, 0, 0, 0, 255, 255, 255, 255, 255, 255, 255, 255,
        255, 255, 255, 255, 255, 255, 255, 255,
    ];
    assert_eq!(
        vec![127u8; 1 * 1 * 1 * 4],
        downsample_rgba(1, 1, 1, 2, 2, 2, &original)
    );
}

#[test]
fn downsample_rgba8_0x0() {
    assert_eq!(vec![0u8; 4], downsample_rgba(1, 1, 1, 0, 0, 1, &[]));
}

#[test]
fn calculate_offset_layer0_mip0() {
    assert_eq!(
        0,
        calculate_offset(0, 0, 0, (8, 8, 8), (4, 4, 4), 16, 4).unwrap()
    );
}

#[test]
fn calculate_offset_layer0_mip2() {
    // The sum of the first 2 mipmaps.
    assert_eq!(
        128 + 16,
        calculate_offset(0, 0, 2, (8, 8, 8), (4, 4, 4), 16, 4).unwrap()
    );
}

#[test]
fn calculate_offset_layer2_mip0() {
    // The sum of the first 2 array layers.
    // Each mipmap must have at least a full block of data.
    assert_eq!(
        (128 + 16 + 16 + 16) * 2,
        calculate_offset(2, 0, 0, (8, 8, 8), (4, 4, 4), 16, 4).unwrap()
    );
}

#[test]
fn calculate_offset_layer2_mip2() {
    // The sum of the first two layers and two more mipmaps.
    // Each mipmap must have at least a full block of data.
    assert_eq!(
        (128 + 16 + 16 + 16) * 2 + 128 + 16,
        calculate_offset(2, 0, 2, (8, 8, 8), (4, 4, 4), 16, 4).unwrap()
    );
}

#[test]
fn calculate_offset_level2() {
    // Each 2D level is rounded up to 16x16 pixels.
    assert_eq!(
        16 * 16 * 2,
        calculate_offset(0, 2, 0, (15, 15, 15), (4, 4, 4), 16, 1).unwrap()
    );
}

#[test]
fn calculate_offset_level3() {
    // Each 2D level is 16x16 pixels.
    assert_eq!(
        16 * 16 * 3 * 4,
        calculate_offset(0, 3, 0, (16, 16, 16), (1, 1, 1), 4, 1).unwrap()
    );
}

#[test]
fn mip_dimension_halves_each_level() {
    for base in [0u32, 1, 2, 3, 5, 12, 255, 256, 1000, 4096, u32::MAX] {
        for mipmap in 0..31 {
            let previous = mip_dimension(base, mipmap);
            assert_eq!((previous / 2).max(1), mip_dimension(base, mipmap + 1));
        }
    }
}

#[test]
fn max_mipmap_count_reaches_one_at_last_level() {
    let mut inputs: Vec<u32> = (1..=5000).collect();
    inputs.extend([u32::MAX, u32::MAX / 2, 1 << 31, (1 << 31) - 1, 65535, 65536]);
    for x in inputs {
        let count = max_mipmap_count(x);
        assert_eq!(1, mip_dimension(x, count - 1), "{x}");
        if count >= 2 {
            assert!(mip_dimension(x, count - 2) > 1, "{x}");
        }
    }
}

#[test]
fn calculate_offset_past_last_mipmap() {
    assert_eq!(None, calculate_offset(0, 0, 5, (8, 8, 8), (4, 4, 4), 16, 4));
    assert_eq!(
        Some(128 + 16 + 16 + 16),
        calculate_offset(0, 0, 4, (8, 8, 8), (4, 4, 4), 16, 4)
    );
}
