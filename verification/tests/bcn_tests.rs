use image_dds::bcn::put_rgba_block;
use image_dds::bcn::{Bc1, Bc3, Bc4, Bc5, Bc7};
use image_dds::bcn_encode::{bcn_from_rgba8, BcnEncode};
use image_dds::Quality;

fn check_compress_bcn<T: BcnEncode<[u8; 4]>>(rgba: &[u8], quality: Quality) {
    bcn_from_rgba8::<T>(4, 4, 1, &rgba, quality).unwrap();
}

#[test]
fn bc1_compress() {
    let rgba = vec![64u8; 4 * 4 * 4];
    check_compress_bcn::<Bc1>(&rgba, Quality::Fast);
    check_compress_bcn::<Bc1>(&rgba, Quality::Normal);
    check_compress_bcn::<Bc1>(&rgba, Quality::Slow);
}

#[test]
fn bc3_compress() {
    let rgba = vec![64u8; 4 * 4 * 4];
    check_compress_bcn::<Bc3>(&rgba, Quality::Fast);
    check_compress_bcn::<Bc3>(&rgba, Quality::Normal);
    check_compress_bcn::<Bc3>(&rgba, Quality::Slow);
}

#[test]
fn bc4_compress() {
    let rgba = vec![64u8; 4 * 4 * 4];
    check_compress_bcn::<Bc4>(&rgba, Quality::Fast);
    check_compress_bcn::<Bc4>(&rgba, Quality::Normal);
    check_compress_bcn::<Bc4>(&rgba, Quality::Slow);
}

#[test]
fn bc5_compress() {
    let rgba = vec![64u8; 4 * 4 * 4];
    check_compress_bcn::<Bc5>(&rgba, Quality::Fast);
    check_compress_bcn::<Bc5>(&rgba, Quality::Normal);
    check_compress_bcn::<Bc5>(&rgba, Quality::Slow);
}

#[test]
fn bc7_compress() {
    let rgba = vec![64u8; 4 * 4 * 4];
    check_compress_bcn::<Bc7>(&rgba, Quality::Fast);
    check_compress_bcn::<Bc7>(&rgba, Quality::Normal);
    check_compress_bcn::<Bc7>(&rgba, Quality::Slow);
}

#[test]
fn put_rgba_block_4x4() {
    // Write an entire block.
    let mut surface = vec![0u8; 4 * 4 * 4];
    put_rgba_block(
        &mut surface,
        &[1u8; 4 * 4 * 4],
        0,
        0,
        4,
        4,
    );
    assert_eq!(vec![1u8; 4 * 4 * 4], surface);
}

#[test]
fn put_rgba_block_5x5() {
    // Test that block xy offsets work properly.
    let mut surface = vec![0u8; 5 * 5 * 4];

    put_rgba_block(
        &mut surface,
        &[1u8; 4 * 4 * 4],
        0,
        0,
        5,
        5,
    );
    put_rgba_block(
        &mut surface,
        &[2u8; 4 * 4 * 4],
        1,
        1,
        5,
        5,
    );

    assert_eq!(
        [
            [1, 1, 1, 1, 1, 1, 1, 1, 1, 1, 1, 1, 1, 1, 1, 1, 0, 0, 0, 0],
            [1, 1, 1, 1, 2, 2, 2, 2, 2, 2, 2, 2, 2, 2, 2, 2, 2, 2, 2, 2],
            [1, 1, 1, 1, 2, 2, 2, 2, 2, 2, 2, 2, 2, 2, 2, 2, 2, 2, 2, 2],
            [1, 1, 1, 1, 2, 2, 2, 2, 2, 2, 2, 2, 2, 2, 2, 2, 2, 2, 2, 2],
            [0, 0, 0, 0, 2, 2, 2, 2, 2, 2, 2, 2, 2, 2, 2, 2, 2, 2, 2, 2],
        ]
        .into_iter()
        .flatten()
        .collect::<Vec<_>>(),
        surface
    );
}
