use image_dds::convert::{
    half_to_unorm8, snorm16_to_unorm8, snorm8_to_unorm8, unorm16_to_unorm8, unorm4_to_unorm8,
    unorm8_to_snorm16, unorm8_to_snorm8, unorm8_to_unorm16, unorm8_to_unorm4,
};

fn snorm8_to_float(x: u8) -> f32 {
    ((x as i8) as f32 / 127.0).max(-1.0)
}

fn snorm16_to_float(x: u16) -> f32 {
    ((x as i16) as f32 / 32767.0).max(-1.0)
}

fn snorm8_to_unorm8_reference(x: u8) -> u8 {
    // Remap [-1, 1] to [0, 1] to fit in an unsigned integer.
    ((snorm8_to_float(x) * 0.5 + 0.5) * 255.0).round() as u8
}

fn unorm8_to_snorm8_reference(x: u8) -> i8 {
    // Remap [0, 1] to [-1, 1] to fit in a signed integer.
    (((x as f32 / 255.0) * 2.0 - 1.0) * 127.0).round() as i8
}

fn unorm4_to_unorm8_reference(x: u8) -> u8 {
    (x as f32 / 15.0 * 255.0).round() as u8
}

fn unorm8_to_unorm4_reference(x: u8) -> u8 {
    (x as f32 / 255.0 * 15.0).round() as u8
}

fn unorm16_to_unorm8_reference(x: u16) -> u8 {
    (x as f32 / 65535.0 * 255.0).round() as u8
}

fn unorm8_to_unorm16_reference(x: u8) -> u16 {
    (x as f32 / 255.0 * 65535.0).round() as u16
}

#[test]
fn convert_snorm8_to_unorm8() {
    // 128, ..., 255, 0, ..., 126
    for i in 0..=255 {
        assert_eq!(snorm8_to_unorm8(i), snorm8_to_unorm8_reference(i));
    }
}

#[test]
fn convert_unorm8_to_snorm8() {
    // 129, ..., 255, 0, ..., 127
    for i in 0..=255 {
        assert_eq!(unorm8_to_snorm8(i) as i8, unorm8_to_snorm8_reference(i));
    }
}

#[test]
fn snorm8_unorm8_inverse() {
    for i in 0..=255 {
        if i != 128 {
            assert_eq!(unorm8_to_snorm8(snorm8_to_unorm8(i)), i);
        }
    }
    // Explictly test the value with no true inverse.
    assert_eq!(unorm8_to_snorm8(128), 0);
}

#[test]
fn convert_unorm8_to_unorm4() {
    for i in 0..=255 {
        assert_eq!(unorm8_to_unorm4(i), unorm8_to_unorm4_reference(i));
    }
}

#[test]
fn convert_unorm4_to_unorm8() {
    for i in 0..=15 {
        assert_eq!(unorm4_to_unorm8(i), unorm4_to_unorm8_reference(i));
    }
}

#[test]
fn convert_unorm8_to_unorm16() {
    for i in 0..=255 {
        assert_eq!(unorm8_to_unorm16(i), unorm8_to_unorm16_reference(i));
    }
}

#[test]
fn convert_unorm16_to_unorm8() {
    for i in 0..=65535 {
        assert_eq!(unorm16_to_unorm8(i), unorm16_to_unorm8_reference(i));
    }
}

#[test]
fn snorm16_to_unorm8_matches_single_precision() {
    // The integer conversion gives the single precision result for every input.
    for i in 0..=65535u16 {
        let expected = ((snorm16_to_float(i) * 0.5 + 0.5) * 255.0).round() as u8;
        assert_eq!(expected, snorm16_to_unorm8(i), "input {i}");
    }
}

#[test]
fn unorm8_to_snorm16_matches_single_precision() {
    for i in 0..=255u8 {
        let expected = (((i as f32 / 255.0) * 2.0 - 1.0) * 32767.0).round() as i16;
        assert_eq!(expected, unorm8_to_snorm16(i), "input {i}");
    }
}

#[test]
fn unorm8_snorm16_roundtrip() {
    for i in 0..=255u8 {
        assert_eq!(i, snorm16_to_unorm8(unorm8_to_snorm16(i) as u16));
    }
}

#[test]
fn half_to_unorm8_matches_single_precision() {
    // Every bit pattern, including infinities and NaN, converts as the float product would.
    for bits in 0..=65535u16 {
        let expected = (half::f16::from_bits(bits).to_f32() * 255.0) as u8;
        assert_eq!(expected, half_to_unorm8(bits), "bits {bits:#06x}");
    }
}

#[test]
fn unorm_expand_roundtrip() {
    for i in 0..=15u8 {
        assert_eq!(i, unorm8_to_unorm4(unorm4_to_unorm8(i)));
    }
    for i in 0..=255u8 {
        assert_eq!(i, unorm16_to_unorm8(unorm8_to_unorm16(i)));
    }
}

#[test]
fn unorm8_to_f32_bits_matches_division() {
    for u in 0..=255u8 {
        let expected = (u as f32 / 255.0).to_bits();
        assert_eq!(expected, image_dds::floatbits::unorm8_to_f32_bits(u), "input {u}");
    }
}

#[test]
fn unorm8_to_f16_bits_matches_half_conversion() {
    for u in 0..=255u8 {
        let expected = half::f16::from_f32(u as f32 / 255.0).to_bits();
        assert_eq!(expected, image_dds::floatbits::unorm8_to_f16_bits(u), "input {u}");
    }
}

#[test]
fn f32_to_unorm8_matches_float_product() {
    // Every unorm8 value, a stride over all bit patterns, and the special values.
    let mut inputs: Vec<u32> = (0..=255u8).map(|u| (u as f32 / 255.0).to_bits()).collect();
    inputs.extend((0..=u32::MAX).step_by(4099));
    inputs.extend([
        0,
        0x8000_0000,
        0x7f80_0000,
        0xff80_0000,
        0x7fc0_0000,
        0x0000_0001,
        0x3f80_0000,
        0x3f7f_ffff,
        0x4380_0000,
        0x437f_0000,
    ]);
    for b in inputs {
        let expected = (f32::from_bits(b) * 255.0) as u8;
        assert_eq!(expected, image_dds::floatbits::f32_to_unorm8(b), "bits {b:#010x}");
    }
}
