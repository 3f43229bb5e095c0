use lensfun::{clamp_bits_16, clamp_bits_8};

#[test]
fn clamp_bits_8_keeps_in_range_values() {
    assert_eq!(clamp_bits_8(0), 0);
    assert_eq!(clamp_bits_8(1), 1);
    assert_eq!(clamp_bits_8(100), 100);
    assert_eq!(clamp_bits_8(255), 255);
}

#[test]
fn clamp_bits_8_saturates_overflow_to_max() {
    assert_eq!(clamp_bits_8(256), 255);
    assert_eq!(clamp_bits_8(1000), 255);
    assert_eq!(clamp_bits_8(i32::MAX), 255);
}

#[test]
fn clamp_bits_8_sends_negatives_to_zero() {
    assert_eq!(clamp_bits_8(-1), 0);
    assert_eq!(clamp_bits_8(-256), 0);
    assert_eq!(clamp_bits_8(i32::MIN), 0);
}

#[test]
fn clamp_bits_16_keeps_in_range_values() {
    assert_eq!(clamp_bits_16(0), 0);
    assert_eq!(clamp_bits_16(256), 256);
    assert_eq!(clamp_bits_16(40000), 40000);
    assert_eq!(clamp_bits_16(65535), 65535);
}

#[test]
fn clamp_bits_16_saturates_overflow_to_max() {
    assert_eq!(clamp_bits_16(65536), 65535);
    assert_eq!(clamp_bits_16(1 << 20), 65535);
    assert_eq!(clamp_bits_16(i32::MAX), 65535);
}

#[test]
fn clamp_bits_16_sends_negatives_to_zero() {
    assert_eq!(clamp_bits_16(-1), 0);
    assert_eq!(clamp_bits_16(-65536), 0);
    assert_eq!(clamp_bits_16(i32::MIN), 0);
}

#[test]
fn clamp_bits_is_monotone_on_samples() {
    let xs = [i32::MIN, -70000, -1, 0, 1, 200, 255, 256, 65535, 65536, i32::MAX];
    for w in xs.windows(2) {
        assert!(clamp_bits_8(w[0]) <= clamp_bits_8(w[1]));
        assert!(clamp_bits_16(w[0]) <= clamp_bits_16(w[1]));
    }
}
