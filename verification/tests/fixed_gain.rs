use lensfun::{scale_pixels_u16, scale_pixels_u8};

#[test]
fn u16_unit_gain_is_identity() {
    let mut buf: Vec<u16> = vec![0, 1, 2, 1000, 16000, 65534, 65535];
    let original = buf.clone();
    scale_pixels_u16(&mut buf, 1 << 10);
    assert_eq!(buf, original);
}

#[test]
fn u8_unit_gain_is_identity_at_top() {
    let mut buf = vec![255_u8; 25];
    scale_pixels_u8(&mut buf, 1 << 12);
    assert!(buf.iter().all(|&p| p == 255));
}

#[test]
fn u16_zero_pixels_stay_zero_for_any_gain() {
    for c in [-(1 << 10), 0, 1 << 9, 1 << 10, 3 << 10, i32::MAX] {
        let mut buf = vec![0_u16; 32];
        scale_pixels_u16(&mut buf, c);
        assert!(buf.iter().all(|&p| p == 0));
    }
}

#[test]
fn u8_zero_pixels_stay_zero_for_any_gain() {
    for c in [-(1 << 12), 0, 1 << 11, 1 << 12, i32::MAX] {
        let mut buf = vec![0_u8; 8];
        scale_pixels_u8(&mut buf, c);
        assert!(buf.iter().all(|&p| p == 0));
    }
}

#[test]
fn u16_half_gain_rounds_halves_up() {
    // (p * 512 + 512) >> 10: 1 -> 1, 2 -> 1, 3 -> 2, 16000 -> 8000.
    let mut buf: Vec<u16> = vec![1, 2, 3, 16000];
    scale_pixels_u16(&mut buf, 512);
    assert_eq!(buf, vec![1, 1, 2, 8000]);
}

#[test]
fn u8_half_gain_rounds_halves_up() {
    let mut buf: Vec<u8> = vec![1, 2, 3, 200];
    scale_pixels_u8(&mut buf, 2048);
    assert_eq!(buf, vec![1, 1, 2, 100]);
}

#[test]
fn u16_double_gain_saturates() {
    let mut buf: Vec<u16> = vec![1000, 32767, 32768, 65535];
    scale_pixels_u16(&mut buf, 2 << 10);
    assert_eq!(buf, vec![2000, 65534, 65535, 65535]);
}

#[test]
fn u8_double_gain_saturates() {
    let mut buf: Vec<u8> = vec![100, 127, 128, 255];
    scale_pixels_u8(&mut buf, 2 << 12);
    assert_eq!(buf, vec![200, 254, 255, 255]);
}

#[test]
fn u16_gain_is_clipped_at_thirty_one() {
    // Any gain above 31 << 10 acts as 31: 1 * 31 = 31, 100 * 31 = 3100.
    let mut a: Vec<u16> = vec![1, 100];
    let mut b: Vec<u16> = vec![1, 100];
    scale_pixels_u16(&mut a, 1 << 20);
    scale_pixels_u16(&mut b, i32::MAX);
    assert_eq!(a, vec![31, 3100]);
    assert_eq!(b, vec![31, 3100]);
}

#[test]
fn u8_gain_is_clipped_at_2047() {
    // 1 * 2047 saturates at 255 already; check via a gain just above the clip.
    let mut a: Vec<u8> = vec![0, 1];
    scale_pixels_u8(&mut a, (2047 << 12) + 1);
    assert_eq!(a, vec![0, 255]);
}

#[test]
fn negative_gain_gives_black() {
    let mut a: Vec<u16> = vec![1, 500, 65535];
    scale_pixels_u16(&mut a, -(1 << 10));
    assert_eq!(a, vec![0, 0, 0]);
    let mut b: Vec<u8> = vec![1, 50, 255];
    scale_pixels_u8(&mut b, -(1 << 12));
    assert_eq!(b, vec![0, 0, 0]);
}

#[test]
fn every_channel_of_a_pixel_gets_the_same_gain() {
    let mut px: Vec<u16> = vec![16000, 16000, 16000, 16000];
    scale_pixels_u16(&mut px, 900);
    assert!(px.iter().all(|&p| p == px[0]));
    assert_eq!(px[0], ((16000 * 900 + 512) >> 10) as u16);
}

#[test]
fn empty_buffer_is_untouched() {
    let mut a: Vec<u16> = Vec::new();
    scale_pixels_u16(&mut a, 1 << 10);
    assert!(a.is_empty());
    let mut b: Vec<u8> = Vec::new();
    scale_pixels_u8(&mut b, 1 << 12);
    assert!(b.is_empty());
}
