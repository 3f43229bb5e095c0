//! Integer kernels of the vignetting pass.
//!
//! The per-pixel gain of the `pa` vignetting model is a float; the `u8` and
//! `u16` pixel formats multiply by it in fixed point (20.12 for `u8`, 22.10 for
//! `u16`) and saturate the product back into the pixel's range. The gain's
//! conversion to fixed point is done by the caller; everything after it lives
//! here.

use vstd::prelude::*;

verus! {

/// `x` saturated into `0..=max`: negative values become `0`, values above
/// `max` become `max`.
pub open spec fn saturate(x: int, max: int) -> int {
    if x < 0 {
        0
    } else if x > max {
        max
    } else {
        x
    }
}

/// Saturates `x` to 8 bits: negative values become `0`, values above `255`
/// become `255`, the rest are kept.
///
/// Computed in bit form: when `x >> 8` is not zero, `!(x >> 8) >> 24`
/// (arithmetic shifts) is `0` for a negative `x` and all ones for an overflow.
pub fn clamp_bits_8(x: i32) -> (r: u8)
    ensures
        r == saturate(x as int, 255),
{
    let shifted: i32 = x >> 8u32;
    if shifted != 0 {
        let r: u8 = ((!shifted) >> 24u32) as u8;
        assert(r == saturate(x as int, 255)) by (bit_vector)
            requires
                shifted == x >> 8u32,
                shifted != 0,
                r == ((!shifted) >> 24u32) as u8,
        ;
        r
    } else {
        assert(0 <= x <= 255) by (bit_vector)
            requires
                shifted == x >> 8u32,
                shifted == 0,
        ;
        x as u8
    }
}

/// Saturates `x` to 16 bits: negative values become `0`, values above
/// `65535` become `65535`, the rest are kept.
pub fn clamp_bits_16(x: i32) -> (r: u16)
    ensures
        r == saturate(x as int, 65535),
{
    let shifted: i32 = x >> 16u32;
    if shifted != 0 {
        let r: u16 = ((!shifted) >> 16u32) as u16;
        assert(r == saturate(x as int, 65535)) by (bit_vector)
            requires
                shifted == x >> 16u32,
                shifted != 0,
                r == ((!shifted) >> 16u32) as u16,
        ;
        r
    } else {
        assert(0 <= x <= 65535) by (bit_vector)
            requires
                shifted == x >> 16u32,
                shifted == 0,
        ;
        x as u16
    }
}

/// The 22.10 fixed-point gain, clipped at its upper bound: values above
/// `31 << 10` (a gain of 31) are cut down to it.
pub open spec fn clipped_gain_u16(c10: int) -> int {
    if c10 > 31 * 1024 {
        31744int
    } else {
        c10
    }
}

/// The 20.12 fixed-point gain, clipped at its upper bound: values above
/// `2047 << 12` (a gain of 2047) are cut down to it.
pub open spec fn clipped_gain_u8(c12: int) -> int {
    if c12 > 2047 * 4096 {
        8384512int
    } else {
        c12
    }
}

/// A `u16` pixel value `p` multiplied by the 22.10 fixed-point gain `c10`:
/// the product is rounded to the nearest integer (halves upward) and
/// saturated into `0..=65535`.
pub open spec fn scaled_pixel_u16(p: int, c10: int) -> int {
    saturate((p * clipped_gain_u16(c10) + 512) / 1024, 65535)
}

/// A `u8` pixel value `p` multiplied by the 20.12 fixed-point gain `c12`:
/// the product is rounded to the nearest integer (halves upward) and
/// saturated into `0..=255`.
pub open spec fn scaled_pixel_u8(p: int, c12: int) -> int {
    saturate((p * clipped_gain_u8(c12) + 2048) / 4096, 255)
}

/// `v >> n` on an `i32`, saturated, agrees with the floor quotient `v / 2^n`,
/// saturated, whatever the sign of `v`.
proof fn lemma_shift_saturates_as_quotient_10(v: i32)
    ensures
        saturate((v >> 10u32) as int, 65535) == saturate(v as int / 1024, 65535),
{
    if v >= 0 {
        assert((v >> 10u32) as int == v as int / 1024) by (bit_vector)
            requires
                v >= 0,
        ;
    } else {
        assert((v >> 10u32) < 0) by (bit_vector)
            requires
                v < 0,
        ;
    }
}

proof fn lemma_shift_saturates_as_quotient_12(v: i32)
    ensures
        saturate((v >> 12u32) as int, 255) == saturate(v as int / 4096, 255),
{
    if v >= 0 {
        assert((v >> 12u32) as int == v as int / 4096) by (bit_vector)
            requires
                v >= 0,
        ;
    } else {
        assert((v >> 12u32) < 0) by (bit_vector)
            requires
                v < 0,
        ;
    }
}

/// Multiplies every `u16` sample of `pixels` by the 22.10 fixed-point gain
/// `c10` (clipped at `31 << 10`), rounding to nearest and saturating into
/// the `u16` range.
///
/// The products are computed in `i32`; a negative gain large enough to take
/// one of them below `i32::MIN` is outside what this accepts.
pub fn scale_pixels_u16(pixels: &mut [u16], c10: i32)
    requires
        forall|i: int|
            0 <= i < old(pixels)@.len() ==> old(pixels)@[i] as int * clipped_gain_u16(c10 as int)
                >= i32::MIN,
    ensures
        final(pixels)@.len() == old(pixels)@.len(),
        forall|i: int|
            0 <= i < old(pixels)@.len() ==> final(pixels)@[i] as int == scaled_pixel_u16(
                old(pixels)@[i] as int,
                c10 as int,
            ),
        forall|i: int|
            #![trigger final(pixels)@[i]]
            0 <= i < old(pixels)@.len() ==> {
                let p = old(pixels)@[i] as int;
                &&& (0 <= c10 <= 31744 ==> final(pixels)@[i] as int == (if (p * c10 + 512) / 1024
                    > 65535 {
                    65535
                } else {
                    (p * c10 + 512) / 1024
                }))
                &&& (c10 > 31744 ==> final(pixels)@[i] as int == (if (p * 31744 + 512) / 1024 > 65535 {
                    65535
                } else {
                    (p * 31744 + 512) / 1024
                }))
                &&& (c10 <= 0 ==> final(pixels)@[i] == 0)
            },
{
    let mut c: i32 = c10;
    if c > (31i32 << 10u32) {
        c = 31i32 << 10u32;
    }
    assert(c as int == clipped_gain_u16(c10 as int)) by (bit_vector)
        requires
            c == (if c10 > (31i32 << 10u32) { 31i32 << 10u32 } else { c10 }),
    ;
    let n: usize = pixels.len();
    let ghost orig = pixels@;
    let mut i: usize = 0;
    while i < n
        invariant
            n == pixels@.len(),
            n == orig.len(),
            i <= n,
            c as int == clipped_gain_u16(c10 as int),
            forall|j: int| 0 <= j < n ==> orig[j] as int * c >= i32::MIN,
            forall|j: int| i <= j < n ==> pixels@[j] == orig[j],
            forall|j: int|
                0 <= j < i ==> pixels@[j] as int == scaled_pixel_u16(orig[j] as int, c10 as int),
        decreases n - i,
    {
        let p: i32 = pixels[i] as i32;
        assert(p * c <= 65535 * (31 * 1024)) by (nonlinear_arith)
            requires
                0 <= p <= 65535,
                c <= 31 * 1024,
        ;
        assert(orig[i as int] as int * c >= i32::MIN);
        assert(p * c >= i32::MIN);
        let v: i32 = p * c + 512;
        let r: u16 = clamp_bits_16(v >> 10u32);
        proof {
            lemma_shift_saturates_as_quotient_10(v);
        }
        pixels[i] = r;
        i = i + 1;
    }
    proof {
        assert forall|j: int| #![trigger pixels@[j]] 0 <= j < n implies {
            let p = orig[j] as int;
            &&& (0 <= c10 <= 31744 ==> pixels@[j] as int == (if (p * c10 + 512) / 1024 > 65535 {
                65535
            } else {
                (p * c10 + 512) / 1024
            }))
            &&& (c10 > 31744 ==> pixels@[j] as int == (if (p * 31744 + 512) / 1024 > 65535 {
                65535
            } else {
                (p * 31744 + 512) / 1024
            }))
            &&& (c10 <= 0 ==> pixels@[j] == 0)
        } by {
            let p = orig[j];
            if 0 <= c10 <= 31744 {
                lemma_u16_gain_up_to_cap_is_used_as_given(p, c10 as int);
            }
            if c10 > 31744 {
                lemma_u16_gain_above_cap_acts_as_cap(p, c10 as int);
                lemma_u16_gain_up_to_cap_is_used_as_given(p, 31744);
            }
            if c10 <= 0 {
                lemma_u16_non_positive_gain_gives_black(p, c10 as int);
            }
        }
    }
}

/// Multiplies every `u8` sample of `pixels` by the 20.12 fixed-point gain
/// `c12` (clipped at `2047 << 12`), rounding to nearest and saturating into
/// the `u8` range.
///
/// The products are computed in `i32`; a negative gain large enough to take
/// one of them below `i32::MIN` is outside what this accepts.
pub fn scale_pixels_u8(pixels: &mut [u8], c12: i32)
    requires
        forall|i: int|
            0 <= i < old(pixels)@.len() ==> old(pixels)@[i] as int * clipped_gain_u8(c12 as int)
                >= i32::MIN,
    ensures
        final(pixels)@.len() == old(pixels)@.len(),
        forall|i: int|
            0 <= i < old(pixels)@.len() ==> final(pixels)@[i] as int == scaled_pixel_u8(
                old(pixels)@[i] as int,
                c12 as int,
            ),
        forall|i: int|
            #![trigger final(pixels)@[i]]
            0 <= i < old(pixels)@.len() ==> {
                let p = old(pixels)@[i] as int;
                &&& (0 <= c12 <= 8384512 ==> final(pixels)@[i] as int == (if (p * c12 + 2048) / 4096
                    > 255 {
                    255
                } else {
                    (p * c12 + 2048) / 4096
                }))
                &&& (c12 > 8384512 ==> final(pixels)@[i] as int == (if (p * 8384512 + 2048) / 4096 > 255 {
                    255
                } else {
                    (p * 8384512 + 2048) / 4096
                }))
                &&& (c12 <= 0 ==> final(pixels)@[i] == 0)
            },
{
    let mut c: i32 = c12;
    if c > (2047i32 << 12u32) {
        c = 2047i32 << 12u32;
    }
    assert(c as int == clipped_gain_u8(c12 as int)) by (bit_vector)
        requires
            c == (if c12 > (2047i32 << 12u32) { 2047i32 << 12u32 } else { c12 }),
    ;
    let n: usize = pixels.len();
    let ghost orig = pixels@;
    let mut i: usize = 0;
    while i < n
        invariant
            n == pixels@.len(),
            n == orig.len(),
            i <= n,
            c as int == clipped_gain_u8(c12 as int),
            forall|j: int| 0 <= j < n ==> orig[j] as int * c >= i32::MIN,
            forall|j: int| i <= j < n ==> pixels@[j] == orig[j],
            forall|j: int|
                0 <= j < i ==> pixels@[j] as int == scaled_pixel_u8(orig[j] as int, c12 as int),
        decreases n - i,
    {
        let p: i32 = pixels[i] as i32;
        assert(p * c <= 255 * (2047 * 4096)) by (nonlinear_arith)
            requires
                0 <= p <= 255,
                c <= 2047 * 4096,
        ;
        assert(orig[i as int] as int * c >= i32::MIN);
        assert(p * c >= i32::MIN);
        let v: i32 = p * c + 2048;
        let r: u8 = clamp_bits_8(v >> 12u32);
        proof {
            lemma_shift_saturates_as_quotient_12(v);
        }
        pixels[i] = r;
        i = i + 1;
    }
    proof {
        assert forall|j: int| #![trigger pixels@[j]] 0 <= j < n implies {
            let p = orig[j] as int;
            &&& (0 <= c12 <= 8384512 ==> pixels@[j] as int == (if (p * c12 + 2048) / 4096 > 255 {
                255
            } else {
                (p * c12 + 2048) / 4096
            }))
            &&& (c12 > 8384512 ==> pixels@[j] as int == (if (p * 8384512 + 2048) / 4096 > 255 {
                255
            } else {
                (p * 8384512 + 2048) / 4096
            }))
            &&& (c12 <= 0 ==> pixels@[j] == 0)
        } by {
            let p = orig[j];
            if 0 <= c12 <= 8384512 {
                lemma_u8_gain_up_to_cap_is_used_as_given(p, c12 as int);
            }
            if c12 > 8384512 {
                lemma_u8_gain_above_cap_acts_as_cap(p, c12 as int);
                lemma_u8_gain_up_to_cap_is_used_as_given(p, 8384512);
            }
            if c12 <= 0 {
                lemma_u8_non_positive_gain_gives_black(p, c12 as int);
            }
        }
    }
}

/// Saturation is monotone: a larger input never saturates to a smaller
/// output.
pub proof fn lemma_saturate_monotone(x: int, y: int, max: int)
    requires
        x <= y,
        0 <= max,
    ensures
        saturate(x, max) <= saturate(y, max),
{
}

/// Saturating twice is saturating once: a saturated value lies in range and
/// is kept as it is.
pub proof fn lemma_saturate_idempotent(x: int, max: int)
    requires
        0 <= max,
    ensures
        0 <= saturate(x, max) <= max,
        saturate(saturate(x, max), max) == saturate(x, max),
{
}

/// A gain of exactly one (`1 << 10` in 22.10, `1 << 12` in 20.12) leaves
/// every pixel value unchanged, the saturated top value included.
pub proof fn lemma_unit_gain_is_identity(p16: u16, p8: u8)
    ensures
        scaled_pixel_u16(p16 as int, 1024) == p16 as int,
        scaled_pixel_u8(p8 as int, 4096) == p8 as int,
{
    assert((p16 as int * 1024 + 512) / 1024 == p16 as int) by (nonlinear_arith);
    assert((p8 as int * 4096 + 2048) / 4096 == p8 as int) by (nonlinear_arith);
}

/// A black pixel stays black whatever the gain.
pub proof fn lemma_zero_pixel_stays_zero(c: int)
    ensures
        scaled_pixel_u16(0, c) == 0,
        scaled_pixel_u8(0, c) == 0,
{
}

/// For a non-negative gain, scaling preserves the order of pixel values.
pub proof fn lemma_scaling_monotone_in_pixel(p: int, q: int, c: int)
    requires
        0 <= p <= q,
        0 <= c,
    ensures
        scaled_pixel_u16(p, c) <= scaled_pixel_u16(q, c),
        scaled_pixel_u8(p, c) <= scaled_pixel_u8(q, c),
{
    let c16 = clipped_gain_u16(c);
    let c8 = clipped_gain_u8(c);
    assert(p * c16 <= q * c16) by (nonlinear_arith)
        requires
            p <= q,
            0 <= c16,
    ;
    assert(p * c8 <= q * c8) by (nonlinear_arith)
        requires
            p <= q,
            0 <= c8,
    ;
    assert((p * c16 + 512) / 1024 <= (q * c16 + 512) / 1024) by (nonlinear_arith)
        requires
            p * c16 <= q * c16,
    ;
    assert((p * c8 + 2048) / 4096 <= (q * c8 + 2048) / 4096) by (nonlinear_arith)
        requires
            p * c8 <= q * c8,
    ;
}

/// A 22.10 gain from `0` up to the cap `31 << 10` is used as given: the
/// result is the pixel times the gain, rounded to nearest (halves upward),
/// capped at `65535`. When the cap is not reached, the result is the unique
/// integer within half a unit of the exact product `p * c10 / 1024`.
pub proof fn lemma_u16_gain_up_to_cap_is_used_as_given(p: u16, c10: int)
    requires
        0 <= c10 <= 31744,
    ensures
        scaled_pixel_u16(p as int, c10) == (if (p * c10 + 512) / 1024 > 65535 {
            65535
        } else {
            (p * c10 + 512) / 1024
        }),
        0 <= scaled_pixel_u16(p as int, c10) <= 65535,
        scaled_pixel_u16(p as int, c10) < 65535 ==> 1024 * scaled_pixel_u16(p as int, c10) <= p
            * c10 + 512 < 1024 * scaled_pixel_u16(p as int, c10) + 1024,
{
    assert(p as int * c10 >= 0) by (nonlinear_arith)
        requires
            p >= 0,
            c10 >= 0,
    ;
}

/// A 22.10 gain above the cap `31 << 10` acts exactly as the cap.
pub proof fn lemma_u16_gain_above_cap_acts_as_cap(p: u16, c10: int)
    requires
        c10 > 31744,
    ensures
        scaled_pixel_u16(p as int, c10) == scaled_pixel_u16(p as int, 31744),
{
}

/// A gain of zero or below turns every `u16` pixel black.
pub proof fn lemma_u16_non_positive_gain_gives_black(p: u16, c10: int)
    requires
        c10 <= 0,
    ensures
        scaled_pixel_u16(p as int, c10) == 0,
{
    assert(p as int * c10 <= 0) by (nonlinear_arith)
        requires
            p >= 0,
            c10 <= 0,
    ;
}

/// A larger 22.10 gain never gives a darker `u16` pixel.
pub proof fn lemma_u16_monotone_in_gain(p: u16, c1: int, c2: int)
    requires
        c1 <= c2,
    ensures
        scaled_pixel_u16(p as int, c1) <= scaled_pixel_u16(p as int, c2),
{
    let g1 = clipped_gain_u16(c1);
    let g2 = clipped_gain_u16(c2);
    assert(p as int * g1 <= p as int * g2) by (nonlinear_arith)
        requires
            p >= 0,
            g1 <= g2,
    ;
    assert((p as int * g1 + 512) / 1024 <= (p as int * g2 + 512) / 1024) by (nonlinear_arith)
        requires
            p as int * g1 <= p as int * g2,
    ;
}

/// A 20.12 gain from `0` up to the cap `2047 << 12` is used as given: the
/// result is the pixel times the gain, rounded to nearest (halves upward),
/// capped at `255`. When the cap is not reached, the result is the unique
/// integer within half a unit of the exact product `p * c12 / 4096`.
pub proof fn lemma_u8_gain_up_to_cap_is_used_as_given(p: u8, c12: int)
    requires
        0 <= c12 <= 8384512,
    ensures
        scaled_pixel_u8(p as int, c12) == (if (p * c12 + 2048) / 4096 > 255 {
            255
        } else {
            (p * c12 + 2048) / 4096
        }),
        0 <= scaled_pixel_u8(p as int, c12) <= 255,
        scaled_pixel_u8(p as int, c12) < 255 ==> 4096 * scaled_pixel_u8(p as int, c12) <= p * c12
            + 2048 < 4096 * scaled_pixel_u8(p as int, c12) + 4096,
{
    assert(p as int * c12 >= 0) by (nonlinear_arith)
        requires
            p >= 0,
            c12 >= 0,
    ;
}

/// A 20.12 gain above the cap `2047 << 12` acts exactly as the cap.
pub proof fn lemma_u8_gain_above_cap_acts_as_cap(p: u8, c12: int)
    requires
        c12 > 8384512,
    ensures
        scaled_pixel_u8(p as int, c12) == scaled_pixel_u8(p as int, 8384512),
{
}

/// A gain of zero or below turns every `u8` pixel black.
pub proof fn lemma_u8_non_positive_gain_gives_black(p: u8, c12: int)
    requires
        c12 <= 0,
    ensures
        scaled_pixel_u8(p as int, c12) == 0,
{
    assert(p as int * c12 <= 0) by (nonlinear_arith)
        requires
            p >= 0,
            c12 <= 0,
    ;
}

/// A larger 20.12 gain never gives a darker `u8` pixel.
pub proof fn lemma_u8_monotone_in_gain(p: u8, c1: int, c2: int)
    requires
        c1 <= c2,
    ensures
        scaled_pixel_u8(p as int, c1) <= scaled_pixel_u8(p as int, c2),
{
    let g1 = clipped_gain_u8(c1);
    let g2 = clipped_gain_u8(c2);
    assert(p as int * g1 <= p as int * g2) by (nonlinear_arith)
        requires
            p >= 0,
            g1 <= g2,
    ;
    assert((p as int * g1 + 2048) / 4096 <= (p as int * g2 + 2048) / 4096) by (nonlinear_arith)
        requires
            p as int * g1 <= p as int * g2,
    ;
}

} // verus!
