# lensfun (verified core)

Camera lens correction. This crate holds the parts whose behaviour Verus
proves:

- `src/modifier.rs` — the integer side of the vignetting pass: 8- and 16-bit
  saturation (`clamp_bits_8`, `clamp_bits_16`) and the 20.12 / 22.10
  fixed-point pixel scaling (`scale_pixels_u8`, `scale_pixels_u16`), with the
  laws they obey (monotone saturation, unit gain is the identity, black stays
  black, order of pixel values is kept under a non-negative gain).
- `src/mount.rs`, `src/lens.rs`, `src/mod_pc.rs`, `src/error.rs` — the plain
  data types shared with the rest of the library.

`app/` holds what is floating point throughout (calibration records, lens and
camera records, the database handle, the sub-pixel and perspective kernels)
and the copies of the error types that carry `Display`.
