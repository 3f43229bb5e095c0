//! Camera lens correction: the integer core of the correction passes and the
//! plain data types shared by the database and the modifier.

pub mod error;
pub mod lens;
pub mod mod_pc;
pub mod modifier;
pub mod mount;

pub use error::{Error, Result};
pub use lens::LensType;
pub use mod_pc::{Direction, SvdNoConvergence};
pub use modifier::{clamp_bits_8, clamp_bits_16, scale_pixels_u16, scale_pixels_u8};
pub use mount::Mount;
