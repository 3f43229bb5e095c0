//! Lens projection type.

use vstd::prelude::*;

verus! {

/// Coarse lens family.
#[derive(Debug, Clone, Copy, PartialEq, Eq, Structural)]
pub enum LensType {
    /// Standard rectilinear lens.
    Rectilinear,
    /// Equidistant fisheye — `r = f · θ`.
    FisheyeEquidistant,
    /// Orthographic fisheye — `r = f · sin(θ)`.
    FisheyeOrthographic,
    /// Equisolid fisheye — `r = 2 · f · sin(θ / 2)`.
    FisheyeEquisolid,
    /// Stereographic fisheye — `r = 2 · f · tan(θ / 2)`.
    FisheyeStereographic,
    /// Thoby fisheye — empirical model used by some Nikon lenses.
    FisheyeThoby,
    /// Equirectangular projection.
    Equirectangular,
    /// Panoramic (cylindrical) projection.
    Panoramic,
    /// Unknown / not yet classified.
    Unknown,
}

impl Default for LensType {
    /// A lens is rectilinear unless it says otherwise.
    fn default() -> (t: LensType)
        ensures
            t == LensType::Rectilinear,
    {
        LensType::Rectilinear
    }
}

} // verus!
