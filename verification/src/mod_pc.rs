//! Plain types of the perspective-correction pass.

use vstd::prelude::*;

verus! {

/// Error returned when the Jacobi SVD fails to converge inside the iteration
/// cap.
#[derive(Debug, Clone, Copy)]
pub struct SvdNoConvergence;

impl SvdNoConvergence {
    /// The human-readable description of this error.
    pub fn message(&self) -> (s: String)
        ensures
            s@ == "SVD: Iterations did not converge"@,
    {
        "SVD: Iterations did not converge".to_string()
    }
}

/// Direction of the perspective callback — forward (correction) or reverse
/// (distortion).
#[derive(Debug, Clone, Copy, PartialEq, Eq, Structural)]
pub enum Direction {
    /// Correct an already-distorted image (the modifier is not reversed).
    Correction,
    /// Simulate the perspective distortion (the modifier is reversed).
    Distortion,
}

} // verus!
