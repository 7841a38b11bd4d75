use vstd::prelude::*;

verus! {

/// What can go wrong at the library's edge.
#[derive(Debug, PartialEq, Eq, Clone, Copy, Structural)]
pub enum CubeError {
    /// A move's text is empty or does not start with the letter of a face.
    InvalidNotation,
    /// A state that was asserted to be valid is not.
    InvariantViolation,
}

} // verus!
