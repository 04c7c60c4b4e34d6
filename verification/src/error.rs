//! The faults that the library reports.

use vstd::prelude::*;

verus! {

/// Why an input was refused.
#[derive(Clone, Copy, Debug, PartialEq, Eq, Structural)]
pub enum Error {
    /// A vector is too short to be normalised.
    DegenerateVector,
    /// A rotation axis is not of unit length, or a material index is outside
    /// the material table.
    PreconditionViolation,
    /// The corners of a triangle coincide or lie on one line.
    DegenerateGeometry,
}

} // verus!
