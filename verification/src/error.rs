//! The ways in which an operation of the library fails.

use vstd::prelude::*;

verus! {

/// Why an operation gave no result. Each failure is the caller's misuse of
/// the library or a scene that cannot be rendered; none is worth a retry.
#[derive(Clone, Copy, Debug, PartialEq, Eq, Structural)]
pub enum Error {
    /// The sizes of the operands of a matrix product do not match.
    InvalidDimension,
    /// The matrix has determinant 0 and so no inverse.
    NotInvertible,
    /// The vector has magnitude 0 and so no direction.
    DegenerateVector,
    /// There is no cell, pixel or shape at the given place.
    IndexOutOfRange,
    /// A value is not what its place demands: the origin of a ray that is
    /// no point, a direction that is no vector, a distance that is no
    /// number.
    InvariantViolation,
}

} // verus!
