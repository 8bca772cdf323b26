use vstd::prelude::*;

verus! {

/// The failure conditions reported by geometry constructors and accessors.
///
/// Every failure is a recoverable value: no constructor or accessor in this
/// crate panics.
#[derive(Debug, Clone, Copy, PartialEq, Eq, Structural)]
pub enum GeometryError {
    /// A `LineString` needs at least 2 coordinates and a `PolygonRing` at
    /// least 3; the payload is the number of coordinates actually supplied.
    TooFewCoordinates(usize),
    /// `geometry_n` or `point_n` was asked for a member past the end of the
    /// collection; the payload is the requested index.
    IndexOutOfBounds(usize),
    /// A numeric input cannot be represented as an exact, in-range
    /// coordinate scalar.
    UnrepresentableCoordinate,
    /// The centroid of a collection with no members is undefined.
    EmptyCollection,
}

} // verus!
