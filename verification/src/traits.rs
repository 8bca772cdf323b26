//! Capability traits of the geometry model.
//!
//! Each concrete shape implements only the capabilities it genuinely has:
//! a point has no curve capability, a collection of polygons has none
//! either.  Every trait method carries an exact contract stated over the
//! implementor's own spec functions, so algorithms written against a
//! capability inherit full knowledge of what each shape returns.

use vstd::prelude::*;

use crate::error::GeometryError;
use crate::point::Point;
use crate::scalar::{is_sqrt_floor, Scalar};

verus! {

/// A geometric value: it has a centroid, where one is defined, and a
/// simplicity predicate.
pub trait Geometry {
    /// The centroid's micro-unit coordinates, or `None` where the centroid
    /// is undefined (a collection with no members).
    spec fn spec_centroid(&self) -> Option<(int, int)>;

    /// Whether this geometry does not intersect itself except at permitted
    /// closure points.
    spec fn spec_is_simple(&self) -> bool;

    /// The geometric center of this geometry; fails exactly when the
    /// centroid is undefined.
    fn centroid(&self) -> (r: Result<Point, GeometryError>)
        ensures
            match r {
                Ok(p) => self.spec_centroid() == Some(p@),
                Err(e) => self.spec_centroid() is None && e == GeometryError::EmptyCollection,
            },
    ;

    /// Whether this geometry is simple.
    fn is_simple(&self) -> (r: bool)
        ensures
            r == self.spec_is_simple(),
    ;
}

/// An ordered collection of member geometries with index-based access.
pub trait GeometryCollection<T: Geometry + View> {
    /// The views of the members, in stored order.
    spec fn spec_members(&self) -> Seq<T::V>;

    /// How many members the collection holds.
    fn num_geometries(&self) -> (n: usize)
        ensures
            n == self.spec_members().len(),
    ;

    /// The member at position `number`; fails exactly on an out-of-range
    /// index.
    fn geometry_n(&self, number: usize) -> (r: Result<T, GeometryError>)
        ensures
            match r {
                Ok(g) => number < self.spec_members().len() && g@ == self.spec_members()[number as int],
                Err(e) => number >= self.spec_members().len() && e
                    == GeometryError::IndexOutOfBounds(number),
            },
    ;
}

/// A one-dimensional geometry running from a start point to an end point.
pub trait Curve: Geometry {
    /// The micro-unit coordinates of the start point.
    spec fn spec_start(&self) -> (int, int);

    /// The micro-unit coordinates of the end point.
    spec fn spec_end(&self) -> (int, int);

    /// The squared Euclidean length, in squared micro-units.
    spec fn spec_length_sq(&self) -> int;

    /// The Euclidean length in micro-units, rounded down to a whole
    /// micro-unit; exact whenever the squared length is a perfect square.
    fn length(&self) -> (r: Scalar)
        ensures
            is_sqrt_floor(self.spec_length_sq(), r@),
    ;

    /// The start point of this curve.
    fn start_point(&self) -> (p: Point)
        ensures
            p@ == self.spec_start(),
    ;

    /// The end point of this curve.
    fn end_point(&self) -> (p: Point)
        ensures
            p@ == self.spec_end(),
    ;

    /// Whether the start point equals the end point.
    fn is_closed(&self) -> (b: bool)
        ensures
            b == (self.spec_start() == self.spec_end()),
    ;

    /// Whether this curve is a ring: closed and simple.
    fn is_ring(&self) -> (b: bool)
        ensures
            b == (self.spec_start() == self.spec_end() && self.spec_is_simple()),
    ;
}

/// A geometry made of an ordered run of points, with index-based access.
pub trait LineString {
    /// The micro-unit coordinates of the points, in stored order.
    spec fn spec_points(&self) -> Seq<(int, int)>;

    /// How many points the geometry holds.
    fn num_points(&self) -> (n: usize)
        ensures
            n == self.spec_points().len(),
    ;

    /// The point at position `number`; fails exactly on an out-of-range
    /// index.
    fn point_n(&self, number: usize) -> (r: Result<Point, GeometryError>)
        ensures
            match r {
                Ok(p) => number < self.spec_points().len() && p@ == self.spec_points()[number as int],
                Err(e) => number >= self.spec_points().len() && e
                    == GeometryError::IndexOutOfBounds(number),
            },
    ;
}

} // verus!
