//! Exact computational-geometry primitives for a subset of the OGC
//! "Simple Features" model: points, line strings, polygons and their
//! multi-part collections, with validated construction, geometric
//! predicates (centroid, simplicity, closedness) and canonical WKT-style
//! text rendering.
//!
//! Coordinates are stored exactly, as signed counts of micro-units
//! (see [`scalar::Scalar`]), so every predicate, centroid and rendering
//! result is a mathematical function of the stored values and is verified
//! as such.

pub mod error;
pub mod helpers;
pub mod line_string;
pub mod point;
pub mod polygon;
pub mod scalar;
pub mod traits;
pub mod wkt;
