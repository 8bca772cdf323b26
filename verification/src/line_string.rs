//! Line segments, polylines, and collections of polylines.

use vstd::prelude::*;
use vstd::string::StringExecFns;

use crate::error::GeometryError;
use crate::helpers;
use crate::point::Point;
use crate::scalar::{
    coord_views, is_sqrt_floor, lemma_coord_value_determines, lemma_trunc_div_bound, trunc_div,
    Coord, Scalar, COORD_LIMIT_MICROS,
};
use crate::scalar::div_trunc_i128;
use crate::traits;
use crate::traits::{Curve, Geometry};
use crate::wkt;
use crate::wkt::{spec_coords_body, spec_join};

verus! {

/// The canonical text rendering of a two-point segment.
pub open spec fn spec_linesegment_wkt(v: ((int, int), (int, int))) -> Seq<char> {
    "LINESTRING ("@ + wkt::spec_coord_text(v.0) + ", "@ + wkt::spec_coord_text(v.1) + ")"@
}

/// A straight line connecting two points.
///
/// Its view is the pair of the two endpoints' micro-unit coordinates.
#[derive(Debug, Clone, Copy, PartialEq, Eq, Structural)]
pub struct LineSegment {
    start: Coord,
    end: Coord,
}

impl View for LineSegment {
    type V = ((int, int), (int, int));

    closed spec fn view(&self) -> ((int, int), (int, int)) {
        (self.start@, self.end@)
    }
}

impl LineSegment {
    /// A segment from its two coordinates; degenerate segments with equal
    /// endpoints are permitted.
    pub fn new(coordinates: [Coord; 2]) -> (s: LineSegment)
        ensures
            s@ == (coordinates@[0]@, coordinates@[1]@),
    {
        LineSegment { start: coordinates[0], end: coordinates[1] }
    }

    /// The signed x distance from the start point to the end point.
    pub fn x_length(&self) -> (r: Scalar)
        ensures
            r@ == self@.1.0 - self@.0.0,
    {
        proof {
            use_type_invariant(&self.start);
            use_type_invariant(&self.end);
        }
        Scalar::from_micros(self.end.x().micros() - self.start.x().micros())
    }

    /// The signed y distance from the start point to the end point.
    pub fn y_length(&self) -> (r: Scalar)
        ensures
            r@ == self@.1.1 - self@.0.1,
    {
        proof {
            use_type_invariant(&self.start);
            use_type_invariant(&self.end);
        }
        Scalar::from_micros(self.end.y().micros() - self.start.y().micros())
    }

    /// The canonical `LINESTRING (x0 y0, x1 y1)` rendering.
    pub fn wkt(&self) -> (r: String)
        ensures
            r@ == spec_linesegment_wkt(self@),
    {
        let mut out = "LINESTRING (".to_owned();
        wkt::push_coord_text(&self.start, &mut out);
        out.append(", ");
        wkt::push_coord_text(&self.end, &mut out);
        out.append(")");
        out
    }
}

/// Two segments standing for the same endpoint coordinates are the same
/// segment, whatever inputs they were built from.
pub proof fn lemma_linesegment_value_determines(a: LineSegment, b: LineSegment)
    requires
        a@ == b@,
    ensures
        a == b,
{
    lemma_coord_value_determines(a.start, b.start);
    lemma_coord_value_determines(a.end, b.end);
}

impl Geometry for LineSegment {
    /// The centroid is the midpoint of the two endpoints, each mean
    /// rounded toward zero to a whole micro-unit.
    open spec fn spec_centroid(&self) -> Option<(int, int)> {
        Some(
            (trunc_div(self@.0.0 + self@.1.0, 2), trunc_div(self@.0.1 + self@.1.1, 2)),
        )
    }

    /// A segment never passes through the same point more than once,
    /// except that a degenerate segment's coinciding start and end count
    /// as a permitted closure, so a segment is always simple.
    open spec fn spec_is_simple(&self) -> bool {
        true
    }

    fn centroid(&self) -> (r: Result<Point, GeometryError>) {
        proof {
            use_type_invariant(&self.start);
            use_type_invariant(&self.end);
        }
        let mx = self.start.x().micros() as i128 + self.end.x().micros() as i128;
        let my = self.start.y().micros() as i128 + self.end.y().micros() as i128;
        proof {
            lemma_trunc_div_bound(mx as int, 2, COORD_LIMIT_MICROS as int);
            lemma_trunc_div_bound(my as int, 2, COORD_LIMIT_MICROS as int);
        }
        let qx = div_trunc_i128(mx, 2);
        let qy = div_trunc_i128(my, 2);
        let cx = Scalar::from_micros(qx as i64);
        let cy = Scalar::from_micros(qy as i64);
        Ok(Point::from_coord(Coord::from_scalars(cx, cy)))
    }

    fn is_simple(&self) -> (r: bool) {
        true
    }
}

fn isqrt_u128(n: u128) -> (r: u128)
    ensures
        is_sqrt_floor(n as int, r as int),
{
    let mut lo: u128 = 0;
    let mut hi: u128 = 0x1_0000_0000_0000_0000;
    proof {
        assert((hi as int) * (hi as int) > n as int) by (nonlinear_arith)
            requires
                hi as int == 0x1_0000_0000_0000_0000,
                n as int <= u128::MAX,
        ;
    }
    while lo + 1 < hi
        invariant
            lo < hi,
            hi <= 0x1_0000_0000_0000_0000,
            (lo as int) * (lo as int) <= n as int,
            (n as int) < (hi as int) * (hi as int),
        decreases hi - lo,
    {
        let mid = lo + (hi - lo) / 2;
        proof {
            assert(mid * mid <= u128::MAX) by (nonlinear_arith)
                requires
                    mid < 0x1_0000_0000_0000_0000,
            ;
        }
        if mid * mid <= n {
            lo = mid;
        } else {
            hi = mid;
        }
    }
    lo
}

impl Curve for LineSegment {
    open spec fn spec_start(&self) -> (int, int) {
        self@.0
    }

    open spec fn spec_end(&self) -> (int, int) {
        self@.1
    }

    open spec fn spec_length_sq(&self) -> int {
        (self@.1.0 - self@.0.0) * (self@.1.0 - self@.0.0) + (self@.1.1 - self@.0.1) * (self@.1.1
            - self@.0.1)
    }

    fn length(&self) -> (r: Scalar) {
        proof {
            use_type_invariant(&self.start);
            use_type_invariant(&self.end);
        }
        let dx = self.end.x().micros() as i128 - self.start.x().micros() as i128;
        let dy = self.end.y().micros() as i128 - self.start.y().micros() as i128;
        let ax: u128 = if dx >= 0 {
            dx as u128
        } else {
            (-dx) as u128
        };
        let ay: u128 = if dy >= 0 {
            dy as u128
        } else {
            (-dy) as u128
        };
        proof {
            assert((ax as int) * (ax as int) == (dx as int) * (dx as int)) by (nonlinear_arith)
                requires
                    ax as int == dx as int || ax as int == -(dx as int),
            ;
            assert((ay as int) * (ay as int) == (dy as int) * (dy as int)) by (nonlinear_arith)
                requires
                    ay as int == dy as int || ay as int == -(dy as int),
            ;
            assert(0 <= ax as int <= 0x4000_0000_0000_0000);
            assert(0 <= ay as int <= 0x4000_0000_0000_0000);
            assert((ax as int) * (ax as int) <= 0x1000_0000_0000_0000_0000_0000_0000_0000)
                by (nonlinear_arith)
                requires
                    0 <= ax as int <= 0x4000_0000_0000_0000,
            ;
            assert((ay as int) * (ay as int) <= 0x1000_0000_0000_0000_0000_0000_0000_0000)
                by (nonlinear_arith)
                requires
                    0 <= ay as int <= 0x4000_0000_0000_0000,
            ;
        }
        let d2 = ax * ax + ay * ay;
        let s = isqrt_u128(d2);
        proof {
            assert(s as int <= i64::MAX) by (nonlinear_arith)
                requires
                    (s as int) * (s as int) <= d2 as int,
                    d2 as int <= 0x2000_0000_0000_0000_0000_0000_0000_0000,
                    s as int >= 0,
            ;
        }
        Scalar::from_micros(s as i64)
    }

    fn start_point(&self) -> (p: Point) {
        Point::from_coord(self.start)
    }

    fn end_point(&self) -> (p: Point) {
        Point::from_coord(self.end)
    }

    fn is_closed(&self) -> (b: bool) {
        let b = self.start == self.end;
        proof {
            if !b && self@.0 == self@.1 {
                lemma_coord_value_determines(self.start, self.end);
                assert(false);
            }
        }
        b
    }

    fn is_ring(&self) -> (b: bool) {
        let closed = self.is_closed();
        let simple = self.is_simple();
        closed && simple
    }
}

impl traits::LineString for LineSegment {
    /// A segment's points are its start and its end, in that order.
    open spec fn spec_points(&self) -> Seq<(int, int)> {
        seq![self@.0, self@.1]
    }

    fn num_points(&self) -> (n: usize) {
        2
    }

    fn point_n(&self, number: usize) -> (r: Result<Point, GeometryError>) {
        if number == 0 {
            Ok(Point::from_coord(self.start))
        } else if number == 1 {
            Ok(Point::from_coord(self.end))
        } else {
            Err(GeometryError::IndexOutOfBounds(number))
        }
    }
}

/// The canonical text rendering of a polyline.
pub open spec fn spec_linestring_wkt(v: Seq<(int, int)>) -> Seq<char> {
    "LINESTRING ("@ + spec_coords_body(v) + ")"@
}

/// An ordered run of at least two coordinates forming a polyline.
///
/// Its view is the sequence of the stored micro-unit coordinate pairs; the
/// stored sequence is exactly what construction was given, with no closure
/// normalization.
#[derive(Debug, Clone)]
pub struct LineString {
    coords: Vec<Coord>,
}

impl PartialEq for LineString {
    /// Structural equality: the same stored coordinate sequence, whatever
    /// inputs the two polylines were built from.
    fn eq(&self, other: &LineString) -> (r: bool) {
        helpers::coords_eq(&self.coords, &other.coords)
    }
}

impl vstd::std_specs::cmp::PartialEqSpecImpl for LineString {
    open spec fn obeys_eq_spec() -> bool {
        true
    }

    open spec fn eq_spec(&self, other: &LineString) -> bool {
        self@ == other@
    }
}

impl View for LineString {
    type V = Seq<(int, int)>;

    closed spec fn view(&self) -> Seq<(int, int)> {
        coord_views(self.coords@)
    }
}

impl LineString {
    /// A polyline from its coordinates; fails, reporting the offending
    /// count, exactly when fewer than two are supplied.
    pub fn new(coordinates: Vec<Coord>) -> (r: Result<LineString, GeometryError>)
        ensures
            match r {
                Ok(ls) => {
                    &&& coordinates@.len() >= 2
                    &&& ls@ == coord_views(coordinates@)
                },
                Err(e) => {
                    &&& coordinates@.len() < 2
                    &&& e == GeometryError::TooFewCoordinates(coordinates@.len() as usize)
                },
            },
    {
        let n = coordinates.len();
        if n < 2 {
            Err(GeometryError::TooFewCoordinates(n))
        } else {
            Ok(LineString { coords: coordinates })
        }
    }

    /// The canonical `LINESTRING (x0 y0, x1 y1, ...)` rendering.
    pub fn wkt(&self) -> (r: String)
        ensures
            r@ == spec_linestring_wkt(self@),
    {
        let body = wkt::coords_body_text(&self.coords);
        let mut out = "LINESTRING (".to_owned();
        out.append(body.as_str());
        out.append(")");
        out
    }

    /// The comma-separated coordinate list, for nesting inside collection
    /// renderings.
    fn coords_body(&self) -> (r: String)
        ensures
            r@ == spec_coords_body(self@),
    {
        wkt::coords_body_text(&self.coords)
    }
}

/// The canonical text rendering of a collection of polylines.
pub open spec fn spec_multilinestring_wkt(v: Seq<Seq<(int, int)>>) -> Seq<char> {
    "MULTILINESTRING ("@ + spec_join(
        v.map_values(|l: Seq<(int, int)>| "("@ + spec_coords_body(l) + ")"@),
        ", "@,
    ) + ")"@
}

/// An ordered collection of polylines.
///
/// Its view is the sequence of the members' views.
#[derive(Debug, Clone)]
pub struct MultiLineString {
    line_strings: Vec<LineString>,
}

impl PartialEq for MultiLineString {
    /// Structural equality: the same member polylines in the same order.
    fn eq(&self, other: &MultiLineString) -> (r: bool) {
        let n = self.line_strings.len();
        if n != other.line_strings.len() {
            proof {
                assert(self@.len() != other@.len());
            }
            return false;
        }
        let mut i: usize = 0;
        while i < n
            invariant
                n == self.line_strings@.len(),
                n == other.line_strings@.len(),
                i <= n,
                forall|k: int| 0 <= k < i as int ==> self@[k] == other@[k],
            decreases n - i,
        {
            if !(self.line_strings[i] == other.line_strings[i]) {
                proof {
                    assert(self@[i as int] == self.line_strings@[i as int]@);
                    assert(other@[i as int] == other.line_strings@[i as int]@);
                }
                return false;
            }
            i = i + 1;
        }
        proof {
            assert(self@ =~= other@);
        }
        true
    }
}

impl vstd::std_specs::cmp::PartialEqSpecImpl for MultiLineString {
    open spec fn obeys_eq_spec() -> bool {
        true
    }

    open spec fn eq_spec(&self, other: &MultiLineString) -> bool {
        self@ == other@
    }
}

impl View for MultiLineString {
    type V = Seq<Seq<(int, int)>>;

    closed spec fn view(&self) -> Seq<Seq<(int, int)>> {
        self.line_strings@.map_values(|ls: LineString| ls@)
    }
}

impl MultiLineString {
    /// A collection from already-validated polylines; always succeeds.
    pub fn new(line_strings: Vec<LineString>) -> (m: MultiLineString)
        ensures
            m@ == line_strings@.map_values(|ls: LineString| ls@),
    {
        MultiLineString { line_strings }
    }

    /// A collection built by validating every nested coordinate run in
    /// order; fails with the first too-short run's coordinate count.
    pub fn try_from(coordinates: Vec<Vec<Coord>>) -> (r: Result<MultiLineString, GeometryError>)
        ensures
            match r {
                Ok(m) => {
                    &&& (forall|i: int|
                        0 <= i < coordinates@.len() ==> #[trigger] coordinates@[i]@.len() >= 2)
                    &&& m@ == coordinates@.map_values(|v: Vec<Coord>| coord_views(v@))
                },
                Err(e) => (exists|i: int|
                    {
                        &&& 0 <= i < coordinates@.len()
                        &&& #[trigger] coordinates@[i]@.len() < 2
                        &&& e == GeometryError::TooFewCoordinates(coordinates@[i]@.len() as usize)
                        &&& (forall|j: int| 0 <= j < i ==> #[trigger] coordinates@[j]@.len() >= 2)
                    }),
            },
    {
        let n = coordinates.len();
        let mut built: Vec<LineString> = Vec::new();
        let mut i: usize = 0;
        while i < n
            invariant
                n == coordinates@.len(),
                i <= n,
                built@.len() == i as int,
                forall|k: int|
                    0 <= k < i as int ==> #[trigger] coordinates@[k]@.len() >= 2 && built@[k]@
                        == coord_views(coordinates@[k]@),
            decreases n - i,
        {
            let coords = helpers::copy_coords(&coordinates[i]);
            match LineString::new(coords) {
                Ok(ls) => {
                    built.push(ls);
                },
                Err(e) => {
                    return Err(e);
                },
            }
            i = i + 1;
        }
        let m = MultiLineString { line_strings: built };
        proof {
            assert(m@ =~= coordinates@.map_values(|v: Vec<Coord>| coord_views(v@)));
        }
        Ok(m)
    }

    /// The canonical `MULTILINESTRING ((...), (...))` rendering.
    pub fn wkt(&self) -> (r: String)
        ensures
            r@ == spec_multilinestring_wkt(self@),
    {
        let n = self.line_strings.len();
        let mut parts: Vec<String> = Vec::new();
        let mut i: usize = 0;
        while i < n
            invariant
                n == self.line_strings@.len(),
                i <= n,
                parts@.len() == i as int,
                forall|k: int|
                    0 <= k < i as int ==> parts@[k]@ == "("@ + spec_coords_body(self@[k]) + ")"@,
            decreases n - i,
        {
            let mut part = "(".to_owned();
            let body = self.line_strings[i].coords_body();
            part.append(body.as_str());
            part.append(")");
            parts.push(part);
            i = i + 1;
        }
        let joined = wkt::join_with(&parts, ", ");
        proof {
            assert(parts@.map_values(|s: String| s@) =~= self@.map_values(
                |l: Seq<(int, int)>| "("@ + spec_coords_body(l) + ")"@,
            ));
        }
        let mut out = "MULTILINESTRING (".to_owned();
        out.append(joined.as_str());
        out.append(")");
        out
    }
}

} // verus!
