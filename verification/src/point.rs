//! Points and collections of points.

use vstd::prelude::*;
use vstd::string::StringExecFns;

use crate::error::GeometryError;
use crate::helpers;
use crate::scalar::{
    coord_in_range, lemma_coord_value_determines, lemma_trunc_div_bound, trunc_div, Coord, Scalar,
    COORD_LIMIT_MICROS, MICROS_PER_UNIT,
};
use crate::scalar::div_trunc_i128;
use crate::traits::{Geometry, GeometryCollection};
use crate::wkt;
use crate::wkt::{spec_coord_text, spec_join};

verus! {

/// A single two-dimensional coordinate value.
///
/// Its view is the pair of micro-unit counts of its x and y components.
#[derive(Debug, Clone, Copy, PartialEq, Eq, Structural)]
pub struct Point {
    coord: Coord,
}

impl View for Point {
    type V = (int, int);

    closed spec fn view(&self) -> (int, int) {
        self.coord@
    }
}

/// The canonical text rendering of a point.
pub open spec fn spec_point_wkt(v: (int, int)) -> Seq<char> {
    "POINT ("@ + spec_coord_text(v) + ")"@
}

impl Point {
    /// A point from two scalars; fails when either component is out of the
    /// storable coordinate range.
    pub fn new(x: Scalar, y: Scalar) -> (r: Result<Point, GeometryError>)
        ensures
            match r {
                Ok(p) => {
                    &&& p@ == (x@, y@)
                    &&& coord_in_range(x@)
                    &&& coord_in_range(y@)
                },
                Err(e) => {
                    &&& e == GeometryError::UnrepresentableCoordinate
                    &&& !(coord_in_range(x@) && coord_in_range(y@))
                },
            },
    {
        match Coord::new(x, y) {
            Ok(c) => Ok(Point { coord: c }),
            Err(e) => Err(e),
        }
    }

    /// A point from a ready-made coordinate.
    pub fn from_coord(coord: Coord) -> (p: Point)
        ensures
            p@ == coord@,
    {
        Point { coord }
    }

    /// A point from two whole numbers; fails when either is too large in
    /// magnitude to be stored.
    pub fn from_ints(x: i64, y: i64) -> (r: Result<Point, GeometryError>)
        ensures
            match r {
                Ok(p) => {
                    &&& p@ == (x * MICROS_PER_UNIT, y * MICROS_PER_UNIT)
                    &&& coord_in_range(x * MICROS_PER_UNIT)
                    &&& coord_in_range(y * MICROS_PER_UNIT)
                },
                Err(e) => {
                    &&& e == GeometryError::UnrepresentableCoordinate
                    &&& !(coord_in_range(x * MICROS_PER_UNIT) && coord_in_range(
                        y * MICROS_PER_UNIT,
                    ))
                },
            },
    {
        match Coord::from_ints(x, y) {
            Ok(c) => Ok(Point { coord: c }),
            Err(e) => Err(e),
        }
    }

    /// The stored coordinate.
    pub fn coord(&self) -> (c: Coord)
        ensures
            c@ == self@,
    {
        self.coord
    }

    /// The x-coordinate value of this point.
    pub fn x(&self) -> (s: Scalar)
        ensures
            s@ == self@.0,
    {
        self.coord.x()
    }

    /// The y-coordinate value of this point.
    pub fn y(&self) -> (s: Scalar)
        ensures
            s@ == self@.1,
    {
        self.coord.y()
    }

    /// The z-coordinate value of this point, if it has one.  Exactly two
    /// components are stored, so there never is one.
    pub fn z(&self) -> (r: Option<Scalar>)
        ensures
            r is None,
    {
        None
    }

    /// The m-coordinate value of this point, if it has one.  Exactly two
    /// components are stored, so there never is one.
    pub fn m(&self) -> (r: Option<Scalar>)
        ensures
            r is None,
    {
        None
    }

    /// The canonical `POINT (x y)` rendering.
    pub fn wkt(&self) -> (r: String)
        ensures
            r@ == spec_point_wkt(self@),
    {
        let mut out = "POINT (".to_owned();
        wkt::push_coord_text(&self.coord, &mut out);
        out.append(")");
        out
    }
}

impl PartialOrd for Point {
    /// Points are ordered component-wise: by x, then by y.
    fn partial_cmp(&self, other: &Point) -> (r: Option<core::cmp::Ordering>) {
        let sx = self.coord.x().micros();
        let ox = other.coord.x().micros();
        let sy = self.coord.y().micros();
        let oy = other.coord.y().micros();
        if sx < ox {
            Some(core::cmp::Ordering::Less)
        } else if sx > ox {
            Some(core::cmp::Ordering::Greater)
        } else if sy < oy {
            Some(core::cmp::Ordering::Less)
        } else if sy > oy {
            Some(core::cmp::Ordering::Greater)
        } else {
            Some(core::cmp::Ordering::Equal)
        }
    }
}

impl vstd::std_specs::cmp::PartialOrdSpecImpl for Point {
    open spec fn obeys_partial_cmp_spec() -> bool {
        true
    }

    open spec fn partial_cmp_spec(&self, other: &Point) -> Option<core::cmp::Ordering> {
        if self@.0 < other@.0 {
            Some(core::cmp::Ordering::Less)
        } else if self@.0 > other@.0 {
            Some(core::cmp::Ordering::Greater)
        } else if self@.1 < other@.1 {
            Some(core::cmp::Ordering::Less)
        } else if self@.1 > other@.1 {
            Some(core::cmp::Ordering::Greater)
        } else {
            Some(core::cmp::Ordering::Equal)
        }
    }
}

/// Two points standing for the same coordinates are the same point,
/// whatever inputs they were built from.
pub proof fn lemma_point_value_determines(a: Point, b: Point)
    requires
        a@ == b@,
    ensures
        a == b,
{
    lemma_coord_value_determines(a.coord, b.coord);
}

impl Geometry for Point {
    /// A point's geometric center is the point itself.
    open spec fn spec_centroid(&self) -> Option<(int, int)> {
        Some(self@)
    }

    /// A point cannot self-intersect.
    open spec fn spec_is_simple(&self) -> bool {
        true
    }

    fn centroid(&self) -> (r: Result<Point, GeometryError>) {
        Ok(Point { coord: self.coord })
    }

    fn is_simple(&self) -> (r: bool) {
        true
    }
}

/// The sum of the x components of a sequence of micro-unit pairs.
pub open spec fn sum_x(s: Seq<(int, int)>) -> int
    decreases s.len(),
{
    if s.len() == 0 {
        0
    } else {
        sum_x(s.drop_last()) + s.last().0
    }
}

/// The sum of the y components of a sequence of micro-unit pairs.
pub open spec fn sum_y(s: Seq<(int, int)>) -> int
    decreases s.len(),
{
    if s.len() == 0 {
        0
    } else {
        sum_y(s.drop_last()) + s.last().1
    }
}

/// Whether no two positions of the sequence hold the same pair.
pub open spec fn pairwise_distinct(s: Seq<(int, int)>) -> bool {
    forall|i: int, j: int| 0 <= i < j < s.len() ==> s[i] != s[j]
}

proof fn lemma_sum_take_step(s: Seq<(int, int)>, i: int)
    requires
        0 <= i < s.len(),
    ensures
        sum_x(s.take(i + 1)) == sum_x(s.take(i)) + s[i].0,
        sum_y(s.take(i + 1)) == sum_y(s.take(i)) + s[i].1,
{
    assert(s.take(i + 1).drop_last() =~= s.take(i));
    assert(s.take(i + 1).last() == s[i]);
}

/// The canonical text rendering of a collection of points.
pub open spec fn spec_multipoint_wkt(v: Seq<(int, int)>) -> Seq<char> {
    "MULTIPOINT ("@ + spec_join(
        v.map_values(|c: (int, int)| "("@ + spec_coord_text(c) + ")"@),
        ", "@,
    ) + ")"@
}

/// An ordered collection of points.
///
/// Its view is the sequence of the members' micro-unit coordinate pairs.
#[derive(Debug, Clone)]
pub struct MultiPoint {
    points: Vec<Point>,
}

impl PartialEq for MultiPoint {
    /// Structural equality: the same member coordinates in the same order,
    /// whatever inputs the two collections were built from.
    fn eq(&self, other: &MultiPoint) -> (r: bool) {
        let n = self.points.len();
        if n != other.points.len() {
            proof {
                assert(self@.len() != other@.len());
            }
            return false;
        }
        let mut i: usize = 0;
        while i < n
            invariant
                n == self.points@.len(),
                n == other.points@.len(),
                i <= n,
                forall|k: int| 0 <= k < i as int ==> self@[k] == other@[k],
            decreases n - i,
        {
            if !(self.points[i] == other.points[i]) {
                proof {
                    if self@[i as int] == other@[i as int] {
                        lemma_point_value_determines(
                            self.points@[i as int],
                            other.points@[i as int],
                        );
                        assert(false);
                    }
                }
                return false;
            }
            i = i + 1;
        }
        proof {
            assert(self@ =~= other@);
        }
        true
    }
}

impl vstd::std_specs::cmp::PartialEqSpecImpl for MultiPoint {
    open spec fn obeys_eq_spec() -> bool {
        true
    }

    open spec fn eq_spec(&self, other: &MultiPoint) -> bool {
        self@ == other@
    }
}

impl View for MultiPoint {
    type V = Seq<(int, int)>;

    closed spec fn view(&self) -> Seq<(int, int)> {
        self.points@.map_values(|p: Point| p@)
    }
}

impl MultiPoint {
    /// A collection from ready-made points; always succeeds, and an empty
    /// collection is permitted (its centroid is then undefined).
    pub fn new(points: Vec<Point>) -> (mp: MultiPoint)
        ensures
            mp@ == points@.map_values(|p: Point| p@),
    {
        MultiPoint { points }
    }

    /// A collection from whole-number coordinate pairs; fails when some
    /// pair is too large in magnitude to be stored.
    pub fn from_ints(coordinates: Vec<[i64; 2]>) -> (r: Result<MultiPoint, GeometryError>)
        ensures
            match r {
                Ok(mp) => {
                    &&& helpers::int_coords_in_range(coordinates@)
                    &&& mp@ == helpers::int_coords_to_micros(coordinates@)
                },
                Err(e) => {
                    &&& e == GeometryError::UnrepresentableCoordinate
                    &&& !helpers::int_coords_in_range(coordinates@)
                },
            },
    {
        let cs = match helpers::coords_from_ints(coordinates) {
            Ok(cs) => cs,
            Err(e) => {
                return Err(e);
            },
        };
        let mut points: Vec<Point> = Vec::new();
        let mut i: usize = 0;
        while i < cs.len()
            invariant
                points@.len() == i as int,
                i <= cs@.len(),
                forall|k: int| 0 <= k < i as int ==> points@[k]@ == cs@[k]@,
            decreases cs@.len() - i,
        {
            points.push(Point::from_coord(cs[i]));
            i = i + 1;
        }
        let mp = MultiPoint { points };
        proof {
            assert(mp@ =~= crate::scalar::coord_views(cs@));
        }
        Ok(mp)
    }

    /// The canonical `MULTIPOINT ((x1 y1), (x2 y2), ...)` rendering.
    pub fn wkt(&self) -> (r: String)
        ensures
            r@ == spec_multipoint_wkt(self@),
    {
        let n = self.points.len();
        let mut parts: Vec<String> = Vec::new();
        let mut i: usize = 0;
        while i < n
            invariant
                n == self.points@.len(),
                i <= n,
                parts@.len() == i as int,
                forall|k: int|
                    0 <= k < i as int ==> parts@[k]@ == "("@ + spec_coord_text(self@[k]) + ")"@,
            decreases n - i,
        {
            let mut part = "(".to_owned();
            let p = self.points[i];
            wkt::push_coord_text(&p.coord, &mut part);
            part.append(")");
            parts.push(part);
            i = i + 1;
        }
        let joined = wkt::join_with(&parts, ", ");
        proof {
            assert(parts@.map_values(|s: String| s@) =~= self@.map_values(
                |c: (int, int)| "("@ + spec_coord_text(c) + ")"@,
            ));
        }
        let mut out = "MULTIPOINT (".to_owned();
        out.append(joined.as_str());
        out.append(")");
        out
    }
}

impl GeometryCollection<Point> for MultiPoint {
    /// The members are exactly the stored points, in order.
    open spec fn spec_members(&self) -> Seq<(int, int)> {
        self@
    }

    fn num_geometries(&self) -> (n: usize) {
        self.points.len()
    }

    fn geometry_n(&self, number: usize) -> (r: Result<Point, GeometryError>) {
        if number < self.points.len() {
            Ok(self.points[number])
        } else {
            Err(GeometryError::IndexOutOfBounds(number))
        }
    }
}

impl Geometry for MultiPoint {
    /// The centroid is the coordinate-wise mean of the members, rounded
    /// toward zero to a whole micro-unit; it is undefined for an empty
    /// collection.
    open spec fn spec_centroid(&self) -> Option<(int, int)> {
        if self@.len() == 0 {
            None
        } else {
            Some(
                (
                    trunc_div(sum_x(self@), self@.len() as int),
                    trunc_div(sum_y(self@), self@.len() as int),
                ),
            )
        }
    }

    /// A collection of points is simple when no two members coincide.
    open spec fn spec_is_simple(&self) -> bool {
        pairwise_distinct(self@)
    }

    fn centroid(&self) -> (r: Result<Point, GeometryError>) {
        let n = self.points.len();
        if n == 0 {
            return Err(GeometryError::EmptyCollection);
        }
        let mut sx: i128 = 0;
        let mut sy: i128 = 0;
        let mut i: usize = 0;
        while i < n
            invariant
                n == self.points@.len(),
                i <= n,
                sx == sum_x(self@.take(i as int)),
                sy == sum_y(self@.take(i as int)),
                -(i as int) * (COORD_LIMIT_MICROS as int) <= sx <= (i as int) * (
                COORD_LIMIT_MICROS as int),
                -(i as int) * (COORD_LIMIT_MICROS as int) <= sy <= (i as int) * (
                COORD_LIMIT_MICROS as int),
            decreases n - i,
        {
            let p = self.points[i];
            proof {
                use_type_invariant(&p.coord);
                lemma_sum_take_step(self@, i as int);
                assert(self@[i as int] == p@);
            }
            sx = sx + p.x().micros() as i128;
            sy = sy + p.y().micros() as i128;
            i = i + 1;
        }
        proof {
            assert(self@.take(n as int) =~= self@);
            lemma_trunc_div_bound(sx as int, n as int, COORD_LIMIT_MICROS as int);
            lemma_trunc_div_bound(sy as int, n as int, COORD_LIMIT_MICROS as int);
        }
        let qx = div_trunc_i128(sx, n as i128);
        let qy = div_trunc_i128(sy, n as i128);
        let cx = Scalar::from_micros(qx as i64);
        let cy = Scalar::from_micros(qy as i64);
        Ok(Point::from_coord(Coord::from_scalars(cx, cy)))
    }

    fn is_simple(&self) -> (r: bool) {
        let n = self.points.len();
        let mut i: usize = 0;
        while i < n
            invariant
                n == self.points@.len(),
                i <= n,
                forall|a: int, b: int|
                    0 <= a < b < n as int && a < i as int ==> self@[a] != self@[b],
            decreases n - i,
        {
            let mut j = i + 1;
            while j < n
                invariant
                    n == self.points@.len(),
                    i < n,
                    i + 1 <= j <= n,
                    forall|a: int, b: int|
                        0 <= a < b < n as int && a < i as int ==> self@[a] != self@[b],
                    forall|b: int| (i as int) < b < (j as int) ==> self@[i as int] != self@[b],
                decreases n - j,
            {
                if self.points[i] == self.points[j] {
                    proof {
                        assert(self@[i as int] == self@[j as int]);
                    }
                    return false;
                }
                proof {
                    if self@[i as int] == self@[j as int] {
                        lemma_point_value_determines(
                            self.points@[i as int],
                            self.points@[j as int],
                        );
                        assert(false);
                    }
                }
                j = j + 1;
            }
            i = i + 1;
        }
        true
    }
}

} // verus!
