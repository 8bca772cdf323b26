//! Polygon rings, polygons, and collections of polygons.

use vstd::prelude::*;
use vstd::string::StringExecFns;

use crate::error::GeometryError;
use crate::helpers;
use crate::scalar::{coord_views, lemma_coord_value_determines, Coord};
use crate::wkt;
use crate::wkt::{spec_coords_body, spec_join};

verus! {

/// The stored form of a ring's coordinates: if the first and the last
/// coordinate differ, the first is appended once more to force closure;
/// an already-closed sequence is kept as it is.
pub open spec fn spec_ring_normalize(s: Seq<(int, int)>) -> Seq<(int, int)> {
    if s.len() == 0 {
        s
    } else if s.first() == s.last() {
        s
    } else {
        s.push(s.first())
    }
}

/// Closing a ring by hand and letting construction close it give the same
/// stored sequence: normalizing an open ring equals normalizing that ring
/// with its first coordinate already appended.
pub proof fn lemma_ring_closure_idempotent(ring: Seq<(int, int)>)
    requires
        ring.len() >= 3,
        ring.first() != ring.last(),
    ensures
        spec_ring_normalize(ring) == spec_ring_normalize(ring.push(ring.first())),
{
    let closed = ring.push(ring.first());
    assert(closed.first() == ring.first());
    assert(closed.last() == ring.first());
}

/// The canonical text rendering of a polygon.
pub open spec fn spec_polygon_wkt(v: Seq<Seq<(int, int)>>) -> Seq<char> {
    "POLYGON ("@ + spec_rings_body(v) + ")"@
}

/// The comma-separated list of parenthesized ring renderings.
pub open spec fn spec_rings_body(v: Seq<Seq<(int, int)>>) -> Seq<char> {
    spec_join(v.map_values(|r: Seq<(int, int)>| "("@ + spec_coords_body(r) + ")"@), ", "@)
}

/// A closed ring of at least three coordinates, the building block of
/// polygon boundaries.
///
/// Its view is the stored micro-unit coordinate sequence, closure
/// included.
#[derive(Debug, Clone)]
pub struct PolygonRing {
    coords: Vec<Coord>,
}

impl PartialEq for PolygonRing {
    /// Structural equality: the same stored coordinate sequence, closure
    /// included, whatever inputs the two rings were built from.
    fn eq(&self, other: &PolygonRing) -> (r: bool) {
        helpers::coords_eq(&self.coords, &other.coords)
    }
}

impl vstd::std_specs::cmp::PartialEqSpecImpl for PolygonRing {
    open spec fn obeys_eq_spec() -> bool {
        true
    }

    open spec fn eq_spec(&self, other: &PolygonRing) -> bool {
        self@ == other@
    }
}

impl View for PolygonRing {
    type V = Seq<(int, int)>;

    closed spec fn view(&self) -> Seq<(int, int)> {
        coord_views(self.coords@)
    }
}

impl PolygonRing {
    /// A ring from its coordinates; fails, reporting the offending count,
    /// exactly when fewer than three are supplied.  When the first and
    /// last coordinates differ, the first is appended to close the ring,
    /// so the stored sequence holds one coordinate more than was given.
    pub fn new(coordinates: Vec<Coord>) -> (r: Result<PolygonRing, GeometryError>)
        ensures
            match r {
                Ok(ring) => {
                    &&& coordinates@.len() >= 3
                    &&& ring@ == spec_ring_normalize(coord_views(coordinates@))
                },
                Err(e) => {
                    &&& coordinates@.len() < 3
                    &&& e == GeometryError::TooFewCoordinates(coordinates@.len() as usize)
                },
            },
    {
        let n = coordinates.len();
        if n < 3 {
            return Err(GeometryError::TooFewCoordinates(n));
        }
        let first = coordinates[0];
        let last = coordinates[n - 1];
        let mut coords = coordinates;
        if first == last {
            proof {
                assert(coord_views(coords@).first() == coord_views(coords@).last());
            }
            Ok(PolygonRing { coords })
        } else {
            proof {
                if coord_views(coords@).first() == coord_views(coords@).last() {
                    lemma_coord_value_determines(first, last);
                    assert(false);
                }
            }
            coords.push(first);
            proof {
                assert(coord_views(coords@) =~= spec_ring_normalize(
                    coord_views(coords@.drop_last()),
                ));
            }
            Ok(PolygonRing { coords })
        }
    }

    /// How many coordinates the ring stores, the appended closure
    /// included: one more than was supplied when closure was forced.
    pub fn num_points(&self) -> (n: usize)
        ensures
            n == self@.len(),
    {
        self.coords.len()
    }

    /// The parenthesized coordinate list, for nesting inside polygon
    /// renderings.
    fn ring_text(&self) -> (r: String)
        ensures
            r@ == "("@ + spec_coords_body(self@) + ")"@,
    {
        let mut out = "(".to_owned();
        let body = wkt::coords_body_text(&self.coords);
        out.append(body.as_str());
        out.append(")");
        out
    }
}

/// An ordered collection of rings: by convention the first is the
/// exterior boundary and the rest are holes, though no such role is
/// enforced.
///
/// Its view is the sequence of the rings' stored coordinate sequences.
#[derive(Debug, Clone)]
pub struct Polygon {
    rings: Vec<PolygonRing>,
}

impl PartialEq for Polygon {
    /// Structural equality: the same rings in the same order.
    fn eq(&self, other: &Polygon) -> (r: bool) {
        let n = self.rings.len();
        if n != other.rings.len() {
            proof {
                assert(self@.len() != other@.len());
            }
            return false;
        }
        let mut i: usize = 0;
        while i < n
            invariant
                n == self.rings@.len(),
                n == other.rings@.len(),
                i <= n,
                forall|k: int| 0 <= k < i as int ==> self@[k] == other@[k],
            decreases n - i,
        {
            if !(self.rings[i] == other.rings[i]) {
                proof {
                    assert(self@[i as int] == self.rings@[i as int]@);
                    assert(other@[i as int] == other.rings@[i as int]@);
                }
                return false;
            }
            i = i + 1;
        }
        proof {
            assert(self@ =~= other@);
        }
        true
    }
}

impl vstd::std_specs::cmp::PartialEqSpecImpl for Polygon {
    open spec fn obeys_eq_spec() -> bool {
        true
    }

    open spec fn eq_spec(&self, other: &Polygon) -> bool {
        self@ == other@
    }
}

impl View for Polygon {
    type V = Seq<Seq<(int, int)>>;

    closed spec fn view(&self) -> Seq<Seq<(int, int)>> {
        self.rings@.map_values(|r: PolygonRing| r@)
    }
}

impl Polygon {
    /// A polygon built by validating every raw ring in order; fails with
    /// the first too-short ring's coordinate count.
    pub fn new(rings: Vec<Vec<Coord>>) -> (r: Result<Polygon, GeometryError>)
        ensures
            match r {
                Ok(p) => {
                    &&& (forall|i: int|
                        0 <= i < rings@.len() ==> #[trigger] rings@[i]@.len() >= 3)
                    &&& p@ == rings@.map_values(
                        |v: Vec<Coord>| spec_ring_normalize(coord_views(v@)),
                    )
                },
                Err(e) => (exists|i: int|
                    {
                        &&& 0 <= i < rings@.len()
                        &&& #[trigger] rings@[i]@.len() < 3
                        &&& e == GeometryError::TooFewCoordinates(rings@[i]@.len() as usize)
                        &&& (forall|j: int| 0 <= j < i ==> #[trigger] rings@[j]@.len() >= 3)
                    }),
            },
    {
        let n = rings.len();
        let mut built: Vec<PolygonRing> = Vec::new();
        let mut i: usize = 0;
        while i < n
            invariant
                n == rings@.len(),
                i <= n,
                built@.len() == i as int,
                forall|k: int|
                    0 <= k < i as int ==> #[trigger] rings@[k]@.len() >= 3 && built@[k]@
                        == spec_ring_normalize(coord_views(rings@[k]@)),
            decreases n - i,
        {
            let coords = helpers::copy_coords(&rings[i]);
            match PolygonRing::new(coords) {
                Ok(ring) => {
                    built.push(ring);
                },
                Err(e) => {
                    return Err(e);
                },
            }
            i = i + 1;
        }
        let p = Polygon { rings: built };
        proof {
            assert(p@ =~= rings@.map_values(|v: Vec<Coord>| spec_ring_normalize(coord_views(v@))));
        }
        Ok(p)
    }

    /// The canonical `POLYGON ((...), (...))` rendering.
    pub fn wkt(&self) -> (r: String)
        ensures
            r@ == spec_polygon_wkt(self@),
    {
        let body = self.rings_body();
        let mut out = "POLYGON (".to_owned();
        out.append(body.as_str());
        out.append(")");
        out
    }

    /// The comma-separated ring list, for nesting inside collection
    /// renderings.
    fn rings_body(&self) -> (r: String)
        ensures
            r@ == spec_rings_body(self@),
    {
        let n = self.rings.len();
        let mut parts: Vec<String> = Vec::new();
        let mut i: usize = 0;
        while i < n
            invariant
                n == self.rings@.len(),
                i <= n,
                parts@.len() == i as int,
                forall|k: int|
                    0 <= k < i as int ==> parts@[k]@ == "("@ + spec_coords_body(self@[k]) + ")"@,
            decreases n - i,
        {
            parts.push(self.rings[i].ring_text());
            i = i + 1;
        }
        let joined = wkt::join_with(&parts, ", ");
        proof {
            assert(parts@.map_values(|s: String| s@) =~= self@.map_values(
                |r: Seq<(int, int)>| "("@ + spec_coords_body(r) + ")"@,
            ));
        }
        joined
    }
}

/// The canonical text rendering of a collection of polygons.
pub open spec fn spec_multipolygon_wkt(v: Seq<Seq<Seq<(int, int)>>>) -> Seq<char> {
    "MULTIPOLYGON ("@ + spec_join(
        v.map_values(|p: Seq<Seq<(int, int)>>| "("@ + spec_rings_body(p) + ")"@),
        ", "@,
    ) + ")"@
}

/// An ordered collection of polygons.
///
/// Its view is the sequence of the members' views.
#[derive(Debug, Clone)]
pub struct MultiPolygon {
    polygons: Vec<Polygon>,
}

impl PartialEq for MultiPolygon {
    /// Structural equality: the same member polygons in the same order.
    fn eq(&self, other: &MultiPolygon) -> (r: bool) {
        let n = self.polygons.len();
        if n != other.polygons.len() {
            proof {
                assert(self@.len() != other@.len());
            }
            return false;
        }
        let mut i: usize = 0;
        while i < n
            invariant
                n == self.polygons@.len(),
                n == other.polygons@.len(),
                i <= n,
                forall|k: int| 0 <= k < i as int ==> self@[k] == other@[k],
            decreases n - i,
        {
            if !(self.polygons[i] == other.polygons[i]) {
                proof {
                    assert(self@[i as int] == self.polygons@[i as int]@);
                    assert(other@[i as int] == other.polygons@[i as int]@);
                }
                return false;
            }
            i = i + 1;
        }
        proof {
            assert(self@ =~= other@);
        }
        true
    }
}

impl vstd::std_specs::cmp::PartialEqSpecImpl for MultiPolygon {
    open spec fn obeys_eq_spec() -> bool {
        true
    }

    open spec fn eq_spec(&self, other: &MultiPolygon) -> bool {
        self@ == other@
    }
}

impl View for MultiPolygon {
    type V = Seq<Seq<Seq<(int, int)>>>;

    closed spec fn view(&self) -> Seq<Seq<Seq<(int, int)>>> {
        self.polygons@.map_values(|p: Polygon| p@)
    }
}

/// Whether every raw ring of one polygon's input has enough coordinates.
pub open spec fn rings_all_valid(rs: Seq<Vec<Coord>>) -> bool {
    forall|i: int| 0 <= i < rs.len() ==> #[trigger] rs[i]@.len() >= 3
}

impl MultiPolygon {
    /// A collection from pre-built polygons; always succeeds.
    pub fn new(polygons: Vec<Polygon>) -> (m: MultiPolygon)
        ensures
            m@ == polygons@.map_values(|p: Polygon| p@),
    {
        MultiPolygon { polygons }
    }

    /// A collection built by validating every nested polygon in order;
    /// fails with the first too-short ring's coordinate count, taken from
    /// the first polygon that holds one.
    pub fn try_from(polygons: Vec<Vec<Vec<Coord>>>) -> (r: Result<MultiPolygon, GeometryError>)
        ensures
            match r {
                Ok(m) => {
                    &&& (forall|i: int|
                        0 <= i < polygons@.len() ==> rings_all_valid(#[trigger] polygons@[i]@))
                    &&& m@ == polygons@.map_values(
                        |pv: Vec<Vec<Coord>>|
                            pv@.map_values(
                                |v: Vec<Coord>| spec_ring_normalize(coord_views(v@)),
                            ),
                    )
                },
                Err(e) => (exists|i: int|
                    {
                        &&& 0 <= i < polygons@.len()
                        &&& !rings_all_valid(#[trigger] polygons@[i]@)
                        &&& (forall|j: int|
                            0 <= j < i ==> rings_all_valid(#[trigger] polygons@[j]@))
                        &&& (exists|k: int|
                            {
                                &&& 0 <= k < polygons@[i]@.len()
                                &&& #[trigger] polygons@[i]@[k]@.len() < 3
                                &&& e == GeometryError::TooFewCoordinates(
                                    polygons@[i]@[k]@.len() as usize,
                                )
                                &&& (forall|l: int|
                                    0 <= l < k ==> #[trigger] polygons@[i]@[l]@.len() >= 3)
                            })
                    }),
            },
    {
        let n = polygons.len();
        let mut built: Vec<Polygon> = Vec::new();
        let mut i: usize = 0;
        while i < n
            invariant
                n == polygons@.len(),
                i <= n,
                built@.len() == i as int,
                forall|k: int|
                    0 <= k < i as int ==> rings_all_valid(#[trigger] polygons@[k]@) && built@[k]@
                        == polygons@[k]@.map_values(
                        |v: Vec<Coord>| spec_ring_normalize(coord_views(v@)),
                    ),
            decreases n - i,
        {
            let group = &polygons[i];
            let m = group.len();
            let mut ring_vec: Vec<PolygonRing> = Vec::new();
            let mut k: usize = 0;
            while k < m
                invariant
                    n == polygons@.len(),
                    i < n,
                    m == polygons@[i as int]@.len(),
                    group@ == polygons@[i as int]@,
                    k <= m,
                    ring_vec@.len() == k as int,
                    forall|j: int|
                        0 <= j < i as int ==> rings_all_valid(#[trigger] polygons@[j]@),
                    forall|l: int|
                        0 <= l < k as int ==> #[trigger] polygons@[i as int]@[l]@.len() >= 3
                            && ring_vec@[l]@ == spec_ring_normalize(
                            coord_views(polygons@[i as int]@[l]@),
                        ),
                decreases m - k,
            {
                let coords = helpers::copy_coords(&group[k]);
                match PolygonRing::new(coords) {
                    Ok(ring) => {
                        ring_vec.push(ring);
                    },
                    Err(e) => {
                        proof {
                            assert(polygons@[i as int]@[k as int]@.len() < 3);
                            assert(!rings_all_valid(polygons@[i as int]@));
                        }
                        return Err(e);
                    },
                }
                k = k + 1;
            }
            let p = Polygon { rings: ring_vec };
            proof {
                assert(p@ =~= polygons@[i as int]@.map_values(
                    |v: Vec<Coord>| spec_ring_normalize(coord_views(v@)),
                ));
            }
            built.push(p);
            i = i + 1;
        }
        let m = MultiPolygon { polygons: built };
        proof {
            assert(m@ =~= polygons@.map_values(
                |pv: Vec<Vec<Coord>>|
                    pv@.map_values(|v: Vec<Coord>| spec_ring_normalize(coord_views(v@))),
            ));
        }
        Ok(m)
    }

    /// The canonical `MULTIPOLYGON (((...)), ((...)))` rendering.
    pub fn wkt(&self) -> (r: String)
        ensures
            r@ == spec_multipolygon_wkt(self@),
    {
        let n = self.polygons.len();
        let mut parts: Vec<String> = Vec::new();
        let mut i: usize = 0;
        while i < n
            invariant
                n == self.polygons@.len(),
                i <= n,
                parts@.len() == i as int,
                forall|k: int|
                    0 <= k < i as int ==> parts@[k]@ == "("@ + spec_rings_body(self@[k]) + ")"@,
            decreases n - i,
        {
            let mut part = "(".to_owned();
            let body = self.polygons[i].rings_body();
            part.append(body.as_str());
            part.append(")");
            parts.push(part);
            i = i + 1;
        }
        let joined = wkt::join_with(&parts, ", ");
        proof {
            assert(parts@.map_values(|s: String| s@) =~= self@.map_values(
                |p: Seq<Seq<(int, int)>>| "("@ + spec_rings_body(p) + ")"@,
            ));
        }
        let mut out = "MULTIPOLYGON (".to_owned();
        out.append(joined.as_str());
        out.append(")");
        out
    }
}

} // verus!
