//! Conversion of raw integer coordinate pairs into stored coordinates.
//!
//! Whole-number inputs are the one numeric form the library coerces
//! itself; fractional inputs are expected as ready-made [`Coord`] values
//! built from micro-unit counts.

use vstd::prelude::*;

use crate::error::GeometryError;
use crate::scalar::{
    coord_in_range, coord_views, lemma_coord_value_determines, Coord, MICROS_PER_UNIT,
};

verus! {

/// Whether both components of an integer coordinate pair can be stored.
pub open spec fn int_pair_in_range(p: [i64; 2]) -> bool {
    coord_in_range(p@[0] * MICROS_PER_UNIT) && coord_in_range(p@[1] * MICROS_PER_UNIT)
}

/// Whether every pair in a sequence of integer coordinates can be stored.
pub open spec fn int_coords_in_range(s: Seq<[i64; 2]>) -> bool {
    forall|i: int| 0 <= i < s.len() ==> int_pair_in_range(s[i])
}

/// The micro-unit values of a sequence of integer coordinate pairs.
pub open spec fn int_coords_to_micros(s: Seq<[i64; 2]>) -> Seq<(int, int)> {
    s.map_values(|p: [i64; 2]| (p@[0] * MICROS_PER_UNIT as int, p@[1] * MICROS_PER_UNIT as int))
}

/// Convert a vector of integer coordinate pairs into the equivalent vector
/// of exact stored coordinates, failing when some pair is too large in
/// magnitude to be stored.
pub fn coords_from_ints(coordinates: Vec<[i64; 2]>) -> (r: Result<Vec<Coord>, GeometryError>)
    ensures
        match r {
            Ok(cs) => {
                &&& int_coords_in_range(coordinates@)
                &&& coord_views(cs@) == int_coords_to_micros(coordinates@)
            },
            Err(e) => {
                &&& e == GeometryError::UnrepresentableCoordinate
                &&& !int_coords_in_range(coordinates@)
            },
        },
{
    let n = coordinates.len();
    let mut cs: Vec<Coord> = Vec::new();
    let mut i: usize = 0;
    while i < n
        invariant
            n == coordinates@.len(),
            i <= n,
            cs@.len() == i as int,
            forall|k: int|
                0 <= k < i as int ==> int_pair_in_range(coordinates@[k]) && cs@[k]@ == (
                coordinates@[k]@[0] * MICROS_PER_UNIT,
                coordinates@[k]@[1] * MICROS_PER_UNIT,
                ),
        decreases n - i,
    {
        let pair = coordinates[i];
        match Coord::from_ints(pair[0], pair[1]) {
            Ok(c) => {
                cs.push(c);
            },
            Err(e) => {
                proof {
                    assert(!int_pair_in_range(coordinates@[i as int]));
                }
                return Err(e);
            },
        }
        i = i + 1;
    }
    proof {
        assert(coord_views(cs@) =~= int_coords_to_micros(coordinates@));
    }
    Ok(cs)
}

/// Whether two coordinate vectors store the same values, position by
/// position.
pub(crate) fn coords_eq(a: &Vec<Coord>, b: &Vec<Coord>) -> (r: bool)
    ensures
        r == (coord_views(a@) == coord_views(b@)),
{
    let n = a.len();
    if n != b.len() {
        proof {
            assert(coord_views(a@).len() != coord_views(b@).len());
        }
        return false;
    }
    let mut i: usize = 0;
    while i < n
        invariant
            n == a@.len(),
            n == b@.len(),
            i <= n,
            forall|k: int| 0 <= k < i as int ==> coord_views(a@)[k] == coord_views(b@)[k],
        decreases n - i,
    {
        if !(a[i] == b[i]) {
            proof {
                if coord_views(a@)[i as int] == coord_views(b@)[i as int] {
                    lemma_coord_value_determines(a@[i as int], b@[i as int]);
                    assert(false);
                }
            }
            return false;
        }
        i = i + 1;
    }
    proof {
        assert(coord_views(a@) =~= coord_views(b@));
    }
    true
}

/// An owned copy of a borrowed coordinate vector.
pub fn copy_coords(coordinates: &Vec<Coord>) -> (r: Vec<Coord>)
    ensures
        r@ == coordinates@,
{
    let n = coordinates.len();
    let mut r: Vec<Coord> = Vec::new();
    let mut i: usize = 0;
    while i < n
        invariant
            n == coordinates@.len(),
            i <= n,
            r@ == coordinates@.take(i as int),
        decreases n - i,
    {
        r.push(coordinates[i]);
        proof {
            assert(coordinates@.take(i as int).push(coordinates@[i as int])
                =~= coordinates@.take(i + 1));
        }
        i = i + 1;
    }
    proof {
        assert(coordinates@.take(n as int) =~= coordinates@);
    }
    r
}

} // verus!
