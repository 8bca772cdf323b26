use vstd::prelude::*;

use crate::error::GeometryError;

verus! {

/// Number of micro-units in one coordinate unit.
pub const MICROS_PER_UNIT: i64 = 1_000_000;

/// Largest magnitude, in micro-units, that a stored coordinate component may
/// have (2^61).  The slack below `i64::MAX` guarantees that the deltas,
/// midpoints, coordinate means and Euclidean lengths derived from in-range
/// coordinates all fit in an `i64` count of micro-units.
pub const COORD_LIMIT_MICROS: i64 = 2_305_843_009_213_693_952;

/// An exact scalar: a signed count of micro-units, standing for the value
/// `micros / 1_000_000`.  One unit is split into a million micro-units, so
/// every decimal with at most six fractional digits is stored exactly and
/// two scalars are equal exactly when they stand for the same value.
#[derive(Debug, Clone, Copy, PartialEq, Eq, Structural)]
pub struct Scalar {
    micros: i64,
}

impl View for Scalar {
    type V = int;

    closed spec fn view(&self) -> int {
        self.micros as int
    }
}

impl Scalar {
    /// The exact scalar standing for `micros / 1_000_000`.
    pub fn from_micros(micros: i64) -> (s: Scalar)
        ensures
            s@ == micros as int,
    {
        Scalar { micros }
    }

    /// The exact scalar standing for the whole number `value`; fails when
    /// `value` is too large in magnitude for the micro-unit representation.
    pub fn from_int(value: i64) -> (r: Result<Scalar, GeometryError>)
        ensures
            match r {
                Ok(s) => {
                    &&& s@ == value * MICROS_PER_UNIT
                    &&& i64::MIN <= value * MICROS_PER_UNIT <= i64::MAX
                },
                Err(e) => {
                    &&& e == GeometryError::UnrepresentableCoordinate
                    &&& !(i64::MIN <= value * MICROS_PER_UNIT <= i64::MAX)
                },
            },
    {
        match value.checked_mul(MICROS_PER_UNIT) {
            Some(micros) => Ok(Scalar { micros }),
            None => Err(GeometryError::UnrepresentableCoordinate),
        }
    }

    /// The stored count of micro-units.
    pub fn micros(&self) -> (m: i64)
        ensures
            m as int == self@,
    {
        self.micros
    }
}

/// Two scalars standing for the same value are the same scalar: the
/// micro-unit representation gives every value exactly one form, so a
/// geometry built from integer inputs and one built from the equivalent
/// fractional inputs hold identical coordinates.
pub proof fn lemma_scalar_value_determines(a: Scalar, b: Scalar)
    requires
        a@ == b@,
    ensures
        a == b,
{
}

/// Round-trip invariant of numeric coercion: a scalar built from the
/// whole number `value` and one built from the equivalent micro-unit
/// count `value * MICROS_PER_UNIT` are the same scalar, as the contracts
/// of `Scalar::from_int` and `Scalar::from_micros` pin both sides to the
/// same stored count.
pub proof fn lemma_coercion_round_trip(int_built: Scalar, micros_built: Scalar, value: i64)
    requires
        int_built@ == value * MICROS_PER_UNIT,
        micros_built@ == value * MICROS_PER_UNIT,
    ensures
        int_built == micros_built,
{
    lemma_scalar_value_determines(int_built, micros_built);
}

/// Integer division truncating toward zero, the rounding used for
/// micro-unit midpoints and means.
pub open spec fn trunc_div(a: int, b: int) -> int
    recommends
        b > 0,
{
    if a >= 0 {
        a / b
    } else {
        -((-a) / b)
    }
}

/// Dividing a non-negative value by a positive one can only shrink it.
pub proof fn lemma_div_le(a: int, b: int)
    requires
        0 <= a,
        1 <= b,
    ensures
        0 <= a / b <= a,
{
    vstd::arithmetic::div_mod::lemma_fundamental_div_mod(a, b);
    let q = a / b;
    let r = a % b;
    assert(q >= 0) by (nonlinear_arith)
        requires
            b * q + r == a,
            0 <= r < b,
            a >= 0,
            b > 0,
    ;
    assert(q <= a) by (nonlinear_arith)
        requires
            b * q + r == a,
            0 <= r,
            b >= 1,
            q >= 0,
    ;
}

/// A quotient of a value bounded by `m * b` is bounded by `m`.
pub proof fn lemma_div_le_bound(a: int, b: int, m: int)
    requires
        0 <= a,
        0 < b,
        a <= m * b,
    ensures
        0 <= a / b <= m,
{
    vstd::arithmetic::div_mod::lemma_fundamental_div_mod(a, b);
    let q = a / b;
    let r = a % b;
    assert(q >= 0) by (nonlinear_arith)
        requires
            b * q + r == a,
            0 <= r < b,
            a >= 0,
            b > 0,
    ;
    assert(q <= m) by (nonlinear_arith)
        requires
            b * q + r == a,
            0 <= r < b,
            a <= m * b,
            b > 0,
    ;
}

/// Truncating division keeps any symmetric magnitude bound of the dividend.
pub proof fn lemma_trunc_div_bound(a: int, b: int, m: int)
    requires
        b > 0,
        0 <= m,
        -(m * b) <= a <= m * b,
    ensures
        -m <= trunc_div(a, b) <= m,
{
    if a >= 0 {
        lemma_div_le_bound(a, b, m);
    } else {
        lemma_div_le_bound(-a, b, m);
    }
}

/// `r` is the integer square root of `n`, rounded down.
pub open spec fn is_sqrt_floor(n: int, r: int) -> bool {
    0 <= r && r * r <= n && n < (r + 1) * (r + 1)
}

/// A number has exactly one rounded-down integer square root, so a
/// contract stated through `is_sqrt_floor` pins its result completely.
pub proof fn lemma_sqrt_floor_unique(n: int, a: int, b: int)
    requires
        is_sqrt_floor(n, a),
        is_sqrt_floor(n, b),
    ensures
        a == b,
{
    if a < b {
        assert((a + 1) * (a + 1) <= b * b) by (nonlinear_arith)
            requires
                0 <= a,
                0 <= b,
                a < b,
        ;
    }
    if b < a {
        assert((b + 1) * (b + 1) <= a * a) by (nonlinear_arith)
            requires
                0 <= a,
                0 <= b,
                b < a,
        ;
    }
}

/// Truncating division on machine integers, through unsigned magnitudes.
pub(crate) fn div_trunc_i128(a: i128, b: i128) -> (q: i128)
    requires
        b > 0,
        a > i128::MIN,
    ensures
        q as int == trunc_div(a as int, b as int),
{
    if a >= 0 {
        proof {
            lemma_div_le(a as int, b as int);
        }
        ((a as u128) / (b as u128)) as i128
    } else {
        let m = -a;
        proof {
            lemma_div_le(m as int, b as int);
        }
        -(((m as u128) / (b as u128)) as i128)
    }
}

/// True when a micro-unit count is small enough to be stored as a
/// coordinate component.
pub open spec fn coord_in_range(micros: int) -> bool {
    -(COORD_LIMIT_MICROS as int) <= micros <= COORD_LIMIT_MICROS as int
}

/// A two-dimensional coordinate: an exact pair of in-range scalars.
///
/// Its view is the pair `(x, y)` of micro-unit counts.
#[derive(Debug, Clone, Copy, PartialEq, Eq, Structural)]
pub struct Coord {
    x: Scalar,
    y: Scalar,
}

impl View for Coord {
    type V = (int, int);

    closed spec fn view(&self) -> (int, int) {
        (self.x@, self.y@)
    }
}

impl Coord {
    /// Both components of every stored coordinate are bounded by
    /// `COORD_LIMIT_MICROS` in magnitude.
    #[verifier::type_invariant]
    pub open spec fn wf(&self) -> bool {
        coord_in_range(self@.0) && coord_in_range(self@.1)
    }

    /// A coordinate from two scalars; fails when either component is out of
    /// the storable range.
    pub fn new(x: Scalar, y: Scalar) -> (r: Result<Coord, GeometryError>)
        ensures
            match r {
                Ok(c) => {
                    &&& c@ == (x@, y@)
                    &&& coord_in_range(x@)
                    &&& coord_in_range(y@)
                },
                Err(e) => {
                    &&& e == GeometryError::UnrepresentableCoordinate
                    &&& !(coord_in_range(x@) && coord_in_range(y@))
                },
            },
    {
        if -COORD_LIMIT_MICROS <= x.micros && x.micros <= COORD_LIMIT_MICROS
            && -COORD_LIMIT_MICROS <= y.micros && y.micros <= COORD_LIMIT_MICROS {
            Ok(Coord { x, y })
        } else {
            Err(GeometryError::UnrepresentableCoordinate)
        }
    }

    /// A coordinate from two whole numbers; fails when either is too large
    /// in magnitude to be stored.
    pub fn from_ints(x: i64, y: i64) -> (r: Result<Coord, GeometryError>)
        ensures
            match r {
                Ok(c) => {
                    &&& c@ == (x * MICROS_PER_UNIT, y * MICROS_PER_UNIT)
                    &&& coord_in_range(x * MICROS_PER_UNIT)
                    &&& coord_in_range(y * MICROS_PER_UNIT)
                },
                Err(e) => {
                    &&& e == GeometryError::UnrepresentableCoordinate
                    &&& !(coord_in_range(x * MICROS_PER_UNIT)
                        && coord_in_range(y * MICROS_PER_UNIT))
                },
            },
    {
        match (Scalar::from_int(x), Scalar::from_int(y)) {
            (Ok(sx), Ok(sy)) => Coord::new(sx, sy),
            _ => Err(GeometryError::UnrepresentableCoordinate),
        }
    }

    /// A coordinate from two scalars already known to be in range.
    pub(crate) fn from_scalars(x: Scalar, y: Scalar) -> (c: Coord)
        requires
            coord_in_range(x@),
            coord_in_range(y@),
        ensures
            c@ == (x@, y@),
    {
        Coord { x, y }
    }

    /// The x component.
    pub fn x(&self) -> (s: Scalar)
        ensures
            s@ == self@.0,
    {
        self.x
    }

    /// The y component.
    pub fn y(&self) -> (s: Scalar)
        ensures
            s@ == self@.1,
    {
        self.y
    }
}

/// The micro-unit views of a sequence of stored coordinates.
pub open spec fn coord_views(s: Seq<Coord>) -> Seq<(int, int)> {
    s.map_values(|c: Coord| c@)
}

/// Two coordinates standing for the same pair of values are the same
/// coordinate, whatever inputs they were built from.
pub proof fn lemma_coord_value_determines(a: Coord, b: Coord)
    requires
        a@ == b@,
    ensures
        a == b,
{
}

} // verus!
