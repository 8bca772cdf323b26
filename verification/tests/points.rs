use auto_gis_with_rust::error::GeometryError;
use auto_gis_with_rust::point::{MultiPoint, Point};
use auto_gis_with_rust::scalar::Scalar;
use auto_gis_with_rust::traits::{Geometry, GeometryCollection};

#[test]
fn point_new_and_accessors() {
    let point = Point::from_ints(0, 1).unwrap();
    assert_eq!(point.x().micros(), 0);
    assert_eq!(point.y().micros(), 1_000_000);
    assert_eq!(point.wkt(), "POINT (0 1)");
}

#[test]
fn point_round_trip_int_vs_micros() {
    let from_ints = Point::from_ints(0, 1).unwrap();
    let from_micros =
        Point::new(Scalar::from_micros(0), Scalar::from_micros(1_000_000)).unwrap();
    assert_eq!(from_ints, from_micros);
}

#[test]
fn scalar_round_trip_int_vs_micros() {
    assert_eq!(
        Scalar::from_int(3).unwrap(),
        Scalar::from_micros(3_000_000)
    );
}

#[test]
fn scalar_from_int_out_of_range() {
    assert_eq!(
        Scalar::from_int(10_000_000_000_000),
        Err(GeometryError::UnrepresentableCoordinate)
    );
    assert!(Scalar::from_int(9_000_000_000_000).is_ok());
}

#[test]
fn point_from_ints_out_of_range() {
    assert_eq!(
        Point::from_ints(0, 3_000_000_000_000),
        Err(GeometryError::UnrepresentableCoordinate)
    );
}

#[test]
fn point_centroid_is_itself() {
    let point = Point::from_ints(0, 1).unwrap();
    let centroid = point.centroid().unwrap();
    assert_eq!(centroid.wkt(), "POINT (0 1)");
    assert_eq!(centroid, point);
}

#[test]
fn point_is_always_simple() {
    let point = Point::from_ints(4, -3).unwrap();
    assert!(point.is_simple());
}

#[test]
fn point_has_no_z_or_m() {
    let point = Point::from_ints(1, 2).unwrap();
    assert!(point.z().is_none());
    assert!(point.m().is_none());
}

#[test]
fn point_ordering_is_lexicographic() {
    let a = Point::from_ints(0, 1).unwrap();
    let b = Point::from_ints(1, 0).unwrap();
    let c = Point::from_ints(0, 2).unwrap();
    assert!(a < b);
    assert!(a < c);
    assert!(c < b);
    assert!(a <= a);
}

#[test]
fn point_negative_and_fractional_rendering() {
    let point = Point::new(
        Scalar::from_micros(-500_000),
        Scalar::from_micros(2_250_000),
    )
    .unwrap();
    assert_eq!(point.wkt(), "POINT (-0.5 2.25)");
}

#[test]
fn point_smallest_fraction_rendering() {
    let point = Point::new(Scalar::from_micros(1), Scalar::from_micros(0)).unwrap();
    assert_eq!(point.wkt(), "POINT (0.000001 0)");
}

#[test]
fn multi_point_wkt() {
    let multi_point = MultiPoint::from_ints(vec![[0, 0], [1, 0]]).unwrap();
    assert_eq!(multi_point.wkt(), "MULTIPOINT ((0 0), (1 0))");
}

#[test]
fn multi_point_empty_wkt() {
    let multi_point = MultiPoint::new(vec![]);
    assert_eq!(multi_point.wkt(), "MULTIPOINT ()");
}

#[test]
fn multi_point_member_access() {
    let multi_point = MultiPoint::from_ints(vec![[0, 0], [1, 0]]).unwrap();
    assert_eq!(multi_point.num_geometries(), 2);
    let point_0 = multi_point.geometry_n(0).unwrap();
    assert_eq!(point_0.wkt(), "POINT (0 0)");
    let point_1 = multi_point.geometry_n(1).unwrap();
    assert_eq!(point_1.wkt(), "POINT (1 0)");
}

#[test]
fn multi_point_index_out_of_bounds() {
    let multi_point = MultiPoint::from_ints(vec![[0, 0], [1, 0]]).unwrap();
    assert_eq!(
        multi_point.geometry_n(5),
        Err(GeometryError::IndexOutOfBounds(5))
    );
}

#[test]
fn multi_point_centroid_mean() {
    let multi_point = MultiPoint::from_ints(vec![[0, 0], [1, 0]]).unwrap();
    assert_eq!(multi_point.centroid().unwrap().wkt(), "POINT (0.5 0)");
}

#[test]
fn multi_point_centroid_truncates_toward_zero() {
    let multi_point = MultiPoint::from_ints(vec![[0, 0], [0, 0], [1, 0]]).unwrap();
    assert_eq!(
        multi_point.centroid().unwrap().wkt(),
        "POINT (0.333333 0)"
    );
}

#[test]
fn multi_point_empty_centroid_fails() {
    let multi_point = MultiPoint::new(vec![]);
    assert_eq!(multi_point.centroid(), Err(GeometryError::EmptyCollection));
}

#[test]
fn multi_point_simplicity() {
    let distinct = MultiPoint::from_ints(vec![[0, 0], [1, 0]]).unwrap();
    assert!(distinct.is_simple());
    let duplicated = MultiPoint::from_ints(vec![[0, 0], [0, 0]]).unwrap();
    assert!(!duplicated.is_simple());
}

#[test]
fn multi_point_round_trip_int_vs_micros() {
    let from_ints = MultiPoint::from_ints(vec![[0, 0], [1, 0]]).unwrap();
    let from_micros = MultiPoint::new(vec![
        Point::new(Scalar::from_micros(0), Scalar::from_micros(0)).unwrap(),
        Point::new(Scalar::from_micros(1_000_000), Scalar::from_micros(0)).unwrap(),
    ]);
    assert_eq!(from_ints, from_micros);
}
