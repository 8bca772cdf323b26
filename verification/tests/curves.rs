use auto_gis_with_rust::error::GeometryError;
use auto_gis_with_rust::helpers::coords_from_ints;
use auto_gis_with_rust::line_string::{LineSegment, LineString, MultiLineString};
use auto_gis_with_rust::scalar::{Coord, Scalar};
use auto_gis_with_rust::traits::{Curve, Geometry, LineString as LineStringTrait};

fn segment(pairs: Vec<[i64; 2]>) -> LineSegment {
    let coords = coords_from_ints(pairs).unwrap();
    LineSegment::new([coords[0], coords[1]])
}

#[test]
fn line_segment_wkt() {
    let line_segment = segment(vec![[0, 0], [1, 1]]);
    assert_eq!(line_segment.wkt(), "LINESTRING (0 0, 1 1)");
}

#[test]
fn line_segment_round_trip_int_vs_micros() {
    let from_ints = segment(vec![[0, 0], [1, 1]]);
    let c0 = Coord::new(Scalar::from_micros(0), Scalar::from_micros(0)).unwrap();
    let c1 = Coord::new(Scalar::from_micros(1_000_000), Scalar::from_micros(1_000_000)).unwrap();
    let from_micros = LineSegment::new([c0, c1]);
    assert_eq!(from_ints, from_micros);
}

#[test]
fn line_segment_component_lengths() {
    let line_segment = segment(vec![[0, 0], [4, 3]]);
    assert_eq!(line_segment.x_length().micros(), 4_000_000);
    assert_eq!(line_segment.y_length().micros(), 3_000_000);
}

#[test]
fn line_segment_component_lengths_are_signed() {
    let line_segment = segment(vec![[4, 3], [0, 0]]);
    assert_eq!(line_segment.x_length().micros(), -4_000_000);
    assert_eq!(line_segment.y_length().micros(), -3_000_000);
}

#[test]
fn line_segment_length_three_four_five() {
    let line_segment = segment(vec![[0, 0], [4, 3]]);
    assert_eq!(line_segment.length().micros(), 5_000_000);
}

#[test]
fn line_segment_length_rounds_down() {
    let line_segment = segment(vec![[0, 0], [1, 1]]);
    assert_eq!(line_segment.length().micros(), 1_414_213);
}

#[test]
fn line_segment_centroid_midpoint() {
    let line_segment = segment(vec![[0, 0], [4, 3]]);
    assert_eq!(line_segment.centroid().unwrap().wkt(), "POINT (2 1.5)");
}

#[test]
fn line_segment_centroid_offset_start() {
    let line_segment = segment(vec![[2, 2], [4, 4]]);
    assert_eq!(line_segment.centroid().unwrap().wkt(), "POINT (3 3)");
}

#[test]
fn line_segment_simplicity() {
    let plain = segment(vec![[0, 0], [4, 3]]);
    assert!(plain.is_simple());
    let degenerate = segment(vec![[0, 0], [0, 0]]);
    assert!(degenerate.is_simple());
}

#[test]
fn line_segment_closed_and_ring() {
    let open_segment = segment(vec![[0, 0], [1, 1]]);
    assert!(!open_segment.is_closed());
    assert!(!open_segment.is_ring());
    let closed_segment = segment(vec![[0, 0], [0, 0]]);
    assert!(closed_segment.is_closed());
    assert!(closed_segment.is_ring());
}

#[test]
fn line_segment_endpoints() {
    let line_segment = segment(vec![[0, 0], [1, 1]]);
    assert_eq!(line_segment.start_point().wkt(), "POINT (0 0)");
    assert_eq!(line_segment.end_point().wkt(), "POINT (1 1)");
}

#[test]
fn line_segment_point_access() {
    let line_segment = segment(vec![[0, 0], [1, 1]]);
    assert_eq!(line_segment.num_points(), 2);
    assert_eq!(line_segment.point_n(0).unwrap().wkt(), "POINT (0 0)");
    assert_eq!(line_segment.point_n(1).unwrap().wkt(), "POINT (1 1)");
    assert_eq!(
        line_segment.point_n(2),
        Err(GeometryError::IndexOutOfBounds(2))
    );
}

#[test]
fn line_string_wkt() {
    let coords = coords_from_ints(vec![[0, 0], [1, 0], [1, 1]]).unwrap();
    let line_string = LineString::new(coords).unwrap();
    assert_eq!(line_string.wkt(), "LINESTRING (0 0, 1 0, 1 1)");
}

#[test]
fn line_string_round_trip_int_vs_micros() {
    let from_ints = LineString::new(coords_from_ints(vec![[0, 0], [1, 0], [1, 1]]).unwrap())
        .unwrap();
    let micros = vec![
        Coord::new(Scalar::from_micros(0), Scalar::from_micros(0)).unwrap(),
        Coord::new(Scalar::from_micros(1_000_000), Scalar::from_micros(0)).unwrap(),
        Coord::new(Scalar::from_micros(1_000_000), Scalar::from_micros(1_000_000)).unwrap(),
    ];
    let from_micros = LineString::new(micros).unwrap();
    assert_eq!(from_ints, from_micros);
}

#[test]
fn line_strings_with_different_coordinates_differ() {
    let a = LineString::new(coords_from_ints(vec![[0, 0], [1, 1]]).unwrap()).unwrap();
    let b = LineString::new(coords_from_ints(vec![[0, 0], [1, 2]]).unwrap()).unwrap();
    let c = LineString::new(coords_from_ints(vec![[0, 0], [1, 1], [2, 2]]).unwrap()).unwrap();
    assert_ne!(a, b);
    assert_ne!(a, c);
}

#[test]
fn line_string_too_few_coordinates() {
    assert_eq!(
        LineString::new(vec![]),
        Err(GeometryError::TooFewCoordinates(0))
    );
    let one = coords_from_ints(vec![[0, 0]]).unwrap();
    assert_eq!(
        LineString::new(one),
        Err(GeometryError::TooFewCoordinates(1))
    );
    let two = coords_from_ints(vec![[0, 0], [1, 1]]).unwrap();
    assert!(LineString::new(two).is_ok());
}

#[test]
fn multi_line_string_wkt() {
    let line_string_1 = LineString::new(coords_from_ints(vec![[0, 0], [1, 0], [1, 1]]).unwrap())
        .unwrap();
    let line_string_2 = LineString::new(coords_from_ints(vec![[1, 2], [0, 2], [0, 1]]).unwrap())
        .unwrap();
    let multi_line_string = MultiLineString::new(vec![line_string_1, line_string_2]);
    assert_eq!(
        multi_line_string.wkt(),
        "MULTILINESTRING ((0 0, 1 0, 1 1), (1 2, 0 2, 0 1))"
    );
}

#[test]
fn multi_line_string_try_from_nested_coordinates() {
    let multi_line_string = MultiLineString::try_from(vec![
        coords_from_ints(vec![[0, 0], [1, 0], [1, 1]]).unwrap(),
        coords_from_ints(vec![[1, 2], [0, 2], [0, 1]]).unwrap(),
    ])
    .unwrap();
    assert_eq!(
        multi_line_string.wkt(),
        "MULTILINESTRING ((0 0, 1 0, 1 1), (1 2, 0 2, 0 1))"
    );
}

#[test]
fn multi_line_string_try_from_short_circuits() {
    let result = MultiLineString::try_from(vec![
        coords_from_ints(vec![[0, 0], [1, 0]]).unwrap(),
        coords_from_ints(vec![[5, 5]]).unwrap(),
        vec![],
    ]);
    assert_eq!(result, Err(GeometryError::TooFewCoordinates(1)));
}
