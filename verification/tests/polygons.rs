use auto_gis_with_rust::error::GeometryError;
use auto_gis_with_rust::helpers::coords_from_ints;
use auto_gis_with_rust::polygon::{MultiPolygon, Polygon, PolygonRing};

#[test]
fn polygon_ring_closure_is_appended() {
    let ring = PolygonRing::new(coords_from_ints(vec![[0, 0], [0, 1], [1, 1]]).unwrap())
        .unwrap();
    assert_eq!(ring.num_points(), 4);
}

#[test]
fn polygon_ring_already_closed_is_kept() {
    let ring = PolygonRing::new(
        coords_from_ints(vec![[0, 0], [0, 1], [1, 1], [0, 0]]).unwrap(),
    )
    .unwrap();
    assert_eq!(ring.num_points(), 4);
}

#[test]
fn polygon_ring_closure_idempotent() {
    let open_ring = PolygonRing::new(coords_from_ints(vec![[0, 0], [0, 1], [1, 1]]).unwrap())
        .unwrap();
    let closed_ring = PolygonRing::new(
        coords_from_ints(vec![[0, 0], [0, 1], [1, 1], [0, 0]]).unwrap(),
    )
    .unwrap();
    assert_eq!(open_ring, closed_ring);
}

#[test]
fn polygon_ring_round_trip_int_vs_float_form() {
    let from_ints = PolygonRing::new(coords_from_ints(vec![[0, 0], [0, 1], [1, 1]]).unwrap())
        .unwrap();
    let closed = PolygonRing::new(
        coords_from_ints(vec![[0, 0], [0, 1], [1, 1], [0, 0]]).unwrap(),
    )
    .unwrap();
    assert_eq!(from_ints, closed);
}

#[test]
fn polygon_rings_with_different_coordinates_differ() {
    let a = PolygonRing::new(coords_from_ints(vec![[0, 0], [0, 1], [1, 1]]).unwrap())
        .unwrap();
    let b = PolygonRing::new(coords_from_ints(vec![[0, 0], [0, 2], [1, 1]]).unwrap())
        .unwrap();
    assert_ne!(a, b);
}

#[test]
fn polygon_ring_too_few_coordinates() {
    assert_eq!(
        PolygonRing::new(vec![]),
        Err(GeometryError::TooFewCoordinates(0))
    );
    assert_eq!(
        PolygonRing::new(coords_from_ints(vec![[0, 0]]).unwrap()),
        Err(GeometryError::TooFewCoordinates(1))
    );
    assert_eq!(
        PolygonRing::new(coords_from_ints(vec![[0, 0], [0, 1]]).unwrap()),
        Err(GeometryError::TooFewCoordinates(2))
    );
    assert!(PolygonRing::new(coords_from_ints(vec![[0, 0], [0, 1], [1, 1]]).unwrap()).is_ok());
}

#[test]
fn polygon_wkt() {
    let polygon = Polygon::new(vec![
        coords_from_ints(vec![[0, 0], [0, 1], [1, 1], [0, 0]]).unwrap(),
    ])
    .unwrap();
    assert_eq!(polygon.wkt(), "POLYGON ((0 0, 0 1, 1 1, 0 0))");
}

#[test]
fn polygon_closes_open_rings() {
    let polygon = Polygon::new(vec![
        coords_from_ints(vec![[0, 0], [0, 1], [1, 1]]).unwrap(),
    ])
    .unwrap();
    assert_eq!(polygon.wkt(), "POLYGON ((0 0, 0 1, 1 1, 0 0))");
}

#[test]
fn polygon_with_hole_wkt() {
    let polygon = Polygon::new(vec![
        coords_from_ints(vec![[0, 0], [0, 9], [9, 9], [9, 0]]).unwrap(),
        coords_from_ints(vec![[1, 1], [1, 2], [2, 2]]).unwrap(),
    ])
    .unwrap();
    assert_eq!(
        polygon.wkt(),
        "POLYGON ((0 0, 0 9, 9 9, 9 0, 0 0), (1 1, 1 2, 2 2, 1 1))"
    );
}

#[test]
fn polygon_reports_first_bad_ring() {
    let result = Polygon::new(vec![
        coords_from_ints(vec![[0, 0], [0, 1], [1, 1]]).unwrap(),
        coords_from_ints(vec![[5, 5], [6, 6]]).unwrap(),
        vec![],
    ]);
    assert_eq!(result, Err(GeometryError::TooFewCoordinates(2)));
}

#[test]
fn multi_polygon_wkt() {
    let polygon_1 = Polygon::new(vec![
        coords_from_ints(vec![[0, 0], [0, 1], [1, 1], [1, 0], [0, 0]]).unwrap(),
    ])
    .unwrap();
    let polygon_2 = Polygon::new(vec![
        coords_from_ints(vec![[1, 1], [1, 2], [2, 2], [2, 1]]).unwrap(),
    ])
    .unwrap();
    let multi_polygon = MultiPolygon::new(vec![polygon_1, polygon_2]);
    assert_eq!(
        multi_polygon.wkt(),
        "MULTIPOLYGON (((0 0, 0 1, 1 1, 1 0, 0 0)), ((1 1, 1 2, 2 2, 2 1, 1 1)))"
    );
}

#[test]
fn multi_polygon_try_from_nested_coordinates() {
    let multi_polygon = MultiPolygon::try_from(vec![
        vec![coords_from_ints(vec![[0, 0], [0, 1], [1, 1], [1, 0], [0, 0]]).unwrap()],
        vec![coords_from_ints(vec![[1, 1], [1, 2], [2, 2], [2, 1]]).unwrap()],
    ])
    .unwrap();
    assert_eq!(
        multi_polygon.wkt(),
        "MULTIPOLYGON (((0 0, 0 1, 1 1, 1 0, 0 0)), ((1 1, 1 2, 2 2, 2 1, 1 1)))"
    );
}

#[test]
fn multi_polygon_try_from_short_circuits() {
    let result = MultiPolygon::try_from(vec![
        vec![coords_from_ints(vec![[0, 0], [0, 1], [1, 1]]).unwrap()],
        vec![
            coords_from_ints(vec![[1, 1], [1, 2], [2, 2]]).unwrap(),
            coords_from_ints(vec![[9, 9], [8, 8]]).unwrap(),
        ],
        vec![vec![]],
    ]);
    assert_eq!(result, Err(GeometryError::TooFewCoordinates(2)));
}
