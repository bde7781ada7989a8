use tempest::polygon::{parse_coord_micro, parse_polygon_vertices, parse_vertex, point_in_polygon};

#[test]
fn coordinates_read_as_microdegrees() {
    assert_eq!(parse_coord_micro("45.5"), Some(45_500_000));
    assert_eq!(parse_coord_micro("-73.5673"), Some(-73_567_300));
    assert_eq!(parse_coord_micro("0"), Some(0));
    assert_eq!(parse_coord_micro("180"), Some(180_000_000));
    assert_eq!(parse_coord_micro("45."), Some(45_000_000));
    assert_eq!(parse_coord_micro(".5"), Some(500_000));
}

#[test]
fn fraction_beyond_six_digits_truncates() {
    assert_eq!(parse_coord_micro("1.23456789"), Some(1_234_567));
}

#[test]
fn malformed_coordinates_rejected() {
    assert_eq!(parse_coord_micro(""), None);
    assert_eq!(parse_coord_micro("-"), None);
    assert_eq!(parse_coord_micro("."), None);
    assert_eq!(parse_coord_micro("1e3"), None);
    assert_eq!(parse_coord_micro("12.3.4"), None);
    assert_eq!(parse_coord_micro("361"), None);
    assert_eq!(parse_coord_micro("99999999999999999999"), None);
}

#[test]
fn vertices_parse_as_pairs() {
    assert_eq!(parse_vertex("45.0,-74.0"), Some((45_000_000, -74_000_000)));
    assert_eq!(parse_vertex("45.0"), None);
    assert_eq!(parse_vertex("45.0,-74.0,1.0"), None);
    let vs = parse_polygon_vertices("45.0,-74.0  46.0,-74.0\n45.5,-73.0 bogus x,y");
    assert_eq!(
        vs,
        vec![(45_000_000, -74_000_000), (46_000_000, -74_000_000), (45_500_000, -73_000_000)]
    );
}

#[test]
fn montreal_inside_triangle() {
    let polygon = "45.0,-74.0 46.0,-74.0 45.5,-73.0";
    assert!(point_in_polygon(45_501_700, -73_567_300, polygon));
}

#[test]
fn points_outside_triangle() {
    let polygon = "45.0,-74.0 46.0,-74.0 45.5,-73.0";
    assert!(!point_in_polygon(44_000_000, -73_500_000, polygon));
    assert!(!point_in_polygon(45_501_700, -75_000_000, polygon));
    assert!(!point_in_polygon(45_501_700, -72_000_000, polygon));
}

#[test]
fn degenerate_polygons_contain_nothing() {
    assert!(!point_in_polygon(45_000_000, -74_000_000, ""));
    assert!(!point_in_polygon(45_000_000, -74_000_000, "45.0,-74.0 46.0,-74.0"));
}
