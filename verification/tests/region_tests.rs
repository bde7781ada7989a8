use tempest::geo::{
    approximate_european_country, detect_region, is_canada_bounds, is_europe_bounds, is_us_bounds,
    resolve_country, Region,
};

#[test]
fn london_classifies_as_europe() {
    assert_eq!(detect_region(51_507_400, -127_800), Region::Europe);
}

#[test]
fn montreal_classifies_as_canada() {
    assert_eq!(detect_region(45_501_700, -73_567_300), Region::Canada);
}

#[test]
fn new_york_classifies_as_us() {
    assert_eq!(detect_region(40_712_800, -74_006_000), Region::Us);
}

#[test]
fn alaska_and_hawaii_classify_as_us() {
    assert_eq!(detect_region(61_000_000, -150_000_000), Region::Us);
    assert_eq!(detect_region(20_000_000, -157_000_000), Region::Us);
}

#[test]
fn null_island_classifies_as_unknown() {
    assert_eq!(detect_region(0, 0), Region::Unknown);
}

#[test]
fn us_precedes_canada_where_boxes_overlap() {
    // Inside both the US northeast band and the Canada bounding box.
    assert!(is_us_bounds(45_000_000, -70_000_000));
    assert!(is_canada_bounds(45_000_000, -70_000_000));
    assert_eq!(detect_region(45_000_000, -70_000_000), Region::Us);
}

#[test]
fn western_band_ceiling_applies_at_95_west_exactly() {
    // At 95°W the western band's 49°N ceiling governs, so 47.5°N is US;
    // one microdegree east, the Upper Midwest 46.5°N ceiling excludes it.
    assert!(is_us_bounds(47_500_000, -95_000_000));
    assert!(!is_us_bounds(47_500_000, -94_999_999));
    assert_eq!(detect_region(47_500_000, -95_000_000), Region::Us);
    assert_eq!(detect_region(47_500_000, -94_999_999), Region::Canada);
}

#[test]
fn europe_box_bounds() {
    assert!(is_europe_bounds(35_000_000, -25_000_000));
    assert!(is_europe_bounds(71_000_000, 40_000_000));
    assert!(!is_europe_bounds(34_999_999, 0));
    assert!(!is_europe_bounds(50_000_000, 40_000_001));
}

#[test]
fn approximate_country_boxes() {
    // Berlin, Paris, London; the open ocean matches nothing.
    assert_eq!(approximate_european_country(52_520_000, 13_405_000), "Germany");
    assert_eq!(approximate_european_country(48_856_600, 2_352_200), "France");
    assert_eq!(approximate_european_country(51_507_400, -127_800), "United Kingdom");
    assert_eq!(approximate_european_country(0, -40_000_000), "Unknown");
}

#[test]
fn nordic_split_by_longitude() {
    assert_eq!(approximate_european_country(60_000_000, 8_000_000), "Norway");
    assert_eq!(approximate_european_country(60_000_000, 15_000_000), "Sweden");
    assert_eq!(approximate_european_country(62_000_000, 26_000_000), "Finland");
}

#[test]
fn resolve_country_prefers_geocoded_name() {
    assert_eq!(
        resolve_country(Some("Portugal".to_string()), 52_520_000, 13_405_000),
        "Portugal"
    );
    assert_eq!(resolve_country(None, 52_520_000, 13_405_000), "Germany");
}
