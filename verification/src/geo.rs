//! Jurisdiction classification and the European country fallback.
//!
//! Coordinates are microdegrees: one millionth of a degree, so the
//! latitude 49°N is `49_000_000` and the longitude 95°W is
//! `-95_000_000`. The classifier picks the alert provider for a
//! coordinate: the US test runs first, then Canada, then Europe.

use vstd::prelude::*;

verus! {

/// Geographic region governing alert provider and AQI standard selection.
#[derive(Clone, Copy, Debug, PartialEq, Eq, Structural)]
pub enum Region {
    Us,
    Europe,
    Canada,
    Unknown,
}

/// Alaska: latitude 51-72, longitude -180 to -129.
pub open spec fn alaska_spec(lat: int, lon: int) -> bool {
    51_000_000 <= lat <= 72_000_000 && -180_000_000 <= lon <= -129_000_000
}

/// Hawaii: latitude 18-23, longitude -161 to -154.
pub open spec fn hawaii_spec(lat: int, lon: int) -> bool {
    18_000_000 <= lat <= 23_000_000 && -161_000_000 <= lon <= -154_000_000
}

/// Continental US, with the northern border following the US/Canada
/// border by longitude band. The latitude ceiling tightens from 49°N in
/// the west to the Great Lakes and Northeast ceilings; the band edge at
/// 95°W itself belongs to the western band.
pub open spec fn us_continental_spec(lat: int, lon: int) -> bool {
    if lon <= -95_000_000 {
        // Western US: border at 49°N.
        24_000_000 <= lat <= 49_000_000 && -125_000_000 <= lon
    } else if lon < -84_000_000 {
        // Upper Midwest: ceiling near Lake Superior.
        24_000_000 <= lat <= 46_500_000
    } else if lon < -76_000_000 {
        // Great Lakes / Southern Ontario overlap: stay south of the lakes.
        24_000_000 <= lat <= 43_000_000
    } else if lon < -67_000_000 {
        // Northeast US: St. Lawrence border near 45°N.
        24_000_000 <= lat <= 45_000_000
    } else {
        // Maine: border goes up to 47°N.
        24_000_000 <= lat <= 47_000_000 && lon <= -66_000_000
    }
}

/// US territory: continental bands, Alaska or Hawaii.
pub open spec fn us_bounds_spec(lat: int, lon: int) -> bool {
    us_continental_spec(lat, lon) || alaska_spec(lat, lon) || hawaii_spec(lat, lon)
}

/// Canada: latitude 41-84, longitude -141 to -52.
pub open spec fn canada_bounds_spec(lat: int, lon: int) -> bool {
    41_000_000 <= lat <= 84_000_000 && -141_000_000 <= lon <= -52_000_000
}

/// Europe: latitude 35-71, longitude -25 to 40.
pub open spec fn europe_bounds_spec(lat: int, lon: int) -> bool {
    35_000_000 <= lat <= 71_000_000 && -25_000_000 <= lon <= 40_000_000
}

/// First match wins: US, then Canada, then Europe, else Unknown.
pub open spec fn region_spec(lat: int, lon: int) -> Region {
    if us_bounds_spec(lat, lon) {
        Region::Us
    } else if canada_bounds_spec(lat, lon) {
        Region::Canada
    } else if europe_bounds_spec(lat, lon) {
        Region::Europe
    } else {
        Region::Unknown
    }
}

/// Whether the coordinate falls within US territory.
pub fn is_us_bounds(lat: i64, lon: i64) -> (r: bool)
    ensures
        r == us_bounds_spec(lat as int, lon as int),
{
    let alaska = 51_000_000 <= lat && lat <= 72_000_000 && -180_000_000 <= lon && lon
        <= -129_000_000;
    let hawaii = 18_000_000 <= lat && lat <= 23_000_000 && -161_000_000 <= lon && lon
        <= -154_000_000;
    let continental = if lon <= -95_000_000 {
        24_000_000 <= lat && lat <= 49_000_000 && -125_000_000 <= lon
    } else if lon < -84_000_000 {
        24_000_000 <= lat && lat <= 46_500_000
    } else if lon < -76_000_000 {
        24_000_000 <= lat && lat <= 43_000_000
    } else if lon < -67_000_000 {
        24_000_000 <= lat && lat <= 45_000_000
    } else {
        24_000_000 <= lat && lat <= 47_000_000 && lon <= -66_000_000
    };
    continental || alaska || hawaii
}

/// Whether the coordinate falls within the Canada bounding box.
pub fn is_canada_bounds(lat: i64, lon: i64) -> (r: bool)
    ensures
        r == canada_bounds_spec(lat as int, lon as int),
{
    41_000_000 <= lat && lat <= 84_000_000 && -141_000_000 <= lon && lon <= -52_000_000
}

/// Whether the coordinate falls within the Europe bounding box.
pub fn is_europe_bounds(lat: i64, lon: i64) -> (r: bool)
    ensures
        r == europe_bounds_spec(lat as int, lon as int),
{
    35_000_000 <= lat && lat <= 71_000_000 && -25_000_000 <= lon && lon <= 40_000_000
}

/// Classifies a coordinate into the jurisdiction whose provider governs
/// it.
pub fn detect_region(lat: i64, lon: i64) -> (r: Region)
    ensures
        r == region_spec(lat as int, lon as int),
{
    if is_us_bounds(lat, lon) {
        return Region::Us;
    }
    if is_canada_bounds(lat, lon) {
        return Region::Canada;
    }
    if is_europe_bounds(lat, lon) {
        return Region::Europe;
    }
    Region::Unknown
}

/// Every coordinate is classified into exactly one jurisdiction, and
/// the bounding predicates decide it by precedence: US first, then
/// Canada, then Europe.
pub proof fn lemma_classify_exactly_one(lat: int, lon: int)
    ensures
        (region_spec(lat, lon) == Region::Us) <==> us_bounds_spec(lat, lon),
        (region_spec(lat, lon) == Region::Canada) <==> (!us_bounds_spec(lat, lon)
            && canada_bounds_spec(lat, lon)),
        (region_spec(lat, lon) == Region::Europe) <==> (!us_bounds_spec(lat, lon)
            && !canada_bounds_spec(lat, lon) && europe_bounds_spec(lat, lon)),
        (region_spec(lat, lon) == Region::Unknown) <==> (!us_bounds_spec(lat, lon)
            && !canada_bounds_spec(lat, lon) && !europe_bounds_spec(lat, lon)),
{
}

/// At the band edge 95°W exactly, the continental test uses the western
/// band's 49°N ceiling, not the Upper Midwest ceiling.
pub proof fn lemma_western_band_at_edge(lat: int)
    ensures
        us_continental_spec(lat, -95_000_000) <==> 24_000_000 <= lat <= 49_000_000,
{
}

/// European country approximated from bounding boxes, for when reverse
/// geocoding fails; checked in a fixed order, first match wins.
pub open spec fn approx_country_spec(lat: int, lon: int) -> Seq<char> {
    if 47_300_000 <= lat <= 55_100_000 && 5_900_000 <= lon <= 15_000_000 {
        "Germany"@
    } else if 41_300_000 <= lat <= 51_100_000 && -5_100_000 <= lon <= 9_600_000 {
        "France"@
    } else if 36_000_000 <= lat <= 43_800_000 && -9_500_000 <= lon <= 3_300_000 {
        "Spain"@
    } else if 36_600_000 <= lat <= 47_100_000 && 6_600_000 <= lon <= 18_500_000 {
        "Italy"@
    } else if 49_900_000 <= lat <= 61_000_000 && -8_600_000 <= lon <= 1_800_000 {
        "United Kingdom"@
    } else if 50_800_000 <= lat <= 53_500_000 && 3_400_000 <= lon <= 7_200_000 {
        "Netherlands"@
    } else if 49_500_000 <= lat <= 51_500_000 && 2_500_000 <= lon <= 6_400_000 {
        "Belgium"@
    } else if 46_400_000 <= lat <= 49_000_000 && 5_900_000 <= lon <= 10_500_000 {
        "Switzerland"@
    } else if 46_400_000 <= lat <= 49_000_000 && 9_500_000 <= lon <= 17_200_000 {
        "Austria"@
    } else if 49_000_000 <= lat <= 54_900_000 && 14_100_000 <= lon <= 24_200_000 {
        "Poland"@
    } else if 55_000_000 <= lat <= 69_100_000 && 4_500_000 <= lon <= 31_100_000 {
        if lon < 10_000_000 {
            "Norway"@
        } else if lon < 24_200_000 {
            "Sweden"@
        } else {
            "Finland"@
        }
    } else {
        "Unknown"@
    }
}

/// Approximates a European country from bounding boxes; the fallback of
/// the country resolver.
pub fn approximate_european_country(lat: i64, lon: i64) -> (r: &'static str)
    ensures
        r@ == approx_country_spec(lat as int, lon as int),
{
    if 47_300_000 <= lat && lat <= 55_100_000 && 5_900_000 <= lon && lon <= 15_000_000 {
        "Germany"
    } else if 41_300_000 <= lat && lat <= 51_100_000 && -5_100_000 <= lon && lon <= 9_600_000 {
        "France"
    } else if 36_000_000 <= lat && lat <= 43_800_000 && -9_500_000 <= lon && lon <= 3_300_000 {
        "Spain"
    } else if 36_600_000 <= lat && lat <= 47_100_000 && 6_600_000 <= lon && lon <= 18_500_000 {
        "Italy"
    } else if 49_900_000 <= lat && lat <= 61_000_000 && -8_600_000 <= lon && lon <= 1_800_000 {
        "United Kingdom"
    } else if 50_800_000 <= lat && lat <= 53_500_000 && 3_400_000 <= lon && lon <= 7_200_000 {
        "Netherlands"
    } else if 49_500_000 <= lat && lat <= 51_500_000 && 2_500_000 <= lon && lon <= 6_400_000 {
        "Belgium"
    } else if 46_400_000 <= lat && lat <= 49_000_000 && 5_900_000 <= lon && lon <= 10_500_000 {
        "Switzerland"
    } else if 46_400_000 <= lat && lat <= 49_000_000 && 9_500_000 <= lon && lon <= 17_200_000 {
        "Austria"
    } else if 49_000_000 <= lat && lat <= 54_900_000 && 14_100_000 <= lon && lon <= 24_200_000 {
        "Poland"
    } else if 55_000_000 <= lat && lat <= 69_100_000 && 4_500_000 <= lon && lon <= 31_100_000 {
        if lon < 10_000_000 {
            "Norway"
        } else if lon < 24_200_000 {
            "Sweden"
        } else {
            "Finland"
        }
    } else {
        "Unknown"
    }
}

/// Settles the country for the Europe adapter: the reverse-geocoded
/// country where the lookup produced one, else the bounding-box
/// approximation. Best effort, never an error.
pub fn resolve_country(geocoded: Option<String>, lat: i64, lon: i64) -> (r: String)
    ensures
        r@ == match geocoded {
            Some(c) => c@,
            None => approx_country_spec(lat as int, lon as int),
        },
{
    match geocoded {
        Some(c) => c,
        None => approximate_european_country(lat, lon).to_owned(),
    }
}

} // verus!
