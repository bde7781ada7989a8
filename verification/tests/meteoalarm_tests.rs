use tempest::meteoalarm::{
    get_meteoalarm_info, meteoalarm_alerts_from_entries, parse_meteoalarm_entry, resolve_emma_folded,
    resolve_emma_id, MeteoAlarmEntry,
};
use tempest::severity::AlertSeverity;

fn entry() -> MeteoAlarmEntry {
    MeteoAlarmEntry {
        id: "atom-1".to_string(),
        title: Some("Yellow wind warning".to_string()),
        cap_identifier: Some("cap-1".to_string()),
        cap_event: Some("Wind".to_string()),
        cap_severity: Some("Moderate".to_string()),
        cap_urgency: Some("Expected".to_string()),
        cap_area_desc: Some("Greater London".to_string()),
        cap_sent: Some("2026-01-01T00:00:00Z".to_string()),
        cap_expires: Some("2026-01-02T00:00:00Z".to_string()),
        cap_geocode: Some("UK001".to_string()),
    }
}

fn epoch(s: &str) -> i64 {
    chrono::DateTime::parse_from_rfc3339(s).unwrap().timestamp()
}

#[test]
fn country_table_maps_united_kingdom() {
    assert_eq!(get_meteoalarm_info("United Kingdom"), Some(("united-kingdom", "UK")));
    assert_eq!(get_meteoalarm_info("uk"), Some(("united-kingdom", "UK")));
    assert_eq!(get_meteoalarm_info("GERMANY"), Some(("germany", "DE")));
    assert_eq!(get_meteoalarm_info("Czech Republic"), Some(("czechia", "CZ")));
    assert_eq!(get_meteoalarm_info("Netherlands"), Some(("netherlands", "NL")));
}

#[test]
fn uncovered_country_yields_nothing() {
    assert_eq!(get_meteoalarm_info("Canada"), None);
    assert_eq!(get_meteoalarm_info(""), None);
}

#[test]
fn entry_normalizes_into_alert() {
    let now = epoch("2026-01-01T12:00:00Z");
    let a = parse_meteoalarm_entry(&entry(), &None, now).unwrap();
    assert_eq!(a.id, "cap-1");
    assert_eq!(a.event, "Wind");
    assert_eq!(a.severity, AlertSeverity::Moderate);
    assert_eq!(a.headline, "Yellow wind warning");
    assert_eq!(a.description, "");
    assert_eq!(a.area_desc, "Greater London");
    assert_eq!(a.sent, epoch("2026-01-01T00:00:00Z"));
    assert_eq!(a.expires, epoch("2026-01-02T00:00:00Z"));
}

#[test]
fn entry_defaults_where_fields_missing() {
    let now = epoch("2026-01-01T12:00:00Z");
    let mut e = entry();
    e.cap_identifier = None;
    e.title = None;
    e.cap_event = None;
    e.cap_expires = None;
    e.cap_sent = None;
    e.cap_severity = None;
    let a = parse_meteoalarm_entry(&e, &None, now).unwrap();
    assert_eq!(a.id, "atom-1");
    assert_eq!(a.event, "Weather Alert");
    assert_eq!(a.headline, "Weather Alert");
    assert_eq!(a.severity, AlertSeverity::Unknown);
    assert_eq!(a.sent, now);
    assert_eq!(a.expires, now + 86_400);
}

#[test]
fn entry_for_another_region_excluded() {
    let now = epoch("2026-01-01T12:00:00Z");
    let user = Some("UK002".to_string());
    assert!(parse_meteoalarm_entry(&entry(), &user, now).is_none());
    // Matching geocode and missing geocode are both included.
    let matching = Some("UK001".to_string());
    assert!(parse_meteoalarm_entry(&entry(), &matching, now).is_some());
    let mut e = entry();
    e.cap_geocode = None;
    assert!(parse_meteoalarm_entry(&e, &user, now).is_some());
}

#[test]
fn expired_entry_excluded_at_exact_expiry() {
    let expires = epoch("2026-01-02T00:00:00Z");
    assert!(parse_meteoalarm_entry(&entry(), &None, expires).is_none());
    assert!(parse_meteoalarm_entry(&entry(), &None, expires - 1).is_some());
}

#[test]
fn feed_normalizes_in_order() {
    let now = epoch("2026-01-01T12:00:00Z");
    let mut late = entry();
    late.cap_identifier = Some("cap-2".to_string());
    let mut dead = entry();
    dead.cap_expires = Some("2026-01-01T00:00:00Z".to_string());
    let alerts = meteoalarm_alerts_from_entries(&vec![entry(), dead, late], &None, now);
    assert_eq!(alerts.len(), 2);
    assert_eq!(alerts[0].id, "cap-1");
    assert_eq!(alerts[1].id, "cap-2");
}

#[test]
fn emma_pick_respects_prefix_and_order() {
    let cands = vec!["london".to_string()];
    let codes = vec![
        ("FR001".to_string(), "london".to_string()),
        ("UK001".to_string(), "greater london".to_string()),
        ("UK002".to_string(), "london".to_string()),
    ];
    assert_eq!(resolve_emma_folded(&cands, &codes, "UK"), Some("UK001".to_string()));
    assert_eq!(resolve_emma_folded(&cands, &codes, "FR"), Some("FR001".to_string()));
    assert_eq!(resolve_emma_folded(&cands, &codes, "DE"), None);
}

#[test]
fn emma_containment_works_both_ways() {
    let codes = vec![("UK001".to_string(), "london".to_string())];
    let broad = vec!["greater london".to_string()];
    assert_eq!(resolve_emma_folded(&broad, &codes, "UK"), Some("UK001".to_string()));
    let narrow = vec!["lond".to_string()];
    assert_eq!(resolve_emma_folded(&narrow, &codes, "UK"), Some("UK001".to_string()));
}

#[test]
fn emma_resolution_folds_case() {
    let codes = vec![("UK001".to_string(), "london".to_string())];
    let r = resolve_emma_id(
        &Some("LONDON".to_string()),
        &None,
        &None,
        &None,
        &codes,
        "UK",
    );
    assert_eq!(r, Some("UK001".to_string()));
}

#[test]
fn emma_candidates_try_city_before_state() {
    let codes = vec![
        ("DE013".to_string(), "bayern".to_string()),
        ("DE012".to_string(), "stadt münchen".to_string()),
    ];
    let r = resolve_emma_id(
        &Some("München".to_string()),
        &None,
        &None,
        &Some("Bayern".to_string()),
        &codes,
        "DE",
    );
    assert_eq!(r, Some("DE012".to_string()));
}
