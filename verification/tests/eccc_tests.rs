use tempest::eccc::{
    cap_links_from_listing, eccc_alerts_from_docs, get_eccc_office_codes, hour_dirs_from_listing,
    parse_eccc_cap, EcccArea, EcccCapDoc, EcccInfo,
};
use tempest::severity::AlertSeverity;

fn epoch(s: &str) -> i64 {
    chrono::DateTime::parse_from_rfc3339(s).unwrap().timestamp()
}

// A polygon around Montreal.
const MONTREAL_POLYGON: &str = "45.0,-74.0 46.0,-74.0 45.5,-73.0";
const MONTREAL_LAT: i64 = 45_501_700;
const MONTREAL_LON: i64 = -73_567_300;

fn doc(identifier: &str) -> EcccCapDoc {
    EcccCapDoc {
        identifier: identifier.to_string(),
        status: "Actual".to_string(),
        msg_type: "Alert".to_string(),
        sent: "2026-01-01T00:00:00-05:00".to_string(),
        info_blocks: vec![
            EcccInfo {
                language: Some("fr-CA".to_string()),
                event: Some("avertissement de tempête hivernale".to_string()),
                urgency: Some("Futur".to_string()),
                severity: Some("Modérée".to_string()),
                expires: Some("2026-01-02T00:00:00-05:00".to_string()),
                headline: Some("tempête hivernale".to_string()),
                description: None,
                instruction: None,
                areas: vec![EcccArea {
                    area_desc: Some("Île de Montréal".to_string()),
                    polygon: Some(MONTREAL_POLYGON.to_string()),
                }],
            },
            EcccInfo {
                language: Some("en-CA".to_string()),
                event: Some("winter storm warning".to_string()),
                urgency: Some("Future".to_string()),
                severity: Some("Severe".to_string()),
                expires: Some("2026-01-02T00:00:00-05:00".to_string()),
                headline: Some("winter storm".to_string()),
                description: Some("Heavy snow expected.".to_string()),
                instruction: Some("Avoid travel.".to_string()),
                areas: vec![EcccArea {
                    area_desc: Some("Montreal Island".to_string()),
                    polygon: Some(MONTREAL_POLYGON.to_string()),
                }],
            },
        ],
    }
}

#[test]
fn montreal_offices_include_cwul() {
    let offices = get_eccc_office_codes(MONTREAL_LAT, MONTREAL_LON);
    assert!(offices.contains(&"CWUL"));
}

#[test]
fn vancouver_offices_include_cwvr() {
    let offices = get_eccc_office_codes(49_282_700, -123_120_700);
    assert!(offices.contains(&"CWVR"));
}

#[test]
fn unmatched_point_falls_back_to_cwto() {
    // Latitude 60 exactly, at a longitude no partition covers.
    let offices = get_eccc_office_codes(60_000_000, -80_000_000);
    assert_eq!(offices, vec!["CWTO"]);
}

#[test]
fn hour_directories_parse_from_listing() {
    let html = "<html><body>\n<a href=\"../\">../</a>\n<a href=\"03/\">03/</a>\n\
                <a href=\"14/\">14/</a>\n<a href=\"abc/\">abc/</a>\n<a href=\"3/\">3/</a>\n\
                no link here\n</body></html>";
    assert_eq!(hour_dirs_from_listing(html), vec!["03".to_string(), "14".to_string()]);
}

#[test]
fn cap_files_parse_from_listing() {
    let html = "<a href=\"T_SC_CWUL_1.cap\">x</a>\r\n<a href=\"notes.txt\">y</a>\n\
                <a href=\"T_SC_CWUL_2.cap\">z</a>";
    assert_eq!(
        cap_links_from_listing(html),
        vec!["T_SC_CWUL_1.cap".to_string(), "T_SC_CWUL_2.cap".to_string()]
    );
}

#[test]
fn cap_document_prefers_english_block() {
    let now = epoch("2026-01-01T12:00:00Z");
    let a = parse_eccc_cap(&doc("cap-1"), MONTREAL_LAT, MONTREAL_LON, now).unwrap();
    assert_eq!(a.id, "cap-1");
    assert_eq!(a.event, "winter storm warning");
    assert_eq!(a.severity, AlertSeverity::Severe);
    assert_eq!(a.headline, "winter storm");
    assert_eq!(a.description, "Heavy snow expected.");
    assert_eq!(a.instruction, Some("Avoid travel.".to_string()));
    assert_eq!(a.area_desc, "Montreal Island");
    assert_eq!(a.sent, epoch("2026-01-01T00:00:00-05:00"));
    assert_eq!(a.expires, epoch("2026-01-02T00:00:00-05:00"));
}

#[test]
fn non_actual_and_cancel_documents_skipped() {
    let now = epoch("2026-01-01T12:00:00Z");
    let mut test_doc = doc("cap-1");
    test_doc.status = "Test".to_string();
    assert!(parse_eccc_cap(&test_doc, MONTREAL_LAT, MONTREAL_LON, now).is_none());
    let mut cancel = doc("cap-2");
    cancel.msg_type = "Cancel".to_string();
    assert!(parse_eccc_cap(&cancel, MONTREAL_LAT, MONTREAL_LON, now).is_none());
}

#[test]
fn point_outside_all_polygons_skips_document() {
    let now = epoch("2026-01-01T12:00:00Z");
    assert!(parse_eccc_cap(&doc("cap-1"), 50_000_000, -100_000_000, now).is_none());
}

#[test]
fn expiry_boundary_is_strict() {
    let expires = epoch("2026-01-02T00:00:00-05:00");
    assert!(parse_eccc_cap(&doc("cap-1"), MONTREAL_LAT, MONTREAL_LON, expires).is_none());
    assert!(parse_eccc_cap(&doc("cap-1"), MONTREAL_LAT, MONTREAL_LON, expires - 1).is_some());
}

#[test]
fn reissued_warning_deduplicates_to_one_alert() {
    // Two documents with different identifiers describing the same
    // event and area: only the first survives.
    let now = epoch("2026-01-01T12:00:00Z");
    let alerts =
        eccc_alerts_from_docs(&vec![doc("cap-1"), doc("cap-2")], MONTREAL_LAT, MONTREAL_LON, now);
    assert_eq!(alerts.len(), 1);
    assert_eq!(alerts[0].id, "cap-1");
}

#[test]
fn distinct_events_both_survive() {
    let now = epoch("2026-01-01T12:00:00Z");
    let mut other = doc("cap-2");
    other.info_blocks[1].event = Some("rainfall warning".to_string());
    let alerts =
        eccc_alerts_from_docs(&vec![doc("cap-1"), other], MONTREAL_LAT, MONTREAL_LON, now);
    assert_eq!(alerts.len(), 2);
}

#[test]
fn expired_reissue_still_claims_its_key() {
    // The first document is expired; it still claims the event and
    // area key, so the later live reissue stays suppressed.
    let now = epoch("2026-01-01T12:00:00Z");
    let mut dead = doc("cap-1");
    dead.info_blocks[1].expires = Some("2026-01-01T00:30:00-05:00".to_string());
    let alerts =
        eccc_alerts_from_docs(&vec![dead, doc("cap-2")], MONTREAL_LAT, MONTREAL_LON, now);
    assert_eq!(alerts.len(), 0);
}
