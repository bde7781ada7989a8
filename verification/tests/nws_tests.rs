use tempest::nws::{nws_alerts_from_features, parse_nws_feature, NwsAlertProps};
use tempest::severity::AlertSeverity;

fn epoch(s: &str) -> i64 {
    chrono::DateTime::parse_from_rfc3339(s).unwrap().timestamp()
}

fn props(id: &str) -> NwsAlertProps {
    NwsAlertProps {
        id: id.to_string(),
        event: "Winter Storm Warning".to_string(),
        severity: Some("Severe".to_string()),
        urgency: Some("Expected".to_string()),
        headline: Some("Winter Storm Warning until noon".to_string()),
        description: Some("Heavy snow.".to_string()),
        instruction: Some("Stay home.".to_string()),
        area_desc: "Suffolk County".to_string(),
        sent: "2026-01-01T00:00:00-05:00".to_string(),
        expires: Some("2026-01-02T00:00:00-05:00".to_string()),
    }
}

#[test]
fn feature_normalizes_into_alert() {
    let now = epoch("2026-01-01T12:00:00Z");
    let a = parse_nws_feature(&props("nws-1"), now).unwrap();
    assert_eq!(a.id, "nws-1");
    assert_eq!(a.event, "Winter Storm Warning");
    assert_eq!(a.severity, AlertSeverity::Severe);
    assert_eq!(a.urgency, "Expected");
    assert_eq!(a.headline, "Winter Storm Warning until noon");
    assert_eq!(a.area_desc, "Suffolk County");
    assert_eq!(a.sent, epoch("2026-01-01T00:00:00-05:00"));
    assert_eq!(a.expires, epoch("2026-01-02T00:00:00-05:00"));
}

#[test]
fn missing_expiry_defaults_to_a_day_after_sent() {
    let now = epoch("2026-01-01T12:00:00Z");
    let mut p = props("nws-1");
    p.expires = None;
    let a = parse_nws_feature(&p, now).unwrap();
    assert_eq!(a.expires, a.sent + 86_400);
}

#[test]
fn malformed_sent_drops_feature() {
    let now = epoch("2026-01-01T12:00:00Z");
    let mut p = props("nws-1");
    p.sent = "not a timestamp".to_string();
    assert!(parse_nws_feature(&p, now).is_none());
}

#[test]
fn nws_expiry_boundary_is_strict() {
    let expires = epoch("2026-01-02T00:00:00-05:00");
    assert!(parse_nws_feature(&props("nws-1"), expires).is_none());
    assert!(parse_nws_feature(&props("nws-1"), expires - 1).is_some());
}

#[test]
fn missing_optional_fields_default() {
    let now = epoch("2026-01-01T12:00:00Z");
    let mut p = props("nws-1");
    p.severity = None;
    p.urgency = None;
    p.headline = None;
    p.description = None;
    p.instruction = None;
    let a = parse_nws_feature(&p, now).unwrap();
    assert_eq!(a.severity, AlertSeverity::Unknown);
    assert_eq!(a.urgency, "Unknown");
    assert_eq!(a.headline, "");
    assert_eq!(a.description, "");
    assert_eq!(a.instruction, None);
}

#[test]
fn collection_keeps_live_alerts_in_order() {
    let now = epoch("2026-01-01T12:00:00Z");
    let mut dead = props("nws-dead");
    dead.expires = Some("2026-01-01T01:00:00-05:00".to_string());
    let alerts = nws_alerts_from_features(&vec![props("nws-1"), dead, props("nws-2")], now);
    assert_eq!(alerts.len(), 2);
    assert_eq!(alerts[0].id, "nws-1");
    assert_eq!(alerts[1].id, "nws-2");
}
