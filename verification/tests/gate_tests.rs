use tempest::alert::Alert;
use tempest::gate::{notification_urgency, NotificationUrgency, SeenAlertRegistry};
use tempest::severity::AlertSeverity;

fn alert(id: &str) -> Alert {
    Alert {
        id: id.to_string(),
        event: "Wind".to_string(),
        severity: AlertSeverity::Moderate,
        urgency: "Expected".to_string(),
        headline: "Wind warning".to_string(),
        description: String::new(),
        instruction: None,
        area_desc: "Somewhere".to_string(),
        sent: 1_000,
        expires: 2_000,
    }
}

#[test]
fn second_refresh_notifies_only_the_new_alert() {
    let mut registry = SeenAlertRegistry::new();
    let first = registry.process_refresh(&vec![alert("A"), alert("B")]);
    assert_eq!(first.len(), 2);
    assert_eq!(first[0].id, "A");
    assert_eq!(first[1].id, "B");
    let second = registry.process_refresh(&vec![alert("A"), alert("B"), alert("C")]);
    assert_eq!(second.len(), 1);
    assert_eq!(second[0].id, "C");
}

#[test]
fn an_id_once_seen_is_never_renotified() {
    let mut registry = SeenAlertRegistry::new();
    registry.process_refresh(&vec![alert("A")]);
    // Content changes under the same identifier: still suppressed.
    let mut changed = alert("A");
    changed.headline = "Updated wind warning".to_string();
    let fresh = registry.process_refresh(&vec![changed]);
    assert_eq!(fresh.len(), 0);
    assert!(registry.contains_id("A"));
    assert!(!registry.contains_id("B"));
}

#[test]
fn duplicate_ids_within_one_refresh_notify_once() {
    let mut registry = SeenAlertRegistry::new();
    let fresh = registry.process_refresh(&vec![alert("A"), alert("A")]);
    assert_eq!(fresh.len(), 1);
}

#[test]
fn urgency_follows_severity() {
    assert_eq!(notification_urgency(AlertSeverity::Extreme), NotificationUrgency::Critical);
    assert_eq!(notification_urgency(AlertSeverity::Severe), NotificationUrgency::Critical);
    assert_eq!(notification_urgency(AlertSeverity::Moderate), NotificationUrgency::Normal);
    assert_eq!(notification_urgency(AlertSeverity::Minor), NotificationUrgency::Low);
    assert_eq!(notification_urgency(AlertSeverity::Unknown), NotificationUrgency::Low);
}
