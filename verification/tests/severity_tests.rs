use tempest::severity::AlertSeverity;

#[test]
fn severity_casings_map_to_one_level() {
    assert_eq!(AlertSeverity::from_cap_string("SEVERE"), AlertSeverity::Severe);
    assert_eq!(AlertSeverity::from_cap_string("Severe"), AlertSeverity::Severe);
    assert_eq!(AlertSeverity::from_cap_string("major"), AlertSeverity::Severe);
    assert_eq!(AlertSeverity::from_cap_string("MAJOR"), AlertSeverity::Severe);
}

#[test]
fn severity_vocabulary() {
    assert_eq!(AlertSeverity::from_cap_string("minor"), AlertSeverity::Minor);
    assert_eq!(AlertSeverity::from_cap_string("Moderate"), AlertSeverity::Moderate);
    assert_eq!(AlertSeverity::from_cap_string("Extreme"), AlertSeverity::Extreme);
}

#[test]
fn unrecognized_severity_is_unknown() {
    assert_eq!(AlertSeverity::from_cap_string("catastrophic"), AlertSeverity::Unknown);
    assert_eq!(AlertSeverity::from_cap_string(""), AlertSeverity::Unknown);
    assert_eq!(AlertSeverity::from_cap_string("sever"), AlertSeverity::Unknown);
}
