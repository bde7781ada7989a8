//! The unified alert record all providers normalize into.

use vstd::prelude::*;

use crate::severity::AlertSeverity;

verus! {

/// A weather alert in the unified model. Timestamps are Unix epoch
/// seconds, UTC. An alert handed out by an adapter is never already
/// expired relative to the resolution time it was produced with.
#[derive(Clone, Debug)]
pub struct Alert {
    /// Provider-native identifier, or a synthesized dedup key.
    pub id: String,
    /// Event name, such as "Winter Storm Warning".
    pub event: String,
    /// Normalized severity.
    pub severity: AlertSeverity,
    /// Provider-specific urgency text.
    pub urgency: String,
    /// Headline; falls back to the event name where absent.
    pub headline: String,
    /// Long description; empty where the provider supplies none.
    pub description: String,
    /// Optional instruction text.
    pub instruction: Option<String>,
    /// Description of the affected area.
    pub area_desc: String,
    /// When the alert was sent, epoch seconds UTC.
    pub sent: i64,
    /// When the alert expires, epoch seconds UTC; where the provider
    /// omits it, 24 hours after `sent`.
    pub expires: i64,
}

/// Mathematical image of an `Alert`: every text as a character
/// sequence.
pub struct AlertModel {
    pub id: Seq<char>,
    pub event: Seq<char>,
    pub severity: AlertSeverity,
    pub urgency: Seq<char>,
    pub headline: Seq<char>,
    pub description: Seq<char>,
    pub instruction: Option<Seq<char>>,
    pub area_desc: Seq<char>,
    pub sent: i64,
    pub expires: i64,
}

impl View for Alert {
    type V = AlertModel;

    open spec fn view(&self) -> AlertModel {
        AlertModel {
            id: self.id@,
            event: self.event@,
            severity: self.severity,
            urgency: self.urgency@,
            headline: self.headline@,
            description: self.description@,
            instruction: match self.instruction {
                Some(ref s) => Some(s@),
                None => None,
            },
            area_desc: self.area_desc@,
            sent: self.sent,
            expires: self.expires,
        }
    }
}

impl Alert {
    /// A field-for-field copy of the alert.
    pub fn duplicate(&self) -> (r: Alert)
        ensures
            r@ == self@,
    {
        Alert {
            id: self.id.clone(),
            event: self.event.clone(),
            severity: self.severity,
            urgency: self.urgency.clone(),
            headline: self.headline.clone(),
            description: self.description.clone(),
            instruction: match &self.instruction {
                Some(s) => Some(s.clone()),
                None => None,
            },
            area_desc: self.area_desc.clone(),
            sent: self.sent,
            expires: self.expires,
        }
    }
}

/// The models of a vector of alerts, in order.
pub open spec fn alerts_view(v: Seq<Alert>) -> Seq<AlertModel> {
    v.map_values(|a: Alert| a@)
}

/// The character sequence of an optional string.
pub open spec fn opt_str_view(o: Option<String>) -> Option<Seq<char>> {
    match o {
        Some(s) => Some(s@),
        None => None,
    }
}

} // verus!
