//! The US adapter's pure logic: normalizing the properties of NWS
//! GeoJSON alert features into the unified model.

use vstd::prelude::*;

use crate::alert::{Alert, AlertModel, alerts_view, opt_str_view};
use crate::severity::{AlertSeverity, severity_of};
use crate::timestamp::{
    rfc3339_epoch_of, parse_rfc3339_epoch, default_expiry_spec, default_expiry, live_spec,
    alert_is_live,
};

verus! {

/// The properties of one NWS alert feature, as plain values.
pub struct NwsAlertProps {
    /// Provider-native alert identifier.
    pub id: String,
    /// Event name.
    pub event: String,
    /// Severity text.
    pub severity: Option<String>,
    /// Urgency text.
    pub urgency: Option<String>,
    /// Headline.
    pub headline: Option<String>,
    /// Long description.
    pub description: Option<String>,
    /// Instruction text.
    pub instruction: Option<String>,
    /// Description of the affected area.
    pub area_desc: String,
    /// Sent timestamp, RFC 3339.
    pub sent: String,
    /// Expires timestamp, RFC 3339.
    pub expires: Option<String>,
}

/// The alert a feature normalizes into: `None` where the sent
/// timestamp does not parse or the alert is no longer live at `now`.
/// A missing expiry defaults to 24 hours after `sent`.
pub open spec fn nws_alert_spec(p: NwsAlertProps, now: i64) -> Option<AlertModel> {
    match rfc3339_epoch_of(p.sent@) {
        None => None,
        Some(sent) => {
            let expires = match p.expires {
                Some(e) => match rfc3339_epoch_of(e@) {
                    Some(t) => t,
                    None => default_expiry_spec(sent),
                },
                None => default_expiry_spec(sent),
            };
            if !live_spec(expires, now) {
                None
            } else {
                Some(
                    AlertModel {
                        id: p.id@,
                        event: p.event@,
                        severity: match p.severity {
                            Some(s) => severity_of(s@),
                            None => AlertSeverity::Unknown,
                        },
                        urgency: match p.urgency {
                            Some(u) => u@,
                            None => "Unknown"@,
                        },
                        headline: match p.headline {
                            Some(h) => h@,
                            None => Seq::<char>::empty(),
                        },
                        description: match p.description {
                            Some(d) => d@,
                            None => Seq::<char>::empty(),
                        },
                        instruction: opt_str_view(p.instruction),
                        area_desc: p.area_desc@,
                        sent: sent,
                        expires: expires,
                    },
                )
            }
        },
    }
}

/// Normalizes one feature's properties into an alert, or drops it.
pub fn parse_nws_feature(p: &NwsAlertProps, now: i64) -> (r: Option<Alert>)
    ensures
        (match (r, nws_alert_spec(*p, now)) {
            (Some(a), Some(m)) => a@ == m,
            (None, None) => true,
            _ => false,
        }),
{
    let sent = match parse_rfc3339_epoch(p.sent.as_str()) {
        Some(t) => t,
        None => {
            return None;
        },
    };
    let expires = match &p.expires {
        Some(e) => match parse_rfc3339_epoch(e.as_str()) {
            Some(t) => t,
            None => default_expiry(sent),
        },
        None => default_expiry(sent),
    };
    if !alert_is_live(expires, now) {
        return None;
    }
    Some(
        Alert {
            id: p.id.clone(),
            event: p.event.clone(),
            severity: match &p.severity {
                Some(s) => AlertSeverity::from_cap_string(s.as_str()),
                None => AlertSeverity::Unknown,
            },
            urgency: match &p.urgency {
                Some(u) => u.clone(),
                None => "Unknown".to_owned(),
            },
            headline: match &p.headline {
                Some(h) => h.clone(),
                None => String::new(),
            },
            description: match &p.description {
                Some(d) => d.clone(),
                None => String::new(),
            },
            instruction: match &p.instruction {
                Some(s) => Some(s.clone()),
                None => None,
            },
            area_desc: p.area_desc.clone(),
            sent,
            expires,
        },
    )
}

/// The alerts a feature list normalizes into, in list order.
pub open spec fn nws_alerts_spec(features: Seq<NwsAlertProps>, now: i64) -> Seq<AlertModel>
    decreases features.len(),
{
    if features.len() == 0 {
        Seq::empty()
    } else {
        let rest = nws_alerts_spec(features.drop_last(), now);
        match nws_alert_spec(features.last(), now) {
            Some(m) => rest.push(m),
            None => rest,
        }
    }
}

/// No alert the normalizer hands out is already expired relative to
/// the resolution time it was produced with.
pub proof fn lemma_nws_alerts_live(features: Seq<NwsAlertProps>, now: i64)
    ensures
        forall|k: int|
            0 <= k < nws_alerts_spec(features, now).len() ==> (#[trigger] nws_alerts_spec(
                features,
                now,
            )[k]).expires > now,
    decreases features.len(),
{
    if features.len() > 0 {
        lemma_nws_alerts_live(features.drop_last(), now);
    }
}

/// Normalizes a whole GeoJSON feature collection: features whose sent
/// timestamp is malformed and alerts already expired at `now` are
/// dropped.
pub fn nws_alerts_from_features(features: &Vec<NwsAlertProps>, now: i64) -> (r: Vec<Alert>)
    ensures
        alerts_view(r@) == nws_alerts_spec(features@, now),
{
    let mut out: Vec<Alert> = Vec::new();
    proof {
        assert(features@.take(0) =~= Seq::<NwsAlertProps>::empty());
        assert(alerts_view(out@) =~= Seq::<AlertModel>::empty());
    }
    let mut i: usize = 0;
    while i < features.len()
        invariant
            i <= features@.len(),
            alerts_view(out@) == nws_alerts_spec(features@.take(i as int), now),
        decreases features@.len() - i,
    {
        proof {
            assert(features@.take(i + 1).drop_last() =~= features@.take(i as int));
            assert(features@.take(i + 1).last() == features@[i as int]);
        }
        let ghost before = alerts_view(out@);
        match parse_nws_feature(&features[i], now) {
            Some(a) => {
                out.push(a);
                proof {
                    assert(alerts_view(out@) =~= before.push(a@));
                }
            },
            None => {},
        }
        i = i + 1;
    }
    proof {
        assert(features@.take(features@.len() as int) =~= features@);
    }
    out
}

} // verus!
