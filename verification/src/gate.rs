//! The notification gate: which alerts of a refresh get surfaced as
//! desktop notifications, and at what urgency.
//!
//! The registry of already-surfaced alert identifiers lives for the
//! process and only ever grows: an identifier once seen is never
//! unseen, so an alert is never notified twice, even when its content
//! changes under the same identifier.

use vstd::prelude::*;

use crate::alert::{Alert, AlertModel, alerts_view};
use crate::severity::AlertSeverity;
use crate::text::{str_eq, strings_view};

verus! {

/// Urgency of a desktop notification.
#[derive(Clone, Copy, Debug, PartialEq, Eq, Structural)]
pub enum NotificationUrgency {
    Low,
    Normal,
    Critical,
}

/// The urgency an alert's severity warrants: extreme and severe alerts
/// are critical, moderate ones normal, the rest low.
pub open spec fn urgency_for_severity(s: AlertSeverity) -> NotificationUrgency {
    match s {
        AlertSeverity::Extreme => NotificationUrgency::Critical,
        AlertSeverity::Severe => NotificationUrgency::Critical,
        AlertSeverity::Moderate => NotificationUrgency::Normal,
        _ => NotificationUrgency::Low,
    }
}

/// The urgency to deliver an alert's notification with.
pub fn notification_urgency(severity: AlertSeverity) -> (r: NotificationUrgency)
    ensures
        r == urgency_for_severity(severity),
{
    match severity {
        AlertSeverity::Extreme => NotificationUrgency::Critical,
        AlertSeverity::Severe => NotificationUrgency::Critical,
        AlertSeverity::Moderate => NotificationUrgency::Normal,
        _ => NotificationUrgency::Low,
    }
}

/// One refresh cycle against a set of known identifiers: each alert
/// with a new identifier is kept and its identifier noted; the rest
/// are suppressed.
pub open spec fn gate_spec(seen: Seq<Seq<char>>, alerts: Seq<AlertModel>) -> (
    Seq<AlertModel>,
    Seq<Seq<char>>,
)
    decreases alerts.len(),
{
    if alerts.len() == 0 {
        (Seq::empty(), seen)
    } else {
        let prev = gate_spec(seen, alerts.drop_last());
        let a = alerts.last();
        if prev.1.contains(a.id) {
            prev
        } else {
            (prev.0.push(a), prev.1.push(a.id))
        }
    }
}

/// An identifier once known stays known; nothing already known is
/// notified again; the identifiers end up as the old ones plus, in
/// order, those of the fresh alerts.
pub proof fn lemma_gate_laws(seen: Seq<Seq<char>>, alerts: Seq<AlertModel>)
    ensures
        forall|id: Seq<char>|
            seen.contains(id) ==> gate_spec(seen, alerts).1.contains(id),
        forall|k: int|
            0 <= k < gate_spec(seen, alerts).0.len() ==> !seen.contains(
                (#[trigger] gate_spec(seen, alerts).0[k]).id,
            ),
        gate_spec(seen, alerts).1 == seen + gate_spec(seen, alerts).0.map_values(
            |a: AlertModel| a.id,
        ),
    decreases alerts.len(),
{
    if alerts.len() == 0 {
        assert(gate_spec(seen, alerts).1 =~= seen + gate_spec(seen, alerts).0.map_values(
            |a: AlertModel| a.id,
        ));
    } else {
        lemma_gate_laws(seen, alerts.drop_last());
        let prev = gate_spec(seen, alerts.drop_last());
        let a = alerts.last();
        if !prev.1.contains(a.id) {
            assert(prev.1.push(a.id) =~= seen + prev.0.push(a).map_values(
                |m: AlertModel| m.id,
            )) by {
                assert(prev.0.push(a).map_values(|m: AlertModel| m.id) =~= prev.0.map_values(
                    |m: AlertModel| m.id,
                ).push(a.id));
            }
            assert forall|id: Seq<char>|
                seen.contains(id) implies #[trigger] gate_spec(seen, alerts).1.contains(id) by {
                let w = choose|w: int| 0 <= w < prev.1.len() && prev.1[w] == id;
                assert(gate_spec(seen, alerts).1[w] == id);
            }
            assert forall|k: int|
                0 <= k < gate_spec(seen, alerts).0.len() implies !seen.contains(
                (#[trigger] gate_spec(seen, alerts).0[k]).id,
            ) by {
                if k < prev.0.len() {
                    assert(gate_spec(seen, alerts).0[k] == prev.0[k]);
                } else {
                    assert(gate_spec(seen, alerts).0[k] == a);
                    if seen.contains(a.id) {
                        let w = choose|w: int| 0 <= w < seen.len() && seen[w] == a.id;
                        assert(prev.1[w] == a.id) by {
                            assert((seen + prev.0.map_values(|m: AlertModel| m.id))[w] == seen[w]);
                        }
                    }
                }
            }
        }
    }
}

/// The process-lifetime registry of alert identifiers already surfaced
/// as notifications.
pub struct SeenAlertRegistry {
    ids: Vec<String>,
}

impl View for SeenAlertRegistry {
    type V = Seq<Seq<char>>;

    closed spec fn view(&self) -> Seq<Seq<char>> {
        strings_view(self.ids@)
    }
}

impl SeenAlertRegistry {
    /// A fresh registry: nothing surfaced yet.
    pub fn new() -> (r: SeenAlertRegistry)
        ensures
            r@ == Seq::<Seq<char>>::empty(),
    {
        let r = SeenAlertRegistry { ids: Vec::new() };
        proof {
            assert(r@ =~= Seq::<Seq<char>>::empty());
        }
        r
    }

    /// Whether the identifier was already surfaced.
    pub fn contains_id(&self, id: &str) -> (r: bool)
        ensures
            r == self@.contains(id@),
    {
        let mut i: usize = 0;
        while i < self.ids.len()
            invariant
                i <= self.ids@.len(),
                forall|j: int| 0 <= j < i ==> (#[trigger] self.ids@[j])@ != id@,
            decreases self.ids@.len() - i,
        {
            if str_eq(self.ids[i].as_str(), id) {
                proof {
                    assert(self@[i as int] == id@);
                }
                return true;
            }
            i = i + 1;
        }
        proof {
            if self@.contains(id@) {
                let w = choose|w: int| 0 <= w < self@.len() && self@[w] == id@;
                assert(self.ids@[w]@ == id@);
            }
        }
        false
    }

    /// Gates one refresh: returns the alerts to notify, in list order,
    /// and registers their identifiers. An identifier already
    /// registered stays registered for good, and nothing already
    /// registered before the call is ever returned.
    pub fn process_refresh(&mut self, alerts: &Vec<Alert>) -> (fresh: Vec<Alert>)
        ensures
            alerts_view(fresh@) == gate_spec(old(self)@, alerts_view(alerts@)).0,
            final(self)@ == gate_spec(old(self)@, alerts_view(alerts@)).1,
            forall|id: Seq<char>| old(self)@.contains(id) ==> final(self)@.contains(id),
            forall|k: int|
                0 <= k < fresh@.len() ==> !old(self)@.contains((#[trigger] fresh@[k])@.id),
    {
        let ghost av = alerts_view(alerts@);
        let ghost seen0 = self@;
        let mut fresh: Vec<Alert> = Vec::new();
        proof {
            assert(av.take(0) =~= Seq::<AlertModel>::empty());
            assert(alerts_view(fresh@) =~= Seq::<AlertModel>::empty());
        }
        let mut i: usize = 0;
        while i < alerts.len()
            invariant
                i <= alerts@.len(),
                av == alerts_view(alerts@),
                alerts_view(fresh@) == gate_spec(seen0, av.take(i as int)).0,
                self@ == gate_spec(seen0, av.take(i as int)).1,
            decreases alerts@.len() - i,
        {
            proof {
                assert(av.take(i + 1).drop_last() =~= av.take(i as int));
                assert(av.take(i + 1).last() == av[i as int]);
                assert(av[i as int] == alerts@[i as int]@);
            }
            let a = &alerts[i];
            let ghost fresh_before = alerts_view(fresh@);
            let ghost seen_before = self@;
            if !self.contains_id(a.id.as_str()) {
                self.ids.push(a.id.clone());
                fresh.push(a.duplicate());
                proof {
                    assert(alerts_view(fresh@) =~= fresh_before.push(a@));
                    assert(self@ =~= seen_before.push(a.id@));
                }
            }
            i = i + 1;
        }
        proof {
            assert(av.take(alerts@.len() as int) =~= av);
            lemma_gate_laws(seen0, av);
            assert forall|k: int|
                0 <= k < fresh@.len() implies !old(self)@.contains(
                (#[trigger] fresh@[k])@.id,
            ) by {
                assert(alerts_view(fresh@)[k] == fresh@[k]@);
            }
        }
        fresh
    }
}

} // verus!
