//! Instants and expiry arithmetic.
//!
//! Instants are Unix epoch seconds (`i64`). Provider timestamps arrive
//! as RFC 3339 strings and are turned into epoch seconds by chrono; the
//! value such a string denotes is named by `rfc3339_epoch_of`.

use vstd::prelude::*;

verus! {

/// The epoch seconds an RFC 3339 date-time string denotes, or `None`
/// where the string is not a valid RFC 3339 date-time. The value is a
/// function of the string alone.
pub uninterp spec fn rfc3339_epoch_of(s: Seq<char>) -> Option<i64>;

/// Relies on chrono's `DateTime::parse_from_rfc3339` and
/// `DateTime::timestamp`: both compute from the string alone, so the
/// result is a function of `s`.
#[verifier::external_body]
pub(crate) fn parse_rfc3339_epoch(s: &str) -> (r: Option<i64>)
    ensures
        r == rfc3339_epoch_of(s@),
{
    match chrono::DateTime::parse_from_rfc3339(s) {
        Ok(dt) => Some(dt.timestamp()),
        Err(_) => None,
    }
}

/// Expiry assumed when a provider omits one: 24 hours after `sent`,
/// saturating at the end of the representable range.
pub open spec fn default_expiry_spec(sent: i64) -> i64 {
    if sent + 86400 <= i64::MAX {
        (sent + 86400) as i64
    } else {
        i64::MAX
    }
}

/// Expiry assumed when a provider omits one.
pub fn default_expiry(sent: i64) -> (r: i64)
    ensures
        r == default_expiry_spec(sent),
{
    match sent.checked_add(86400) {
        Some(v) => v,
        None => i64::MAX,
    }
}

/// An alert is live while its expiry lies strictly in the future: an
/// alert expiring exactly now is already expired.
pub open spec fn live_spec(expires: i64, now: i64) -> bool {
    expires > now
}

/// Whether an alert expiring at `expires` is still live at `now`.
pub fn alert_is_live(expires: i64, now: i64) -> (r: bool)
    ensures
        r == live_spec(expires, now),
{
    expires > now
}

} // verus!
