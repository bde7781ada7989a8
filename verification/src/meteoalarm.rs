//! The Europe adapter's pure logic: the MeteoAlarm country table,
//! CAP-in-Atom entry normalization, and the fuzzy region matching that
//! resolves a coordinate's EMMA_ID from reverse-geocoded place names.

use vstd::prelude::*;
use vstd::string::StringExecFns;

use crate::alert::{Alert, AlertModel, alerts_view, opt_str_view};
use crate::severity::{AlertSeverity, fold_chars, severity_of, eq_folded};
use crate::text::{is_substring, lower_of, lowercase, str_contains, str_starts_with, str_eq,
    strings_view, pairs_view};
use crate::timestamp::{
    rfc3339_epoch_of, parse_rfc3339_epoch, default_expiry_spec, default_expiry, live_spec,
    alert_is_live,
};

verus! {

/// The MeteoAlarm feed slug and ISO country code for a country name,
/// matched case-insensitively; `None` for a country the service does
/// not cover.
pub open spec fn meteoalarm_info_spec(country: Seq<char>) -> Option<(Seq<char>, Seq<char>)> {
    let f = fold_chars(country);
    if f == fold_chars("austria"@) {
        Some(("austria"@, "AT"@))
    } else if f == fold_chars("belgium"@) {
        Some(("belgium"@, "BE"@))
    } else if f == fold_chars("bosnia and herzegovina"@) {
        Some(("bosnia-herzegovina"@, "BA"@))
    } else if f == fold_chars("bulgaria"@) {
        Some(("bulgaria"@, "BG"@))
    } else if f == fold_chars("croatia"@) {
        Some(("croatia"@, "HR"@))
    } else if f == fold_chars("cyprus"@) {
        Some(("cyprus"@, "CY"@))
    } else if f == fold_chars("czechia"@) || f == fold_chars("czech republic"@) {
        Some(("czechia"@, "CZ"@))
    } else if f == fold_chars("denmark"@) {
        Some(("denmark"@, "DK"@))
    } else if f == fold_chars("estonia"@) {
        Some(("estonia"@, "EE"@))
    } else if f == fold_chars("finland"@) {
        Some(("finland"@, "FI"@))
    } else if f == fold_chars("france"@) {
        Some(("france"@, "FR"@))
    } else if f == fold_chars("germany"@) {
        Some(("germany"@, "DE"@))
    } else if f == fold_chars("greece"@) {
        Some(("greece"@, "GR"@))
    } else if f == fold_chars("hungary"@) {
        Some(("hungary"@, "HU"@))
    } else if f == fold_chars("iceland"@) {
        Some(("iceland"@, "IS"@))
    } else if f == fold_chars("ireland"@) {
        Some(("ireland"@, "IE"@))
    } else if f == fold_chars("israel"@) {
        Some(("israel"@, "IL"@))
    } else if f == fold_chars("italy"@) {
        Some(("italy"@, "IT"@))
    } else if f == fold_chars("latvia"@) {
        Some(("latvia"@, "LV"@))
    } else if f == fold_chars("lithuania"@) {
        Some(("lithuania"@, "LT"@))
    } else if f == fold_chars("luxembourg"@) {
        Some(("luxembourg"@, "LU"@))
    } else if f == fold_chars("malta"@) {
        Some(("malta"@, "MT"@))
    } else if f == fold_chars("moldova"@) {
        Some(("moldova"@, "MD"@))
    } else if f == fold_chars("montenegro"@) {
        Some(("montenegro"@, "ME"@))
    } else if f == fold_chars("netherlands"@) {
        Some(("netherlands"@, "NL"@))
    } else if f == fold_chars("north macedonia"@) || f == fold_chars("macedonia"@) {
        Some(("north-macedonia"@, "MK"@))
    } else if f == fold_chars("norway"@) {
        Some(("norway"@, "NO"@))
    } else if f == fold_chars("poland"@) {
        Some(("poland"@, "PL"@))
    } else if f == fold_chars("portugal"@) {
        Some(("portugal"@, "PT"@))
    } else if f == fold_chars("romania"@) {
        Some(("romania"@, "RO"@))
    } else if f == fold_chars("serbia"@) {
        Some(("serbia"@, "RS"@))
    } else if f == fold_chars("slovakia"@) {
        Some(("slovakia"@, "SK"@))
    } else if f == fold_chars("slovenia"@) {
        Some(("slovenia"@, "SI"@))
    } else if f == fold_chars("spain"@) {
        Some(("spain"@, "ES"@))
    } else if f == fold_chars("sweden"@) {
        Some(("sweden"@, "SE"@))
    } else if f == fold_chars("switzerland"@) {
        Some(("switzerland"@, "CH"@))
    } else if f == fold_chars("united kingdom"@) || f == fold_chars("uk"@) {
        Some(("united-kingdom"@, "UK"@))
    } else {
        None
    }
}

/// Maps a country name to its MeteoAlarm feed slug and ISO country
/// code; `None` where the country is not covered.
#[verifier::rlimit(100)]
pub fn get_meteoalarm_info(country: &str) -> (r: Option<(&'static str, &'static str)>)
    ensures
        (match (r, meteoalarm_info_spec(country@)) {
            (Some(p), Some(sp)) => p.0@ == sp.0 && p.1@ == sp.1,
            (None, None) => true,
            _ => false,
        }),
{
    if eq_folded(country, "austria") {
        Some(("austria", "AT"))
    } else if eq_folded(country, "belgium") {
        Some(("belgium", "BE"))
    } else if eq_folded(country, "bosnia and herzegovina") {
        Some(("bosnia-herzegovina", "BA"))
    } else if eq_folded(country, "bulgaria") {
        Some(("bulgaria", "BG"))
    } else if eq_folded(country, "croatia") {
        Some(("croatia", "HR"))
    } else if eq_folded(country, "cyprus") {
        Some(("cyprus", "CY"))
    } else if eq_folded(country, "czechia") || eq_folded(country, "czech republic") {
        Some(("czechia", "CZ"))
    } else if eq_folded(country, "denmark") {
        Some(("denmark", "DK"))
    } else if eq_folded(country, "estonia") {
        Some(("estonia", "EE"))
    } else if eq_folded(country, "finland") {
        Some(("finland", "FI"))
    } else if eq_folded(country, "france") {
        Some(("france", "FR"))
    } else if eq_folded(country, "germany") {
        Some(("germany", "DE"))
    } else if eq_folded(country, "greece") {
        Some(("greece", "GR"))
    } else if eq_folded(country, "hungary") {
        Some(("hungary", "HU"))
    } else if eq_folded(country, "iceland") {
        Some(("iceland", "IS"))
    } else if eq_folded(country, "ireland") {
        Some(("ireland", "IE"))
    } else if eq_folded(country, "israel") {
        Some(("israel", "IL"))
    } else if eq_folded(country, "italy") {
        Some(("italy", "IT"))
    } else if eq_folded(country, "latvia") {
        Some(("latvia", "LV"))
    } else if eq_folded(country, "lithuania") {
        Some(("lithuania", "LT"))
    } else if eq_folded(country, "luxembourg") {
        Some(("luxembourg", "LU"))
    } else if eq_folded(country, "malta") {
        Some(("malta", "MT"))
    } else if eq_folded(country, "moldova") {
        Some(("moldova", "MD"))
    } else if eq_folded(country, "montenegro") {
        Some(("montenegro", "ME"))
    } else if eq_folded(country, "netherlands") {
        Some(("netherlands", "NL"))
    } else if eq_folded(country, "north macedonia") || eq_folded(country, "macedonia") {
        Some(("north-macedonia", "MK"))
    } else if eq_folded(country, "norway") {
        Some(("norway", "NO"))
    } else if eq_folded(country, "poland") {
        Some(("poland", "PL"))
    } else if eq_folded(country, "portugal") {
        Some(("portugal", "PT"))
    } else if eq_folded(country, "romania") {
        Some(("romania", "RO"))
    } else if eq_folded(country, "serbia") {
        Some(("serbia", "RS"))
    } else if eq_folded(country, "slovakia") {
        Some(("slovakia", "SK"))
    } else if eq_folded(country, "slovenia") {
        Some(("slovenia", "SI"))
    } else if eq_folded(country, "spain") {
        Some(("spain", "ES"))
    } else if eq_folded(country, "sweden") {
        Some(("sweden", "SE"))
    } else if eq_folded(country, "switzerland") {
        Some(("switzerland", "CH"))
    } else if eq_folded(country, "united kingdom") || eq_folded(country, "uk") {
        Some(("united-kingdom", "UK"))
    } else {
        None
    }
}

/// The Atom feed endpoint for a country's feed slug.
pub open spec fn meteoalarm_feed_url_spec(slug: Seq<char>) -> Seq<char> {
    "https://feeds.meteoalarm.org/feeds/meteoalarm-legacy-atom-"@ + slug
}

/// Builds the Atom feed URL for a country's feed slug.
pub fn meteoalarm_feed_url(slug: &str) -> (r: String)
    ensures
        r@ == meteoalarm_feed_url_spec(slug@),
{
    "https://feeds.meteoalarm.org/feeds/meteoalarm-legacy-atom-".to_owned().concat(slug)
}

/// One entry of a MeteoAlarm CAP-in-Atom feed, as plain values.
pub struct MeteoAlarmEntry {
    /// Atom entry identifier.
    pub id: String,
    /// Atom entry title.
    pub title: Option<String>,
    /// CAP identifier.
    pub cap_identifier: Option<String>,
    /// CAP event name.
    pub cap_event: Option<String>,
    /// CAP severity text.
    pub cap_severity: Option<String>,
    /// CAP urgency text.
    pub cap_urgency: Option<String>,
    /// CAP area description.
    pub cap_area_desc: Option<String>,
    /// CAP sent timestamp, RFC 3339.
    pub cap_sent: Option<String>,
    /// CAP expires timestamp, RFC 3339.
    pub cap_expires: Option<String>,
    /// The EMMA_ID carried by the entry's geocode, if any.
    pub cap_geocode: Option<String>,
}

/// Whether the entry is excluded by region: it carries a geocode that
/// differs from the user's resolved EMMA_ID. Entries without a geocode
/// are always included, as is everything when no EMMA_ID resolved.
pub open spec fn entry_excluded(e: MeteoAlarmEntry, user_emma: Option<Seq<char>>) -> bool {
    match (user_emma, e.cap_geocode) {
        (Some(u), Some(g)) => g@ != u,
        _ => false,
    }
}

/// The sent instant of an entry: its parsed CAP timestamp, else `now`.
pub open spec fn entry_sent_spec(e: MeteoAlarmEntry, now: i64) -> i64 {
    match e.cap_sent {
        Some(s) => match rfc3339_epoch_of(s@) {
            Some(t) => t,
            None => now,
        },
        None => now,
    }
}

/// The expiry of an entry: its parsed CAP timestamp, else 24 hours
/// after the sent instant.
pub open spec fn entry_expires_spec(e: MeteoAlarmEntry, now: i64) -> i64 {
    match e.cap_expires {
        Some(s) => match rfc3339_epoch_of(s@) {
            Some(t) => t,
            None => default_expiry_spec(entry_sent_spec(e, now)),
        },
        None => default_expiry_spec(entry_sent_spec(e, now)),
    }
}

/// The alert an entry normalizes into: `None` where the entry is for
/// another region or no longer live. The feed format carries no
/// description, so the description is empty.
pub open spec fn meteoalarm_alert_spec(
    e: MeteoAlarmEntry,
    user_emma: Option<Seq<char>>,
    now: i64,
) -> Option<AlertModel> {
    if entry_excluded(e, user_emma) {
        None
    } else if !live_spec(entry_expires_spec(e, now), now) {
        None
    } else {
        let event = match e.cap_event {
            Some(v) => v@,
            None => "Weather Alert"@,
        };
        Some(
            AlertModel {
                id: match e.cap_identifier {
                    Some(i) => i@,
                    None => e.id@,
                },
                event: event,
                severity: match e.cap_severity {
                    Some(s) => severity_of(s@),
                    None => AlertSeverity::Unknown,
                },
                urgency: match e.cap_urgency {
                    Some(u) => u@,
                    None => "Unknown"@,
                },
                headline: match e.title {
                    Some(t) => t@,
                    None => event,
                },
                description: Seq::empty(),
                instruction: None,
                area_desc: match e.cap_area_desc {
                    Some(a) => a@,
                    None => Seq::empty(),
                },
                sent: entry_sent_spec(e, now),
                expires: entry_expires_spec(e, now),
            },
        )
    }
}

/// Normalizes one feed entry into an alert, or drops it: entries for
/// another region and entries no longer live at `now` produce nothing.
pub fn parse_meteoalarm_entry(
    e: &MeteoAlarmEntry,
    user_emma_id: &Option<String>,
    now: i64,
) -> (r: Option<Alert>)
    ensures
        (match (r, meteoalarm_alert_spec(*e, opt_str_view(*user_emma_id), now)) {
            (Some(a), Some(m)) => a@ == m,
            (None, None) => true,
            _ => false,
        }),
{
    match (user_emma_id, &e.cap_geocode) {
        (Some(u), Some(g)) => {
            if !str_eq(g.as_str(), u.as_str()) {
                return None;
            }
        },
        _ => {},
    }
    let sent = match &e.cap_sent {
        Some(s) => match parse_rfc3339_epoch(s.as_str()) {
            Some(t) => t,
            None => now,
        },
        None => now,
    };
    let expires = match &e.cap_expires {
        Some(s) => match parse_rfc3339_epoch(s.as_str()) {
            Some(t) => t,
            None => default_expiry(sent),
        },
        None => default_expiry(sent),
    };
    if !alert_is_live(expires, now) {
        return None;
    }
    let event = match &e.cap_event {
        Some(v) => v.clone(),
        None => "Weather Alert".to_owned(),
    };
    let headline = match &e.title {
        Some(t) => t.clone(),
        None => event.clone(),
    };
    let severity = match &e.cap_severity {
        Some(s) => AlertSeverity::from_cap_string(s.as_str()),
        None => AlertSeverity::Unknown,
    };
    Some(
        Alert {
            id: match &e.cap_identifier {
                Some(i) => i.clone(),
                None => e.id.clone(),
            },
            event,
            severity,
            urgency: match &e.cap_urgency {
                Some(u) => u.clone(),
                None => "Unknown".to_owned(),
            },
            headline,
            description: String::new(),
            instruction: None,
            area_desc: match &e.cap_area_desc {
                Some(a) => a.clone(),
                None => String::new(),
            },
            sent,
            expires,
        },
    )
}

/// The alerts a feed's entries normalize into, in feed order.
pub open spec fn meteoalarm_alerts_spec(
    entries: Seq<MeteoAlarmEntry>,
    user_emma: Option<Seq<char>>,
    now: i64,
) -> Seq<AlertModel>
    decreases entries.len(),
{
    if entries.len() == 0 {
        Seq::empty()
    } else {
        let rest = meteoalarm_alerts_spec(entries.drop_last(), user_emma, now);
        match meteoalarm_alert_spec(entries.last(), user_emma, now) {
            Some(m) => rest.push(m),
            None => rest,
        }
    }
}

/// No alert the normalizer hands out is already expired relative to
/// the resolution time it was produced with.
pub proof fn lemma_meteoalarm_alerts_live(
    entries: Seq<MeteoAlarmEntry>,
    user_emma: Option<Seq<char>>,
    now: i64,
)
    ensures
        forall|k: int|
            0 <= k < meteoalarm_alerts_spec(entries, user_emma, now).len() ==> (
            #[trigger] meteoalarm_alerts_spec(entries, user_emma, now)[k]).expires > now,
    decreases entries.len(),
{
    if entries.len() > 0 {
        lemma_meteoalarm_alerts_live(entries.drop_last(), user_emma, now);
    }
}

/// Normalizes a whole feed: region-filtered, expiry-filtered, in feed
/// order.
pub fn meteoalarm_alerts_from_entries(
    entries: &Vec<MeteoAlarmEntry>,
    user_emma_id: &Option<String>,
    now: i64,
) -> (r: Vec<Alert>)
    ensures
        alerts_view(r@) == meteoalarm_alerts_spec(entries@, opt_str_view(*user_emma_id), now),
{
    let mut out: Vec<Alert> = Vec::new();
    proof {
        assert(entries@.take(0) =~= Seq::<MeteoAlarmEntry>::empty());
        assert(alerts_view(out@) =~= Seq::<AlertModel>::empty());
    }
    let mut i: usize = 0;
    while i < entries.len()
        invariant
            i <= entries@.len(),
            alerts_view(out@) == meteoalarm_alerts_spec(
                entries@.take(i as int),
                opt_str_view(*user_emma_id),
                now,
            ),
        decreases entries@.len() - i,
    {
        proof {
            assert(entries@.take(i + 1).drop_last() =~= entries@.take(i as int));
            assert(entries@.take(i + 1).last() == entries@[i as int]);
        }
        let ghost before = alerts_view(out@);
        match parse_meteoalarm_entry(&entries[i], user_emma_id, now) {
            Some(a) => {
                out.push(a);
                proof {
                    assert(alerts_view(out@) =~= before.push(a@));
                }
            },
            None => {},
        }
        i = i + 1;
    }
    proof {
        assert(entries@.take(entries@.len() as int) =~= entries@);
    }
    out
}

/// Whether a codename row matches a place-name candidate: the row's
/// identifier carries the country prefix, and either name contains the
/// other. Both names are expected folded to lowercase already.
pub open spec fn code_match(
    id: Seq<char>,
    name: Seq<char>,
    cand: Seq<char>,
    prefix: Seq<char>,
) -> bool {
    prefix.is_prefix_of(id) && (is_substring(name, cand) || is_substring(cand, name))
}

/// The identifier of the first row matching the candidate, if any.
pub open spec fn pick_for_candidate(
    codes: Seq<(Seq<char>, Seq<char>)>,
    cand: Seq<char>,
    prefix: Seq<char>,
) -> Option<Seq<char>>
    decreases codes.len(),
{
    if codes.len() == 0 {
        None
    } else if code_match(codes.first().0, codes.first().1, cand, prefix) {
        Some(codes.first().0)
    } else {
        pick_for_candidate(codes.drop_first(), cand, prefix)
    }
}

/// The identifier picked for the first candidate that matches any row:
/// candidates are tried most specific first, and the first match wins.
pub open spec fn emma_pick_spec(
    cands: Seq<Seq<char>>,
    codes: Seq<(Seq<char>, Seq<char>)>,
    prefix: Seq<char>,
) -> Option<Seq<char>>
    decreases cands.len(),
{
    if cands.len() == 0 {
        None
    } else {
        match pick_for_candidate(codes, cands.first(), prefix) {
            Some(id) => Some(id),
            None => emma_pick_spec(cands.drop_first(), codes, prefix),
        }
    }
}

/// Rows that do not match can be skipped without changing the pick.
proof fn lemma_pick_skip(
    codes: Seq<(Seq<char>, Seq<char>)>,
    cand: Seq<char>,
    prefix: Seq<char>,
    i: int,
)
    requires
        0 <= i <= codes.len(),
        forall|j: int|
            0 <= j < i ==> !code_match((#[trigger] codes[j]).0, codes[j].1, cand, prefix),
    ensures
        pick_for_candidate(codes, cand, prefix) == pick_for_candidate(codes.skip(i), cand, prefix),
    decreases i,
{
    if i > 0 {
        assert(codes.first() == codes[0]);
        assert forall|j: int|
            0 <= j < i - 1 implies !code_match(
            (#[trigger] codes.drop_first()[j]).0,
            codes.drop_first()[j].1,
            cand,
            prefix,
        ) by {
            assert(codes.drop_first()[j] == codes[j + 1]);
        }
        lemma_pick_skip(codes.drop_first(), cand, prefix, i - 1);
        assert(codes.drop_first().skip(i - 1) =~= codes.skip(i));
    } else {
        assert(codes.skip(0) =~= codes);
    }
}

/// Candidates for which no row matches can be skipped without changing
/// the pick.
proof fn lemma_emma_skip(
    cands: Seq<Seq<char>>,
    codes: Seq<(Seq<char>, Seq<char>)>,
    prefix: Seq<char>,
    k: int,
)
    requires
        0 <= k <= cands.len(),
        forall|j: int| 0 <= j < k ==> pick_for_candidate(codes, #[trigger] cands[j], prefix) is None,
    ensures
        emma_pick_spec(cands, codes, prefix) == emma_pick_spec(cands.skip(k), codes, prefix),
    decreases k,
{
    if k > 0 {
        assert(cands.first() == cands[0]);
        assert forall|j: int|
            0 <= j < k - 1 implies pick_for_candidate(
            codes,
            #[trigger] cands.drop_first()[j],
            prefix,
        ) is None by {
            assert(cands.drop_first()[j] == cands[j + 1]);
        }
        lemma_emma_skip(cands.drop_first(), codes, prefix, k - 1);
        assert(cands.drop_first().skip(k - 1) =~= cands.skip(k));
    } else {
        assert(cands.skip(0) =~= cands);
    }
}

/// Picks the EMMA_ID for a list of lowercase place-name candidates out
/// of a lowercase-named codename table: candidates in order, rows in
/// order, first match wins.
pub fn resolve_emma_folded(
    cands: &Vec<String>,
    codes: &Vec<(String, String)>,
    prefix: &str,
) -> (r: Option<String>)
    ensures
        (match (r, emma_pick_spec(strings_view(cands@), pairs_view(codes@), prefix@)) {
            (Some(id), Some(sid)) => id@ == sid,
            (None, None) => true,
            _ => false,
        }),
{
    let ghost gcands = strings_view(cands@);
    let ghost gcodes = pairs_view(codes@);
    let mut k: usize = 0;
    while k < cands.len()
        invariant
            k <= cands@.len(),
            gcands == strings_view(cands@),
            gcodes == pairs_view(codes@),
            forall|j: int| 0 <= j < k ==> pick_for_candidate(gcodes, #[trigger] gcands[j], prefix@) is None,
        decreases cands@.len() - k,
    {
        let cand = &cands[k];
        let mut i: usize = 0;
        while i < codes.len()
            invariant
                i <= codes@.len(),
                k < cands@.len(),
                gcands == strings_view(cands@),
                gcodes == pairs_view(codes@),
                cand == &cands[k as int],
                forall|j: int|
                    0 <= j < k ==> pick_for_candidate(gcodes, #[trigger] gcands[j], prefix@) is None,
                forall|j: int|
                    0 <= j < i ==> !code_match(
                        (#[trigger] gcodes[j]).0,
                        gcodes[j].1,
                        gcands[k as int],
                        prefix@,
                    ),
            decreases codes@.len() - i,
        {
            let row = &codes[i];
            proof {
                assert(gcodes[i as int] == (row.0@, row.1@));
                assert(gcands[k as int] == cand@);
            }
            if str_starts_with(row.0.as_str(), prefix) && (str_contains(
                row.1.as_str(),
                cand.as_str(),
            ) || str_contains(cand.as_str(), row.1.as_str())) {
                proof {
                    lemma_pick_skip(gcodes, gcands[k as int], prefix@, i as int);
                    assert(gcodes.skip(i as int).first() == gcodes[i as int]);
                    assert(gcodes.skip(i as int).len() > 0);
                    lemma_emma_skip(gcands, gcodes, prefix@, k as int);
                    assert(gcands.skip(k as int).first() == gcands[k as int]);
                }
                return Some(row.0.clone());
            }
            i = i + 1;
        }
        proof {
            lemma_pick_skip(gcodes, gcands[k as int], prefix@, codes@.len() as int);
            assert(gcodes.skip(codes@.len() as int) =~= Seq::<(Seq<char>, Seq<char>)>::empty());
        }
        k = k + 1;
    }
    proof {
        lemma_emma_skip(gcands, gcodes, prefix@, cands@.len() as int);
        assert(gcands.skip(cands@.len() as int) =~= Seq::<Seq<char>>::empty());
    }
    None
}

/// The place-name candidates tried against the codename table, most
/// specific first, each folded to lowercase: the city (plainly and as
/// a German "Stadt" compound), the town, the county (plainly and as a
/// "Kreis" compound), and the state.
pub open spec fn emma_candidates_spec(
    city: Option<Seq<char>>,
    town: Option<Seq<char>>,
    county: Option<Seq<char>>,
    state: Option<Seq<char>>,
) -> Seq<Seq<char>> {
    (match city {
        Some(c) => seq![lower_of(c), lower_of("Stadt "@ + c)],
        None => Seq::<Seq<char>>::empty(),
    }) + (match town {
        Some(t) => seq![lower_of(t)],
        None => Seq::<Seq<char>>::empty(),
    }) + (match county {
        Some(c) => seq![lower_of(c), lower_of("Kreis "@ + c)],
        None => Seq::<Seq<char>>::empty(),
    }) + (match state {
        Some(s) => seq![lower_of(s)],
        None => Seq::<Seq<char>>::empty(),
    })
}

/// The codename table with each region name folded to lowercase.
pub open spec fn folded_codes_view(codes: Seq<(String, String)>) -> Seq<(Seq<char>, Seq<char>)> {
    codes.map_values(|p: (String, String)| (p.0@, lower_of(p.1@)))
}

/// Resolves the EMMA_ID for a reverse-geocoded place out of the
/// codename table: candidate names are folded to lowercase and tried
/// in order against the table's folded region names, keeping only rows
/// whose identifier carries the country code; the first match wins.
pub fn resolve_emma_id(
    city: &Option<String>,
    town: &Option<String>,
    county: &Option<String>,
    state: &Option<String>,
    codes: &Vec<(String, String)>,
    country_code: &str,
) -> (r: Option<String>)
    ensures
        (match (r, emma_pick_spec(
            emma_candidates_spec(
                opt_str_view(*city),
                opt_str_view(*town),
                opt_str_view(*county),
                opt_str_view(*state),
            ),
            folded_codes_view(codes@),
            country_code@,
        )) {
            (Some(id), Some(sid)) => id@ == sid,
            (None, None) => true,
            _ => false,
        }),
{
    let ghost gspec = emma_candidates_spec(
        opt_str_view(*city),
        opt_str_view(*town),
        opt_str_view(*county),
        opt_str_view(*state),
    );
    let mut cands: Vec<String> = Vec::new();
    match city {
        Some(c) => {
            cands.push(lowercase(c.as_str()));
            let compound = "Stadt ".to_owned().concat(c.as_str());
            cands.push(lowercase(compound.as_str()));
        },
        None => {},
    }
    match town {
        Some(t) => {
            cands.push(lowercase(t.as_str()));
        },
        None => {},
    }
    match county {
        Some(c) => {
            cands.push(lowercase(c.as_str()));
            let compound = "Kreis ".to_owned().concat(c.as_str());
            cands.push(lowercase(compound.as_str()));
        },
        None => {},
    }
    match state {
        Some(s) => {
            cands.push(lowercase(s.as_str()));
        },
        None => {},
    }
    proof {
        assert(strings_view(cands@) =~= gspec);
    }
    let mut folded: Vec<(String, String)> = Vec::new();
    let mut i: usize = 0;
    while i < codes.len()
        invariant
            i <= codes@.len(),
            pairs_view(folded@) == folded_codes_view(codes@.take(i as int)),
        decreases codes@.len() - i,
    {
        let row = &codes[i];
        let ghost before = pairs_view(folded@);
        folded.push((row.0.clone(), lowercase(row.1.as_str())));
        proof {
            assert(codes@.take(i + 1).drop_last() =~= codes@.take(i as int));
            assert(folded_codes_view(codes@.take(i + 1)) =~= folded_codes_view(
                codes@.take(i as int),
            ).push((codes@[i as int].0@, lower_of(codes@[i as int].1@))));
            assert(pairs_view(folded@) =~= before.push((row.0@, lower_of(row.1@))));
        }
        i = i + 1;
    }
    proof {
        assert(codes@.take(codes@.len() as int) =~= codes@);
    }
    resolve_emma_folded(&cands, &folded, country_code)
}

} // verus!
