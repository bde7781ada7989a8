//! The Canada adapter's pure logic: weather-office selection from the
//! provincial partitions, directory-listing link extraction for the
//! two-level hour/file crawl, and CAP document normalization with
//! polygon filtering and reissue deduplication.

use vstd::prelude::*;
use vstd::string::{StrSliceExecFns, StringExecFns};

use crate::alert::{Alert, AlertModel, alerts_view, opt_str_view};
use crate::polygon::{first_index, is_digit, point_in_polygon, point_in_polygon_spec};
use crate::severity::{AlertSeverity, severity_of};
use crate::text::{occurs_at, occurs_at_index, find_from, str_eq, str_starts_with, strings_view};
use crate::timestamp::{
    rfc3339_epoch_of, parse_rfc3339_epoch, default_expiry_spec, default_expiry, live_spec,
    alert_is_live,
};

verus! {

/// British Columbia and Yukon report to CWVR; Alberta and the
/// northern territories to CWNT; the prairies to CWWG; Ontario to
/// CWTO; Quebec to CWUL; the Atlantic provinces to CWHX. A border
/// point may fall to several offices; a point matching none falls back
/// to CWTO.
pub open spec fn eccc_offices_spec(lat: int, lon: int) -> Seq<Seq<char>> {
    let base = (if lon < -114_000_000 && lat < 60_000_000 {
        seq!["CWVR"@]
    } else {
        Seq::<Seq<char>>::empty()
    }) + (if lon < -124_000_000 && lat > 60_000_000 {
        seq!["CWVR"@]
    } else {
        Seq::<Seq<char>>::empty()
    }) + (if -120_000_000 <= lon <= -110_000_000 && lat < 60_000_000 {
        seq!["CWNT"@]
    } else {
        Seq::<Seq<char>>::empty()
    }) + (if lat > 60_000_000 && lon > -124_000_000 {
        seq!["CWNT"@]
    } else {
        Seq::<Seq<char>>::empty()
    }) + (if -110_000_000 <= lon <= -89_000_000 && lat < 60_000_000 {
        seq!["CWWG"@]
    } else {
        Seq::<Seq<char>>::empty()
    }) + (if -95_000_000 <= lon <= -74_000_000 && lat < 56_000_000 {
        seq!["CWTO"@]
    } else {
        Seq::<Seq<char>>::empty()
    }) + (if lon > -79_000_000 && lat < 55_000_000 && lon < -57_000_000 {
        seq!["CWUL"@]
    } else {
        Seq::<Seq<char>>::empty()
    }) + (if lon > -67_000_000 || (lon > -64_000_000 && lat < 48_000_000) {
        seq!["CWHX"@]
    } else {
        Seq::<Seq<char>>::empty()
    });
    if base.len() == 0 {
        seq!["CWTO"@]
    } else {
        base
    }
}

/// Weather-office codes whose feeds may carry alerts for the
/// coordinate, in the fixed partition order.
pub fn get_eccc_office_codes(lat: i64, lon: i64) -> (r: Vec<&'static str>)
    ensures
        r@.map_values(|s: &str| s@) == eccc_offices_spec(lat as int, lon as int),
{
    let mut offices: Vec<&'static str> = Vec::new();
    if lon < -114_000_000 && lat < 60_000_000 {
        offices.push("CWVR");
    }
    if lon < -124_000_000 && lat > 60_000_000 {
        offices.push("CWVR");
    }
    if -120_000_000 <= lon && lon <= -110_000_000 && lat < 60_000_000 {
        offices.push("CWNT");
    }
    if lat > 60_000_000 && lon > -124_000_000 {
        offices.push("CWNT");
    }
    if -110_000_000 <= lon && lon <= -89_000_000 && lat < 60_000_000 {
        offices.push("CWWG");
    }
    if -95_000_000 <= lon && lon <= -74_000_000 && lat < 56_000_000 {
        offices.push("CWTO");
    }
    if lon > -79_000_000 && lat < 55_000_000 && lon < -57_000_000 {
        offices.push("CWUL");
    }
    if lon > -67_000_000 || (lon > -64_000_000 && lat < 48_000_000) {
        offices.push("CWHX");
    }
    if offices.len() == 0 {
        offices.push("CWTO");
        proof {
            assert(offices@.map_values(|s: &str| s@) =~= eccc_offices_spec(
                lat as int,
                lon as int,
            ));
        }
    } else {
        proof {
            assert(offices@.map_values(|s: &str| s@) =~= eccc_offices_spec(
                lat as int,
                lon as int,
            ));
        }
    }
    offices
}

/// The CAP store's directory for one office on one day.
pub open spec fn eccc_directory_url_spec(yyyymmdd: Seq<char>, office: Seq<char>) -> Seq<char> {
    "https://dd.weather.gc.ca/today/alerts/cap/"@ + yyyymmdd + "/"@ + office + "/"@
}

/// Builds the CAP store directory URL for one office on one day.
pub fn eccc_directory_url(yyyymmdd: &str, office: &str) -> (r: String)
    ensures
        r@ == eccc_directory_url_spec(yyyymmdd@, office@),
{
    "https://dd.weather.gc.ca/today/alerts/cap/".to_owned().concat(yyyymmdd).concat("/").concat(
        office,
    ).concat("/")
}

/// An hour subdirectory under an office directory; the listing parser
/// hands out bare two-digit hours, so the slash is put back here.
pub open spec fn eccc_hour_url_spec(dir: Seq<char>, hour: Seq<char>) -> Seq<char> {
    dir + hour + "/"@
}

/// Joins an office directory URL with a listed hour.
pub fn eccc_hour_url(dir: &str, hour: &str) -> (r: String)
    ensures
        r@ == eccc_hour_url_spec(dir@, hour@),
{
    dir.to_owned().concat(hour).concat("/")
}

/// A CAP file under an hour directory.
pub open spec fn eccc_file_url_spec(dir: Seq<char>, file: Seq<char>) -> Seq<char> {
    dir + file
}

/// Joins an hour directory URL with a listed CAP file name.
pub fn eccc_file_url(dir: &str, file: &str) -> (r: String)
    ensures
        r@ == eccc_file_url_spec(dir@, file@),
{
    dir.to_owned().concat(file)
}

/// A trailing carriage return is not part of the line.
pub open spec fn strip_cr(l: Seq<char>) -> Seq<char> {
    if l.len() > 0 && l.last() == '\r' {
        l.drop_last()
    } else {
        l
    }
}

/// The lines of a listing, split on line feeds, without a final empty
/// line after a trailing line feed.
pub open spec fn split_lines(s: Seq<char>) -> Seq<Seq<char>>
    decreases s.len(),
{
    if s.len() == 0 {
        Seq::empty()
    } else {
        match first_index(s, '\n') {
            Some(i) => if 0 <= i < s.len() {
                seq![strip_cr(s.take(i))] + split_lines(s.skip(i + 1))
            } else {
                seq![strip_cr(s)]
            },
            None => seq![strip_cr(s)],
        }
    }
}

/// Index of the first occurrence of `needle` in `hay`, if any.
pub open spec fn first_occur(hay: Seq<char>, needle: Seq<char>) -> Option<int>
    decreases hay.len(),
{
    if occurs_at(hay, needle, 0) {
        Some(0)
    } else if hay.len() == 0 {
        None
    } else {
        match first_occur(hay.skip(1), needle) {
            Some(i) => Some(i + 1),
            None => None,
        }
    }
}

/// The value of the first `href` attribute on the line: what stands
/// between the first `href="` and the next quote.
pub open spec fn href_value(line: Seq<char>) -> Option<Seq<char>> {
    match first_occur(line, "href=\""@) {
        Some(h) => {
            let start = h + 6;
            match first_index(line.skip(start), '"') {
                Some(e) => Some(line.subrange(start, start + e)),
                None => None,
            }
        },
        None => None,
    }
}

/// The hour a listing line links to: an href of two digits and a
/// slash.
pub open spec fn hour_of_line(line: Seq<char>) -> Option<Seq<char>> {
    match href_value(line) {
        Some(h) => if h.len() == 3 && h[2] == '/' && is_digit(h[0]) && is_digit(h[1]) {
            Some(h.take(2))
        } else {
            None
        },
        None => None,
    }
}

/// The CAP file a listing line links to: an href ending in `.cap`.
pub open spec fn cap_of_line(line: Seq<char>) -> Option<Seq<char>> {
    match href_value(line) {
        Some(h) => if h.len() >= 4 && h.subrange(h.len() - 4, h.len() as int) == ".cap"@ {
            Some(h)
        } else {
            None
        },
        None => None,
    }
}

/// The hour directories a listing page links to, in page order.
pub open spec fn hour_dirs_spec(s: Seq<char>) -> Seq<Seq<char>> {
    collect_hours(split_lines(s))
}

/// The hours collected from a list of lines.
pub open spec fn collect_hours(lines: Seq<Seq<char>>) -> Seq<Seq<char>>
    decreases lines.len(),
{
    if lines.len() == 0 {
        Seq::empty()
    } else {
        let rest = collect_hours(lines.drop_last());
        match hour_of_line(lines.last()) {
            Some(h) => rest.push(h),
            None => rest,
        }
    }
}

/// The CAP files a listing page links to, in page order.
pub open spec fn cap_links_spec(s: Seq<char>) -> Seq<Seq<char>> {
    collect_caps(split_lines(s))
}

/// The CAP links collected from a list of lines.
pub open spec fn collect_caps(lines: Seq<Seq<char>>) -> Seq<Seq<char>>
    decreases lines.len(),
{
    if lines.len() == 0 {
        Seq::empty()
    } else {
        let rest = collect_caps(lines.drop_last());
        match cap_of_line(lines.last()) {
            Some(h) => rest.push(h),
            None => rest,
        }
    }
}

/// `first_occur` finds the first occurrence: the needle occurs there
/// and nowhere before; `None` means it occurs nowhere.
proof fn lemma_first_occur(hay: Seq<char>, needle: Seq<char>)
    ensures
        match first_occur(hay, needle) {
            Some(i) => 0 <= i && occurs_at(hay, needle, i) && forall|j: int|
                0 <= j < i ==> !occurs_at(hay, needle, j),
            None => forall|j: int| 0 <= j ==> !occurs_at(hay, needle, j),
        },
    decreases hay.len(),
{
    if !occurs_at(hay, needle, 0) && hay.len() > 0 {
        lemma_first_occur(hay.skip(1), needle);
        let t = hay.skip(1);
        assert forall|j: int| 1 <= j && j + needle.len() <= hay.len() implies occurs_at(
            hay,
            needle,
            j,
        ) == occurs_at(t, needle, j - 1) by {
            assert(hay.subrange(j, j + needle.len()) =~= t.subrange(j - 1, j - 1 + needle.len()));
        }
        match first_occur(t, needle) {
            Some(i) => {
                assert(occurs_at(hay, needle, i + 1));
                assert forall|j: int| 0 <= j < i + 1 implies !occurs_at(hay, needle, j) by {
                    if j > 0 {
                        assert(!occurs_at(t, needle, j - 1));
                    }
                }
            },
            None => {
                assert forall|j: int| 0 <= j implies !occurs_at(hay, needle, j) by {
                    if j > 0 {
                        assert(!occurs_at(t, needle, j - 1));
                    }
                }
            },
        }
    }
}

/// A position where the needle occurs, with no occurrence before it,
/// is the first occurrence.
proof fn lemma_first_occur_is(hay: Seq<char>, needle: Seq<char>, i: int)
    requires
        occurs_at(hay, needle, i),
        forall|j: int| 0 <= j < i ==> !occurs_at(hay, needle, j),
    ensures
        first_occur(hay, needle) == Some(i),
{
    lemma_first_occur(hay, needle);
}

/// No occurrence anywhere means no first occurrence.
proof fn lemma_first_occur_none(hay: Seq<char>, needle: Seq<char>)
    requires
        forall|j: int| 0 <= j ==> !occurs_at(hay, needle, j),
    ensures
        first_occur(hay, needle) is None,
{
    lemma_first_occur(hay, needle);
}

/// The lines of a listing, as owned strings.
fn split_lines_vec(s: &str) -> (r: Vec<String>)
    ensures
        strings_view(r@) == split_lines(s@),
{
    let n = s.unicode_len();
    let mut out: Vec<String> = Vec::new();
    proof {
        assert(s@.skip(0) =~= s@);
        assert(strings_view(out@) =~= Seq::<Seq<char>>::empty());
        assert(Seq::<Seq<char>>::empty() + split_lines(s@) =~= split_lines(s@));
    }
    let mut pos: usize = 0;
    while pos < n
        invariant
            pos <= n,
            n == s@.len(),
            split_lines(s@) == strings_view(out@) + split_lines(s@.skip(pos as int)),
        decreases n - pos,
    {
        let mut e = pos;
        while e < n && s.get_char(e) != '\n'
            invariant
                pos <= e <= n,
                n == s@.len(),
                forall|j: int| pos <= j < e ==> s@[j] != '\n',
            decreases n - e,
        {
            e = e + 1;
        }
        let ghost u = s@.skip(pos as int);
        proof {
            assert(u.len() > 0);
            if e < n {
                assert(u[e - pos] == '\n');
                assert forall|j: int| 0 <= j < e - pos implies u[j] != '\n' by {
                    assert(s@[pos + j] != '\n');
                }
                crate::polygon::lemma_first_index_is(u, '\n', e - pos);
                assert(u.take(e - pos) =~= s@.subrange(pos as int, e as int));
                assert(u.skip(e - pos + 1) =~= s@.skip(e + 1));
            } else {
                crate::polygon::lemma_first_index(u, '\n');
                if first_index(u, '\n') is Some {
                    let fi = first_index(u, '\n')->Some_0;
                    assert(s@[pos + fi] != '\n');
                }
                assert(u =~= s@.subrange(pos as int, e as int));
            }
        }
        let raw = if e > pos && s.get_char(e - 1) == '\r' {
            proof {
                assert(s@.subrange(pos as int, e as int).last() == s@[e - 1]);
                assert(s@.subrange(pos as int, e - 1) =~= s@.subrange(
                    pos as int,
                    e as int,
                ).drop_last());
            }
            s.substring_char(pos, e - 1)
        } else {
            s.substring_char(pos, e)
        };
        let ghost before = strings_view(out@);
        out.push(raw.to_owned());
        proof {
            assert(strings_view(out@) =~= before.push(raw@));
            assert(raw@ == strip_cr(s@.subrange(pos as int, e as int)));
            assert(before.push(raw@) =~= before + seq![raw@]);
            if e < n {
                assert((before + seq![raw@]) + split_lines(s@.skip(e + 1)) =~= before + (seq![raw@]
                    + split_lines(s@.skip(e + 1))));
            } else {
                assert(s@.skip(e as int) =~= Seq::<char>::empty());
                assert((before + seq![raw@]) + split_lines(s@.skip(e as int)) =~= before + (
                seq![raw@] + split_lines(s@.skip(e as int))));
            }
        }
        if e < n {
            pos = e + 1;
        } else {
            pos = e;
        }
    }
    proof {
        assert(s@.skip(pos as int) =~= Seq::<char>::empty());
        assert(strings_view(out@) + split_lines(Seq::<char>::empty()) =~= strings_view(out@));
    }
    out
}

/// The hour an hour-directory listing line links to, if any.
fn hour_of_line_exec(line: &str) -> (r: Option<String>)
    ensures
        (match (r, hour_of_line(line@)) {
            (Some(h), Some(sh)) => h@ == sh,
            (None, None) => true,
            _ => false,
        }),
{
    match href_of_line_exec(line) {
        Some(h) => {
            if h.as_str().unicode_len() == 3 && h.as_str().get_char(2) == '/' {
                let d0 = h.as_str().get_char(0) as u32;
                let d1 = h.as_str().get_char(1) as u32;
                if 48 <= d0 && d0 <= 57 && 48 <= d1 && d1 <= 57 {
                    let two = h.as_str().substring_char(0, 2);
                    proof {
                        assert(two@ =~= h@.take(2));
                    }
                    Some(two.to_owned())
                } else {
                    None
                }
            } else {
                None
            }
        },
        None => None,
    }
}

/// The CAP file a file listing line links to, if any.
fn cap_of_line_exec(line: &str) -> (r: Option<String>)
    ensures
        (match (r, cap_of_line(line@)) {
            (Some(h), Some(sh)) => h@ == sh,
            (None, None) => true,
            _ => false,
        }),
{
    match href_of_line_exec(line) {
        Some(h) => {
            let hl = h.as_str().unicode_len();
            if hl >= 4 && occurs_at_index(h.as_str(), ".cap", hl - 4) {
                proof {
                    reveal_strlit(".cap");
                    assert(h@.subrange(h@.len() - 4, h@.len() as int) =~= h@.subrange(
                        hl - 4,
                        hl - 4 + ".cap"@.len(),
                    ));
                }
                Some(h)
            } else {
                proof {
                    reveal_strlit(".cap");
                    if hl >= 4 {
                        assert(h@.subrange(h@.len() - 4, h@.len() as int) =~= h@.subrange(
                            hl - 4,
                            hl - 4 + ".cap"@.len(),
                        ));
                    }
                }
                None
            }
        },
        None => None,
    }
}

/// The first href value on a listing line, if any.
fn href_of_line_exec(line: &str) -> (r: Option<String>)
    ensures
        (match (r, href_value(line@)) {
            (Some(h), Some(sh)) => h@ == sh,
            (None, None) => true,
            _ => false,
        }),
{
    let n = line.unicode_len();
    match find_from(line, 0, "href=\"") {
        Some(h) => {
            proof {
                lemma_first_occur_is(line@, "href=\""@, h as int);
                reveal_strlit("href=\"");
            }
            let start = h + 6;
            let ghost rest = line@.skip(start as int);
            let mut e = start;
            while e < n && line.get_char(e) != '"'
                invariant
                    start <= e <= n,
                    n == line@.len(),
                    forall|j: int| start <= j < e ==> line@[j] != '"',
                decreases n - e,
            {
                e = e + 1;
            }
            if e == n {
                proof {
                    crate::polygon::lemma_first_index(rest, '"');
                    if first_index(rest, '"') is Some {
                        let fi = first_index(rest, '"')->Some_0;
                        assert(line@[start + fi] != '"');
                    }
                }
                return None;
            }
            proof {
                assert(rest[e - start] == '"');
                assert forall|j: int| 0 <= j < e - start implies rest[j] != '"' by {
                    assert(line@[start + j] != '"');
                }
                crate::polygon::lemma_first_index_is(rest, '"', e - start);
            }
            let href = line.substring_char(start, e);
            proof {
                assert(href@ =~= line@.subrange(start as int, start + (e - start)));
            }
            Some(href.to_owned())
        },
        None => {
            proof {
                lemma_first_occur_none(line@, "href=\""@);
            }
            None
        },
    }
}

/// Extracts the hour directories a listing page links to, in page
/// order.
pub fn hour_dirs_from_listing(html: &str) -> (r: Vec<String>)
    ensures
        strings_view(r@) == hour_dirs_spec(html@),
{
    let lines = split_lines_vec(html);
    let ghost glines = split_lines(html@);
    let mut out: Vec<String> = Vec::new();
    proof {
        assert(glines.take(0) =~= Seq::<Seq<char>>::empty());
        assert(strings_view(out@) =~= Seq::<Seq<char>>::empty());
    }
    let mut i: usize = 0;
    while i < lines.len()
        invariant
            i <= lines@.len(),
            strings_view(lines@) == glines,
            strings_view(out@) == collect_hours(glines.take(i as int)),
        decreases lines@.len() - i,
    {
        proof {
            assert(glines.take(i + 1).drop_last() =~= glines.take(i as int));
            assert(glines.take(i + 1).last() == glines[i as int]);
            assert(glines[i as int] == lines@[i as int]@);
        }
        let ghost before = strings_view(out@);
        match hour_of_line_exec(lines[i].as_str()) {
            Some(h) => {
                proof {
                    assert(hour_of_line(glines[i as int]) is Some);
                }
                out.push(h);
                proof {
                    assert(strings_view(out@) =~= before.push(
                        hour_of_line(glines[i as int])->Some_0,
                    ));
                }
            },
            None => {},
        }
        i = i + 1;
    }
    proof {
        assert(glines.take(glines.len() as int) =~= glines);
    }
    out
}

/// Extracts the CAP files a listing page links to, in page order.
pub fn cap_links_from_listing(html: &str) -> (r: Vec<String>)
    ensures
        strings_view(r@) == cap_links_spec(html@),
{
    let lines = split_lines_vec(html);
    let ghost glines = split_lines(html@);
    let mut out: Vec<String> = Vec::new();
    proof {
        assert(glines.take(0) =~= Seq::<Seq<char>>::empty());
        assert(strings_view(out@) =~= Seq::<Seq<char>>::empty());
    }
    let mut i: usize = 0;
    while i < lines.len()
        invariant
            i <= lines@.len(),
            strings_view(lines@) == glines,
            strings_view(out@) == collect_caps(glines.take(i as int)),
        decreases lines@.len() - i,
    {
        proof {
            assert(glines.take(i + 1).drop_last() =~= glines.take(i as int));
            assert(glines.take(i + 1).last() == glines[i as int]);
            assert(glines[i as int] == lines@[i as int]@);
        }
        let ghost before = strings_view(out@);
        match cap_of_line_exec(lines[i].as_str()) {
            Some(h) => {
                out.push(h);
                proof {
                    assert(strings_view(out@) =~= before.push(
                        cap_of_line(glines[i as int])->Some_0,
                    ));
                }
            },
            None => {},
        }
        i = i + 1;
    }
    proof {
        assert(glines.take(glines.len() as int) =~= glines);
    }
    out
}

/// One area of a CAP info block, as plain values.
pub struct EcccArea {
    /// Description of the area.
    pub area_desc: Option<String>,
    /// The polygon delimiting the area: whitespace-separated `lat,lon`
    /// pairs.
    pub polygon: Option<String>,
}

/// One info block of a CAP document; a document carries one per
/// language.
pub struct EcccInfo {
    /// Language tag, such as "en-CA".
    pub language: Option<String>,
    /// CAP event name.
    pub event: Option<String>,
    /// CAP urgency text.
    pub urgency: Option<String>,
    /// CAP severity text.
    pub severity: Option<String>,
    /// CAP expires timestamp, RFC 3339.
    pub expires: Option<String>,
    /// Headline.
    pub headline: Option<String>,
    /// Long description.
    pub description: Option<String>,
    /// Instruction text.
    pub instruction: Option<String>,
    /// The areas the block speaks of.
    pub areas: Vec<EcccArea>,
}

/// A CAP document, as plain values.
pub struct EcccCapDoc {
    /// CAP identifier.
    pub identifier: String,
    /// CAP status; only "Actual" documents count.
    pub status: String,
    /// CAP message type; "Cancel" documents are skipped.
    pub msg_type: String,
    /// CAP sent timestamp, RFC 3339.
    pub sent: String,
    /// The document's info blocks.
    pub info_blocks: Vec<EcccInfo>,
}

/// Whether an info block is English-language.
pub open spec fn info_is_english(b: EcccInfo) -> bool {
    match b.language {
        Some(l) => "en"@.is_prefix_of(l@),
        None => false,
    }
}

/// Index of the first English-language info block, if any.
pub open spec fn first_english(blocks: Seq<EcccInfo>) -> Option<int>
    decreases blocks.len(),
{
    if blocks.len() == 0 {
        None
    } else if info_is_english(blocks.first()) {
        Some(0)
    } else {
        match first_english(blocks.drop_first()) {
            Some(i) => Some(i + 1),
            None => None,
        }
    }
}

/// The info block a document is read from: the first English one, else
/// the first.
pub open spec fn pick_info(blocks: Seq<EcccInfo>) -> Option<int> {
    match first_english(blocks) {
        Some(i) => Some(i),
        None => if blocks.len() > 0 {
            Some(0)
        } else {
            None
        },
    }
}

/// Whether an area's polygon contains the point. An area without a
/// polygon matches nothing.
pub open spec fn area_matches(a: EcccArea, lat: int, lon: int) -> bool {
    match a.polygon {
        Some(p) => point_in_polygon_spec(lat, lon, p@),
        None => false,
    }
}

/// Index of the first area containing the point, if any.
pub open spec fn first_area_match(areas: Seq<EcccArea>, lat: int, lon: int) -> Option<int>
    decreases areas.len(),
{
    if areas.len() == 0 {
        None
    } else if area_matches(areas.first(), lat, lon) {
        Some(0)
    } else {
        match first_area_match(areas.drop_first(), lat, lon) {
            Some(i) => Some(i + 1),
            None => None,
        }
    }
}

/// Screens a document for the point: an "Actual", non-"Cancel"
/// document whose chosen info block has an area containing the point
/// yields the event name, the matched area's description and the
/// chosen block's index.
pub open spec fn eccc_screen_spec(doc: EcccCapDoc, lat: int, lon: int) -> Option<
    (Seq<char>, Seq<char>, int),
> {
    if doc.status@ != "Actual"@ {
        None
    } else if doc.msg_type@ == "Cancel"@ {
        None
    } else {
        match pick_info(doc.info_blocks@) {
            Some(bi) => {
                let info = doc.info_blocks@[bi];
                match first_area_match(info.areas@, lat, lon) {
                    Some(ai) => {
                        let area_desc = match info.areas@[ai].area_desc {
                            Some(a) => a@,
                            None => Seq::<char>::empty(),
                        };
                        let event = match info.event {
                            Some(e) => e@,
                            None => "Weather Alert"@,
                        };
                        Some((event, area_desc, bi))
                    },
                    None => None,
                }
            },
            None => None,
        }
    }
}

/// The dedup key a document claims: its event name and matched area.
pub open spec fn eccc_key_spec(doc: EcccCapDoc, lat: int, lon: int) -> Option<
    (Seq<char>, Seq<char>),
> {
    match eccc_screen_spec(doc, lat, lon) {
        Some((e, a, bi)) => Some((e, a)),
        None => None,
    }
}

/// The alert a screened document normalizes into: `None` where the
/// document is screened out or no longer live at `now`.
pub open spec fn eccc_alert_spec(doc: EcccCapDoc, lat: int, lon: int, now: i64) -> Option<
    AlertModel,
> {
    match eccc_screen_spec(doc, lat, lon) {
        Some((event, area_desc, bi)) => {
            let info = doc.info_blocks@[bi];
            let sent = match rfc3339_epoch_of(doc.sent@) {
                Some(t) => t,
                None => now,
            };
            let expires = match info.expires {
                Some(x) => match rfc3339_epoch_of(x@) {
                    Some(t) => t,
                    None => default_expiry_spec(sent),
                },
                None => default_expiry_spec(sent),
            };
            if !live_spec(expires, now) {
                None
            } else {
                Some(
                    AlertModel {
                        id: doc.identifier@,
                        event: event,
                        severity: match info.severity {
                            Some(s) => severity_of(s@),
                            None => AlertSeverity::Unknown,
                        },
                        urgency: match info.urgency {
                            Some(u) => u@,
                            None => "Unknown"@,
                        },
                        headline: match info.headline {
                            Some(h) => h@,
                            None => event,
                        },
                        description: match info.description {
                            Some(d) => d@,
                            None => Seq::<char>::empty(),
                        },
                        instruction: opt_str_view(info.instruction),
                        area_desc: area_desc,
                        sent: sent,
                        expires: expires,
                    },
                )
            }
        },
        None => None,
    }
}

/// The dedup keys claimed by a list of documents: every screened
/// document claims its key, live or not.
pub open spec fn eccc_keys_spec(docs: Seq<EcccCapDoc>, lat: int, lon: int) -> Set<
    (Seq<char>, Seq<char>),
>
    decreases docs.len(),
{
    if docs.len() == 0 {
        Set::empty()
    } else {
        let prior = eccc_keys_spec(docs.drop_last(), lat, lon);
        match eccc_key_spec(docs.last(), lat, lon) {
            Some(k) => prior.insert(k),
            None => prior,
        }
    }
}

/// The alerts a list of documents aggregates into: documents in order,
/// each screened, deduplicated against the keys of all earlier
/// documents, and dropped when expired.
pub open spec fn eccc_pipeline_spec(
    docs: Seq<EcccCapDoc>,
    lat: int,
    lon: int,
    now: i64,
) -> Seq<AlertModel>
    decreases docs.len(),
{
    if docs.len() == 0 {
        Seq::empty()
    } else {
        let rest = eccc_pipeline_spec(docs.drop_last(), lat, lon, now);
        let prior = eccc_keys_spec(docs.drop_last(), lat, lon);
        match eccc_key_spec(docs.last(), lat, lon) {
            Some(k) => if prior.contains(k) {
                rest
            } else {
                match eccc_alert_spec(docs.last(), lat, lon, now) {
                    Some(m) => rest.push(m),
                    None => rest,
                }
            },
            None => rest,
        }
    }
}

/// Screens a document against the point, executable form.
pub fn screen_eccc_doc(doc: &EcccCapDoc, lat: i64, lon: i64) -> (r: Option<
    (String, String, usize),
>)
    ensures
        (match (r, eccc_screen_spec(*doc, lat as int, lon as int)) {
            (Some(p), Some(sp)) => p.0@ == sp.0 && p.1@ == sp.1 && p.2 == sp.2 && sp.2
                < doc.info_blocks@.len(),
            (None, None) => true,
            _ => false,
        }),
{
    if !str_eq(doc.status.as_str(), "Actual") {
        return None;
    }
    if str_eq(doc.msg_type.as_str(), "Cancel") {
        return None;
    }
    let nblocks = doc.info_blocks.len();
    let ghost gblocks = doc.info_blocks@;
    let mut bi: usize = 0;
    let mut en_found = false;
    while bi < nblocks && !en_found
        invariant
            bi <= nblocks,
            nblocks == gblocks.len(),
            gblocks == doc.info_blocks@,
            !en_found ==> forall|j: int| 0 <= j < bi ==> !info_is_english(#[trigger] gblocks[j]),
            en_found ==> bi < nblocks && info_is_english(gblocks[bi as int]) && forall|j: int|
                0 <= j < bi ==> !info_is_english(#[trigger] gblocks[j]),
        decreases nblocks - bi + (if en_found {
            0int
        } else {
            1int
        }),
    {
        let is_en = match &doc.info_blocks[bi].language {
            Some(l) => str_starts_with(l.as_str(), "en"),
            None => false,
        };
        if is_en {
            en_found = true;
        } else {
            bi = bi + 1;
        }
    }
    proof {
        if en_found {
            lemma_first_english_is(gblocks, bi as int);
        } else {
            lemma_first_english(gblocks);
            if first_english(gblocks) is Some {
                let fi = first_english(gblocks)->Some_0;
                assert(!info_is_english(gblocks[fi]));
            }
        }
    }
    let chosen: usize = if en_found {
        bi
    } else {
        if nblocks == 0 {
            return None;
        }
        0
    };
    let info = &doc.info_blocks[chosen];
    let nareas = info.areas.len();
    let ghost gareas = info.areas@;
    let mut ai: usize = 0;
    while ai < nareas
        invariant
            ai <= nareas,
            nareas == gareas.len(),
            gareas == doc.info_blocks@[chosen as int].areas@,
            chosen < doc.info_blocks@.len(),
            info == &doc.info_blocks[chosen as int],
            doc.status@ == "Actual"@,
            doc.msg_type@ != "Cancel"@,
            pick_info(doc.info_blocks@) == Some(chosen as int),
            forall|j: int|
                0 <= j < ai ==> !area_matches(#[trigger] gareas[j], lat as int, lon as int),
        decreases nareas - ai,
    {
        let hit = match &info.areas[ai].polygon {
            Some(p) => point_in_polygon(lat, lon, p.as_str()),
            None => false,
        };
        if hit {
            proof {
                lemma_first_area_is(gareas, lat as int, lon as int, ai as int);
            }
            let area_desc = match &info.areas[ai].area_desc {
                Some(a) => a.clone(),
                None => String::new(),
            };
            let event = match &info.event {
                Some(e) => e.clone(),
                None => "Weather Alert".to_owned(),
            };
            return Some((event, area_desc, chosen));
        }
        ai = ai + 1;
    }
    proof {
        lemma_first_area(gareas, lat as int, lon as int);
        if first_area_match(gareas, lat as int, lon as int) is Some {
            let fi = first_area_match(gareas, lat as int, lon as int)->Some_0;
            assert(!area_matches(gareas[fi], lat as int, lon as int));
        }
    }
    None
}

/// `first_english` finds the first English block, with none before it.
proof fn lemma_first_english(blocks: Seq<EcccInfo>)
    ensures
        match first_english(blocks) {
            Some(i) => 0 <= i < blocks.len() && info_is_english(blocks[i]) && forall|j: int|
                0 <= j < i ==> !info_is_english(#[trigger] blocks[j]),
            None => forall|j: int| 0 <= j < blocks.len() ==> !info_is_english(#[trigger] blocks[j]),
        },
    decreases blocks.len(),
{
    if blocks.len() > 0 && !info_is_english(blocks.first()) {
        lemma_first_english(blocks.drop_first());
        let t = blocks.drop_first();
        match first_english(t) {
            Some(i) => {
                assert(blocks[i + 1] == t[i]);
                assert forall|j: int| 0 <= j < i + 1 implies !info_is_english(
                    #[trigger] blocks[j],
                ) by {
                    if j > 0 {
                        assert(!info_is_english(t[j - 1]));
                    }
                }
            },
            None => {
                assert forall|j: int| 0 <= j < blocks.len() implies !info_is_english(
                    #[trigger] blocks[j],
                ) by {
                    if j > 0 {
                        assert(!info_is_english(t[j - 1]));
                    }
                }
            },
        }
    }
}

/// An English block with none before it is the first one.
proof fn lemma_first_english_is(blocks: Seq<EcccInfo>, i: int)
    requires
        0 <= i < blocks.len(),
        info_is_english(blocks[i]),
        forall|j: int| 0 <= j < i ==> !info_is_english(#[trigger] blocks[j]),
    ensures
        first_english(blocks) == Some(i),
{
    lemma_first_english(blocks);
}

/// `first_area_match` finds the first containing area, with none
/// before it.
proof fn lemma_first_area(areas: Seq<EcccArea>, lat: int, lon: int)
    ensures
        match first_area_match(areas, lat, lon) {
            Some(i) => 0 <= i < areas.len() && area_matches(areas[i], lat, lon) && forall|j: int|
                0 <= j < i ==> !area_matches(#[trigger] areas[j], lat, lon),
            None => forall|j: int| 0 <= j < areas.len() ==> !area_matches(
                #[trigger] areas[j],
                lat,
                lon,
            ),
        },
    decreases areas.len(),
{
    if areas.len() > 0 && !area_matches(areas.first(), lat, lon) {
        lemma_first_area(areas.drop_first(), lat, lon);
        let t = areas.drop_first();
        match first_area_match(t, lat, lon) {
            Some(i) => {
                assert(areas[i + 1] == t[i]);
                assert forall|j: int| 0 <= j < i + 1 implies !area_matches(
                    #[trigger] areas[j],
                    lat,
                    lon,
                ) by {
                    if j > 0 {
                        assert(!area_matches(t[j - 1], lat, lon));
                    }
                }
            },
            None => {
                assert forall|j: int| 0 <= j < areas.len() implies !area_matches(
                    #[trigger] areas[j],
                    lat,
                    lon,
                ) by {
                    if j > 0 {
                        assert(!area_matches(t[j - 1], lat, lon));
                    }
                }
            },
        }
    }
}

/// A containing area with none before it is the first one.
proof fn lemma_first_area_is(areas: Seq<EcccArea>, lat: int, lon: int, i: int)
    requires
        0 <= i < areas.len(),
        area_matches(areas[i], lat, lon),
        forall|j: int| 0 <= j < i ==> !area_matches(#[trigger] areas[j], lat, lon),
    ensures
        first_area_match(areas, lat, lon) == Some(i),
{
    lemma_first_area(areas, lat, lon);
}

/// Normalizes one CAP document into an alert: screened against the
/// point, dropped when no longer live at `now`. Deduplication happens
/// across documents, in `eccc_alerts_from_docs`.
pub fn parse_eccc_cap(doc: &EcccCapDoc, lat: i64, lon: i64, now: i64) -> (r: Option<Alert>)
    ensures
        (match (r, eccc_alert_spec(*doc, lat as int, lon as int, now)) {
            (Some(a), Some(m)) => a@ == m,
            (None, None) => true,
            _ => false,
        }),
{
    match screen_eccc_doc(doc, lat, lon) {
        Some((event, area_desc, bi)) => {
            let info = &doc.info_blocks[bi];
            let sent = match parse_rfc3339_epoch(doc.sent.as_str()) {
                Some(t) => t,
                None => now,
            };
            let expires = match &info.expires {
                Some(x) => match parse_rfc3339_epoch(x.as_str()) {
                    Some(t) => t,
                    None => default_expiry(sent),
                },
                None => default_expiry(sent),
            };
            if !alert_is_live(expires, now) {
                return None;
            }
            let headline = match &info.headline {
                Some(h) => h.clone(),
                None => event.clone(),
            };
            Some(
                Alert {
                    id: doc.identifier.clone(),
                    event,
                    severity: match &info.severity {
                        Some(s) => AlertSeverity::from_cap_string(s.as_str()),
                        None => AlertSeverity::Unknown,
                    },
                    urgency: match &info.urgency {
                        Some(u) => u.clone(),
                        None => "Unknown".to_owned(),
                    },
                    headline,
                    description: match &info.description {
                        Some(d) => d.clone(),
                        None => String::new(),
                    },
                    instruction: match &info.instruction {
                        Some(s) => Some(s.clone()),
                        None => None,
                    },
                    area_desc,
                    sent,
                    expires,
                },
            )
        },
        None => None,
    }
}

/// Whether the key list holds the given event and area pair.
fn key_in_list(seen: &Vec<(String, String)>, event: &str, area: &str) -> (r: bool)
    ensures
        r == exists|j: int|
            0 <= j < seen@.len() && (#[trigger] seen@[j]).0@ == event@ && seen@[j].1@ == area@,
{
    let mut i: usize = 0;
    while i < seen.len()
        invariant
            i <= seen@.len(),
            forall|j: int|
                0 <= j < i ==> !((#[trigger] seen@[j]).0@ == event@ && seen@[j].1@ == area@),
        decreases seen@.len() - i,
    {
        if str_eq(seen[i].0.as_str(), event) && str_eq(seen[i].1.as_str(), area) {
            return true;
        }
        i = i + 1;
    }
    false
}

/// Aggregates a crawl's CAP documents into the unified alert list:
/// each document screened against the point, reissues deduplicated by
/// their event and area key with the first occurrence kept, and
/// expired alerts dropped.
pub fn eccc_alerts_from_docs(docs: &Vec<EcccCapDoc>, lat: i64, lon: i64, now: i64) -> (r: Vec<
    Alert,
>)
    ensures
        alerts_view(r@) == eccc_pipeline_spec(docs@, lat as int, lon as int, now),
{
    let mut out: Vec<Alert> = Vec::new();
    let mut seen: Vec<(String, String)> = Vec::new();
    proof {
        assert(docs@.take(0) =~= Seq::<EcccCapDoc>::empty());
        assert(alerts_view(out@) =~= Seq::<AlertModel>::empty());
    }
    let mut i: usize = 0;
    while i < docs.len()
        invariant
            i <= docs@.len(),
            alerts_view(out@) == eccc_pipeline_spec(docs@.take(i as int), lat as int, lon as int, now),
            forall|k: (Seq<char>, Seq<char>)|
                eccc_keys_spec(docs@.take(i as int), lat as int, lon as int).contains(k)
                    <==> exists|j: int|
                    0 <= j < seen@.len() && ((#[trigger] seen@[j]).0@, seen@[j].1@) == k,
        decreases docs@.len() - i,
    {
        proof {
            assert(docs@.take(i + 1).drop_last() =~= docs@.take(i as int));
            assert(docs@.take(i + 1).last() == docs@[i as int]);
        }
        let ghost before = alerts_view(out@);
        let ghost prior = eccc_keys_spec(docs@.take(i as int), lat as int, lon as int);
        let ghost old_seen = seen@;
        match screen_eccc_doc(&docs[i], lat, lon) {
            Some((event, area_desc, _bi)) => {
                let ghost k = eccc_key_spec(docs@[i as int], lat as int, lon as int)->Some_0;
                proof {
                    assert(k == (event@, area_desc@));
                }
                let dup = key_in_list(&seen, event.as_str(), area_desc.as_str());
                if !dup {
                    seen.push((event.clone(), area_desc.clone()));
                    proof {
                        assert(!prior.contains(k));
                    }
                    match parse_eccc_cap(&docs[i], lat, lon, now) {
                        Some(a) => {
                            out.push(a);
                            proof {
                                assert(alerts_view(out@) =~= before.push(a@));
                            }
                        },
                        None => {},
                    }
                }
                proof {
                    assert(eccc_keys_spec(docs@.take(i + 1), lat as int, lon as int) == prior.insert(
                        k,
                    ));
                    assert forall|kk: (Seq<char>, Seq<char>)| #[trigger]
                        eccc_keys_spec(docs@.take(i + 1), lat as int, lon as int).contains(
                            kk,
                        ) implies exists|j: int|
                        0 <= j < seen@.len() && ((#[trigger] seen@[j]).0@, seen@[j].1@) == kk by {
                        if kk == k {
                            if dup {
                                let j0 = choose|j: int|
                                    0 <= j < old_seen.len() && (#[trigger] old_seen[j]).0@ == event@
                                        && old_seen[j].1@ == area_desc@;
                                assert(0 <= j0 < seen@.len() && (seen@[j0].0@, seen@[j0].1@) == kk);
                            } else {
                                assert((seen@[seen@.len() - 1].0@, seen@[seen@.len() - 1].1@)
                                    == kk);
                            }
                        } else {
                            assert(prior.contains(kk));
                            let j0 = choose|j: int|
                                0 <= j < old_seen.len() && ((#[trigger] old_seen[j]).0@,
                                old_seen[j].1@) == kk;
                            assert(0 <= j0 < seen@.len() && (seen@[j0].0@, seen@[j0].1@) == kk);
                        }
                    }
                    assert forall|j: int| 0 <= j < seen@.len() implies eccc_keys_spec(
                        docs@.take(i + 1),
                        lat as int,
                        lon as int,
                    ).contains((((#[trigger] seen@[j]).0@, seen@[j].1@))) by {
                        if j < old_seen.len() {
                            assert(seen@[j] == old_seen[j]);
                            assert(prior.contains((old_seen[j].0@, old_seen[j].1@)));
                        } else {
                            assert((seen@[j].0@, seen@[j].1@) == k);
                        }
                    }
                }
            },
            None => {
                proof {
                    assert(eccc_keys_spec(docs@.take(i + 1), lat as int, lon as int) == prior);
                }
            },
        }
        i = i + 1;
    }
    proof {
        assert(docs@.take(docs@.len() as int) =~= docs@);
    }
    out
}

/// No alert the aggregation hands out is already expired relative to
/// the resolution time it was produced with.
pub proof fn lemma_eccc_alerts_live(docs: Seq<EcccCapDoc>, lat: int, lon: int, now: i64)
    ensures
        forall|k: int|
            0 <= k < eccc_pipeline_spec(docs, lat, lon, now).len() ==> (
            #[trigger] eccc_pipeline_spec(docs, lat, lon, now)[k]).expires > now,
    decreases docs.len(),
{
    if docs.len() > 0 {
        lemma_eccc_alerts_live(docs.drop_last(), lat, lon, now);
    }
}

/// No two alerts in an aggregated list share an event and area key:
/// reissues of one warning surface once.
pub proof fn lemma_eccc_dedup(docs: Seq<EcccCapDoc>, lat: int, lon: int, now: i64)
    ensures
        forall|i: int|
            0 <= i < eccc_pipeline_spec(docs, lat, lon, now).len() ==> eccc_keys_spec(
                docs,
                lat,
                lon,
            ).contains(
                (
                    (#[trigger] eccc_pipeline_spec(docs, lat, lon, now)[i]).event,
                    eccc_pipeline_spec(docs, lat, lon, now)[i].area_desc,
                ),
            ),
        forall|i: int, j: int|
            0 <= i < j < eccc_pipeline_spec(docs, lat, lon, now).len() ==> (
            (#[trigger] eccc_pipeline_spec(docs, lat, lon, now)[i]).event,
            eccc_pipeline_spec(docs, lat, lon, now)[i].area_desc,
            ) != (
            (#[trigger] eccc_pipeline_spec(docs, lat, lon, now)[j]).event,
            eccc_pipeline_spec(docs, lat, lon, now)[j].area_desc,
            ),
    decreases docs.len(),
{
    if docs.len() > 0 {
        lemma_eccc_dedup(docs.drop_last(), lat, lon, now);
    }
}

} // verus!
