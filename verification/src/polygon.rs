//! Polygon containment for geometry-filtered alerts.
//!
//! A polygon arrives as whitespace-separated `lat,lon` pairs, each
//! coordinate a plain decimal number of degrees. Coordinates are read
//! into microdegrees (truncating beyond six fraction digits); a pair
//! whose numbers do not parse, or lie beyond 360 degrees in magnitude,
//! is skipped, exactly as the providers' malformed vertices are. The
//! containment test is ray casting with exact integer arithmetic.

use vstd::prelude::*;
use vstd::string::StrSliceExecFns;

verus! {

/// Magnitude bound on a parsed coordinate, in microdegrees.
pub const MAX_COORD_MICRO: i64 = 360_000_000;

/// Whether `c` is a decimal digit.
pub open spec fn is_digit(c: char) -> bool {
    '0' <= c && c <= '9'
}

/// Numeric value of a digit character.
pub open spec fn digit_val(c: char) -> int {
    c as int - 48
}

/// Whether every character of `s` is a decimal digit.
pub open spec fn all_digits(s: Seq<char>) -> bool {
    forall|i: int| 0 <= i < s.len() ==> is_digit(#[trigger] s[i])
}

/// Value of a decimal digit string, most significant digit first.
pub open spec fn digits_value(s: Seq<char>) -> int
    decreases s.len(),
{
    if s.len() == 0 {
        0
    } else {
        digits_value(s.drop_last()) * 10 + digit_val(s.last())
    }
}

/// Ten to the `n`th power.
pub open spec fn pow10(n: int) -> int
    decreases n,
{
    if n <= 0 {
        1
    } else {
        10 * pow10(n - 1)
    }
}

/// The fraction digits padded or truncated to exactly six places.
pub open spec fn frac6(s: Seq<char>) -> Seq<char> {
    if s.len() >= 6 {
        s.take(6)
    } else {
        s + Seq::new((6 - s.len()) as nat, |i: int| '0')
    }
}

/// Index of the first occurrence of `c` in `s`, if any.
pub open spec fn first_index(s: Seq<char>, c: char) -> Option<int>
    decreases s.len(),
{
    if s.len() == 0 {
        None
    } else if s[0] == c {
        Some(0)
    } else {
        match first_index(s.skip(1), c) {
            Some(i) => Some(i + 1),
            None => None,
        }
    }
}

/// Microdegrees denoted by one coordinate token: an optional minus
/// sign, decimal digits, and an optional fraction, bounded by 360
/// degrees in magnitude.
pub open spec fn token_micro_spec(s: Seq<char>) -> Option<int> {
    let neg = s.len() > 0 && s[0] == '-';
    let body = if neg {
        s.skip(1)
    } else {
        s
    };
    let ip = match first_index(body, '.') {
        Some(d) => body.take(d),
        None => body,
    };
    let fp = match first_index(body, '.') {
        Some(d) => body.skip(d + 1),
        None => Seq::<char>::empty(),
    };
    if all_digits(ip) && all_digits(fp) && ip.len() + fp.len() > 0 {
        let v = digits_value(ip) * 1_000_000 + digits_value(frac6(fp));
        if v > MAX_COORD_MICRO {
            None
        } else if neg {
            Some(-v)
        } else {
            Some(v)
        }
    } else {
        None
    }
}

/// Whether `c` separates polygon vertices.
pub open spec fn is_space(c: char) -> bool {
    c == ' ' || c == '\t' || c == '\n' || c == '\r'
}

/// Index of the first separator in `s`, if any.
pub open spec fn first_space(s: Seq<char>) -> Option<int>
    decreases s.len(),
{
    if s.len() == 0 {
        None
    } else if is_space(s[0]) {
        Some(0)
    } else {
        match first_space(s.skip(1)) {
            Some(i) => Some(i + 1),
            None => None,
        }
    }
}

/// The whitespace-separated tokens of `s`, in order.
pub open spec fn split_tokens(s: Seq<char>) -> Seq<Seq<char>>
    decreases s.len(),
{
    if s.len() == 0 {
        Seq::empty()
    } else if is_space(s[0]) {
        split_tokens(s.skip(1))
    } else {
        match first_space(s) {
            Some(i) => if 1 <= i <= s.len() {
                seq![s.take(i)] + split_tokens(s.skip(i))
            } else {
                seq![s]
            },
            None => seq![s],
        }
    }
}

/// The vertex one `lat,lon` token denotes, if well-formed: exactly one
/// comma, both sides parsing as bounded coordinates.
pub open spec fn vertex_of_token(t: Seq<char>) -> Option<(int, int)> {
    match first_index(t, ',') {
        Some(d) => {
            let latp = t.take(d);
            let lonp = t.skip(d + 1);
            if first_index(lonp, ',') is Some {
                None
            } else {
                match (token_micro_spec(latp), token_micro_spec(lonp)) {
                    (Some(la), Some(lo)) => Some((la, lo)),
                    _ => None,
                }
            }
        },
        None => None,
    }
}

/// The well-formed vertices of the token list, in order.
pub open spec fn vertices_of_tokens(ts: Seq<Seq<char>>) -> Seq<(int, int)>
    decreases ts.len(),
{
    if ts.len() == 0 {
        Seq::empty()
    } else {
        let rest = vertices_of_tokens(ts.drop_first());
        match vertex_of_token(ts.first()) {
            Some(v) => seq![v] + rest,
            None => rest,
        }
    }
}

/// The vertices a polygon string denotes.
pub open spec fn polygon_vertices_spec(s: Seq<char>) -> Seq<(int, int)> {
    vertices_of_tokens(split_tokens(s))
}

/// Whether the edge from vertex `vj` to vertex `vi` crosses the
/// westward ray from the point, stated as an exact rational comparison
/// of the ray's longitude with the edge's longitude at the point's
/// latitude.
pub open spec fn edge_crosses(lat: int, lon: int, vi: (int, int), vj: (int, int)) -> bool {
    let yi = vi.0;
    let xi = vi.1;
    let yj = vj.0;
    let xj = vj.1;
    ((yi > lat) != (yj > lat)) && if yj > yi {
        (lon - xi) * (yj - yi) < (xj - xi) * (lat - yi)
    } else {
        (lon - xi) * (yj - yi) > (xj - xi) * (lat - yi)
    }
}

/// The polygon edge partnered with vertex `i`: its predecessor, with
/// the last vertex preceding the first.
pub open spec fn prev_vertex(vs: Seq<(int, int)>, i: int) -> (int, int) {
    if i == 0 {
        vs[vs.len() - 1]
    } else {
        vs[i - 1]
    }
}

/// Parity of ray crossings among the first `i` edges.
pub open spec fn crossings_before(lat: int, lon: int, vs: Seq<(int, int)>, i: int) -> bool
    decreases i,
{
    if i <= 0 {
        false
    } else {
        crossings_before(lat, lon, vs, i - 1) != edge_crosses(lat, lon, vs[i - 1], prev_vertex(vs, i - 1))
    }
}

/// Ray-casting containment: the point lies inside when an odd number
/// of polygon edges cross the westward ray. Degenerate polygons of
/// fewer than three vertices contain nothing.
pub open spec fn point_in_vertices_spec(lat: int, lon: int, vs: Seq<(int, int)>) -> bool {
    vs.len() >= 3 && crossings_before(lat, lon, vs, vs.len() as int)
}

/// Whether the polygon string's vertices contain the point.
pub open spec fn point_in_polygon_spec(lat: int, lon: int, s: Seq<char>) -> bool {
    point_in_vertices_spec(lat, lon, polygon_vertices_spec(s))
}

/// Powers of ten are at least one.
proof fn lemma_pow10_pos(n: int)
    ensures
        1 <= pow10(n),
    decreases n,
{
    if n > 0 {
        lemma_pow10_pos(n - 1);
    }
}

/// Powers of ten grow with the exponent.
proof fn lemma_pow10_le(a: int, b: int)
    requires
        a <= b,
    ensures
        pow10(a) <= pow10(b),
    decreases b - a,
{
    if a < b {
        lemma_pow10_le(a, b - 1);
        lemma_pow10_pos(b - 1);
    }
}

/// The small powers of ten, concretely.
proof fn lemma_pow10_small()
    ensures
        pow10(5) == 100_000,
        pow10(6) == 1_000_000,
{
    reveal_with_fuel(pow10, 8);
}

/// `first_index` finds the first occurrence: the character is there and
/// none before it matches; `None` means no occurrence at all.
pub proof fn lemma_first_index(s: Seq<char>, c: char)
    ensures
        match first_index(s, c) {
            Some(i) => 0 <= i < s.len() && s[i] == c && forall|j: int| 0 <= j < i ==> s[j] != c,
            None => forall|j: int| 0 <= j < s.len() ==> s[j] != c,
        },
    decreases s.len(),
{
    if s.len() > 0 && s[0] != c {
        lemma_first_index(s.skip(1), c);
        let t = s.skip(1);
        match first_index(t, c) {
            Some(i) => {
                assert(s[i + 1] == t[i]);
                assert forall|j: int| 0 <= j < i + 1 implies s[j] != c by {
                    if j > 0 {
                        assert(t[j - 1] != c);
                    }
                }
            },
            None => {
                assert forall|j: int| 0 <= j < s.len() implies s[j] != c by {
                    if j > 0 {
                        assert(t[j - 1] != c);
                    }
                }
            },
        }
    }
}

/// A position that matches, with none matching before it, is the first
/// occurrence.
pub proof fn lemma_first_index_is(s: Seq<char>, c: char, i: int)
    requires
        0 <= i < s.len(),
        s[i] == c,
        forall|j: int| 0 <= j < i ==> s[j] != c,
    ensures
        first_index(s, c) == Some(i),
{
    lemma_first_index(s, c);
}

/// `first_space` finds the first separator, in the same way.
proof fn lemma_first_space(s: Seq<char>)
    ensures
        match first_space(s) {
            Some(i) => 0 <= i < s.len() && is_space(s[i]) && forall|j: int|
                0 <= j < i ==> !is_space(s[j]),
            None => forall|j: int| 0 <= j < s.len() ==> !is_space(s[j]),
        },
    decreases s.len(),
{
    if s.len() > 0 && !is_space(s[0]) {
        lemma_first_space(s.skip(1));
        let t = s.skip(1);
        match first_space(t) {
            Some(i) => {
                assert(s[i + 1] == t[i]);
                assert forall|j: int| 0 <= j < i + 1 implies !is_space(s[j]) by {
                    if j > 0 {
                        assert(!is_space(t[j - 1]));
                    }
                }
            },
            None => {
                assert forall|j: int| 0 <= j < s.len() implies !is_space(s[j]) by {
                    if j > 0 {
                        assert(!is_space(t[j - 1]));
                    }
                }
            },
        }
    }
}

/// Reads one decimal coordinate token into microdegrees.
pub fn parse_coord_micro(t: &str) -> (r: Option<i64>)
    ensures
        match r {
            Some(v) => token_micro_spec(t@) == Some(v as int) && -MAX_COORD_MICRO <= v
                <= MAX_COORD_MICRO,
            None => token_micro_spec(t@) is None,
        },
{
    let n = t.unicode_len();
    let neg = n > 0 && t.get_char(0) == '-';
    let start: usize = if neg {
        1
    } else {
        0
    };
    proof {
        assert(t@.skip(0) =~= t@);
    }
    let ghost body: Seq<char> = t@.skip(start as int);
    let ghost f6 = frac6(
        match first_index(body, '.') {
            Some(d) => body.skip(d + 1),
            None => Seq::<char>::empty(),
        },
    );
    let mut ipacc: i64 = 0;
    let mut ipcount: usize = 0;
    let mut fcount: usize = 0;
    let mut facc: i64 = 0;
    let mut dot: Option<usize> = None;
    let mut i: usize = start;
    while i < n
        invariant
            start <= i <= n,
            n == t@.len(),
            start == (if t@.len() > 0 && t@[0] == '-' {
                1int
            } else {
                0int
            }),
            neg == (t@.len() > 0 && t@[0] == '-'),
            body == t@.skip(start as int),
            body == (if neg {
                t@.skip(1)
            } else {
                t@
            }),
            f6 == frac6(
                match first_index(body, '.') {
                    Some(d) => body.skip(d + 1),
                    None => Seq::<char>::empty(),
                },
            ),
            (match dot {
                Some(d) => {
                    &&& start <= d < i
                    &&& t@[d as int] == '.'
                    &&& first_index(body, '.') == Some(d - start)
                    &&& all_digits(body.take(d - start))
                    &&& ipcount == d - start
                    &&& fcount == i - d - 1
                    &&& all_digits(body.subrange(d - start + 1, i - start))
                    &&& fcount <= 6 ==> facc == digits_value(f6.take(fcount as int))
                    &&& fcount > 6 ==> facc == digits_value(f6)
                },
                None => {
                    &&& all_digits(body.take(i - start))
                    &&& ipcount == i - start
                    &&& fcount == 0
                    &&& facc == 0
                },
            }),
            ({
                let dv = digits_value(body.take(ipcount as int));
                (dv < 400 && ipacc == dv) || (dv >= 400 && ipacc == 400)
            }),
            0 <= ipacc <= 400,
            0 <= facc,
            facc < pow10(
                if fcount <= 6 {
                    fcount as int
                } else {
                    6
                },
            ),
        decreases n - i,
    {
        let c = t.get_char(i);
        let ghost scanned = body.take(i - start);
        if c == '.' {
            match dot {
                Some(d) => {
                    // A second separator: the fraction part is not all
                    // digits, so the token is malformed.
                    proof {
                        let fp = body.skip(d - start + 1);
                        assert(fp[i - d - 1] == '.');
                        assert(!is_digit(fp[i - d - 1]));
                    }
                    return None;
                },
                None => {
                    proof {
                        assert(body[i - start] == '.');
                        assert forall|j: int| 0 <= j < i - start implies body[j] != '.' by {
                            assert(is_digit(body.take(i - start)[j]));
                        }
                        lemma_first_index_is(body, '.', i - start);
                        assert(body.subrange(i - start + 1, i - start + 1) =~= Seq::<
                            char,
                        >::empty());
                    }
                    dot = Some(i);
                },
            }
        } else {
            let u = c as u32;
            if u < 48 || 57 < u {
                proof {
                    lemma_first_index(body, '.');
                    assert(!is_digit(body[i - start]));
                    match dot {
                        Some(d) => {
                            let fp = body.skip(d - start + 1);
                            assert(fp[i - d - 1] == body[i - start]);
                        },
                        None => {
                            match first_index(body, '.') {
                                Some(fd) => {
                                    // No separator scanned yet, so the first
                                    // one lies at or after this character,
                                    // which is not a digit and not a dot.
                                    if fd < i - start {
                                        assert(is_digit(body.take(i - start)[fd]));
                                    }
                                    assert(fd > i - start);
                                    assert(body.take(fd)[i - start] == body[i - start]);
                                },
                                None => {},
                            }
                        },
                    }
                }
                return None;
            }
            let d = (u - 48) as i64;
            proof {
                assert(is_digit(body[i - start]));
                assert(digit_val(body[i - start]) == d);
            }
            match dot {
                Some(dp) => {
                    proof {
                        let fp = body.skip(dp - start + 1);
                        assert(body.subrange(dp - start + 1, i - start + 1) =~= body.subrange(
                            dp - start + 1,
                            i - start,
                        ).push(body[i - start]));
                        if fcount < 6 {
                            assert(f6[fcount as int] == fp[fcount as int]);
                            assert(f6.take(fcount + 1).drop_last() =~= f6.take(fcount as int));
                            assert(f6.take(fcount + 1).last() == f6[fcount as int]);
                        } else if fcount == 6 {
                            assert(f6.take(6) =~= f6);
                        }
                    }
                    if fcount < 6 {
                        proof {
                            lemma_pow10_le(fcount as int, 5);
                            lemma_pow10_small();
                        }
                        facc = facc * 10 + d;
                    }
                    fcount = fcount + 1;
                },
                None => {
                    proof {
                        assert(body.take(i - start + 1).drop_last() =~= body.take(i - start));
                        assert(body.take(i - start + 1).last() == body[i - start]);
                    }
                    let t1 = ipacc * 10 + d;
                    if t1 >= 400 {
                        ipacc = 400;
                    } else {
                        ipacc = t1;
                    }
                    ipcount = ipcount + 1;
                },
            }
        }
        i = i + 1;
    }
    // End of token: settle the fraction at exactly six digits.
    proof {
        lemma_first_index(body, '.');
        match dot {
            Some(d) => {
                assert(body.skip(d - start + 1) =~= body.subrange(d - start + 1, i - start));
            },
            None => {
                assert(body.take(i - start) =~= body);
            },
        }
    }
    if ipcount == 0 && fcount == 0 {
        return None;
    }
    let mut pad = fcount;
    while pad < 6
        invariant
            fcount <= 6 ==> fcount <= pad <= 6,
            fcount > 6 ==> pad == fcount,
            pad <= 6 ==> facc == digits_value(f6.take(pad as int)),
            pad > 6 ==> facc == digits_value(f6),
            0 <= facc,
            facc < pow10(
                if pad <= 6 {
                    pad as int
                } else {
                    6
                },
            ),
            f6.len() == 6,
            fcount <= 6 ==> forall|k: int| fcount <= k < 6 ==> f6[k] == '0',
        decreases 6 - pad,
    {
        proof {
            assert(f6.take(pad + 1).drop_last() =~= f6.take(pad as int));
            assert(f6.take(pad + 1).last() == f6[pad as int]);
            assert(digit_val('0') == 0);
            lemma_pow10_le(pad as int, 5);
            lemma_pow10_small();
        }
        facc = facc * 10;
        pad = pad + 1;
    }
    proof {
        if fcount <= 6 {
            assert(f6.take(6) =~= f6);
        }
        lemma_pow10_small();
    }
    let whole = ipacc * 1_000_000 + facc;
    proof {
        let ghost ip = match first_index(body, '.') {
            Some(d) => body.take(d),
            None => body,
        };
        assert(digits_value(ip) == digits_value(body.take(ipcount as int)));
        if digits_value(ip) >= 400 {
            assert(digits_value(ip) * 1_000_000 >= 400_000_000);
        }
    }
    if whole > MAX_COORD_MICRO {
        return None;
    }
    if neg {
        Some(-whole)
    } else {
        Some(whole)
    }
}

/// Reads one `lat,lon` token into a microdegree vertex.
pub fn parse_vertex(t: &str) -> (r: Option<(i64, i64)>)
    ensures
        (match (r, vertex_of_token(t@)) {
            (Some(v), Some(sv)) => sv == (v.0 as int, v.1 as int) && -MAX_COORD_MICRO <= v.0
                <= MAX_COORD_MICRO && -MAX_COORD_MICRO <= v.1 <= MAX_COORD_MICRO,
            (None, None) => true,
            _ => false,
        }),
{
    let n = t.unicode_len();
    let mut d: usize = 0;
    while d < n && t.get_char(d) != ','
        invariant
            d <= n,
            n == t@.len(),
            forall|j: int| 0 <= j < d ==> t@[j] != ',',
        decreases n - d,
    {
        d = d + 1;
    }
    if d == n {
        proof {
            lemma_first_index(t@, ',');
            if first_index(t@, ',') is Some {
                let fi = first_index(t@, ',')->Some_0;
                assert(t@[fi] == ',');
            }
        }
        return None;
    }
    proof {
        lemma_first_index_is(t@, ',', d as int);
    }
    let ghost lonp = t@.skip(d + 1);
    let mut k: usize = d + 1;
    while k < n && t.get_char(k) != ','
        invariant
            d + 1 <= k <= n,
            n == t@.len(),
            forall|j: int| d < j < k ==> t@[j] != ',',
        decreases n - k,
    {
        k = k + 1;
    }
    if k < n {
        // A second comma: the token is malformed.
        proof {
            assert(lonp[k - d - 1] == ',');
            lemma_first_index(lonp, ',');
        }
        return None;
    }
    proof {
        lemma_first_index(lonp, ',');
        if first_index(lonp, ',') is Some {
            let fi = first_index(lonp, ',')->Some_0;
            assert(lonp[fi] == t@[d + 1 + fi]);
        }
        assert(t@.subrange(0, d as int) =~= t@.take(d as int));
        assert(t@.subrange(d + 1, n as int) =~= lonp);
    }
    let latp = t.substring_char(0, d);
    let lonq = t.substring_char(d + 1, n);
    match (parse_coord_micro(latp), parse_coord_micro(lonq)) {
        (Some(la), Some(lo)) => Some((la, lo)),
        _ => None,
    }
}

/// Skipping a separator does not change the token list.
proof fn lemma_split_skip_space(s: Seq<char>, p: int)
    requires
        0 <= p < s.len(),
        is_space(s[p]),
    ensures
        split_tokens(s.skip(p)) == split_tokens(s.skip(p + 1)),
{
    assert(s.skip(p).skip(1) =~= s.skip(p + 1));
}

/// A maximal run of non-separators starting the suffix is its first
/// token.
proof fn lemma_split_token_at(s: Seq<char>, p: int, b: int)
    requires
        0 <= p < b <= s.len(),
        forall|j: int| p <= j < b ==> !is_space(s[j]),
        b == s.len() || is_space(s[b]),
    ensures
        split_tokens(s.skip(p)) == seq![s.subrange(p, b)] + split_tokens(s.skip(b)),
{
    let u = s.skip(p);
    lemma_first_space(u);
    if b < s.len() {
        assert(is_space(u[b - p]));
        match first_space(u) {
            Some(i) => {
                if i < b - p {
                    assert(!is_space(s[p + i]));
                }
                if i > b - p {
                    assert(!is_space(u[b - p]));
                }
                assert(u.take(b - p) =~= s.subrange(p, b));
                assert(u.skip(b - p) =~= s.skip(b));
            },
            None => {
                assert(!is_space(u[b - p]));
            },
        }
    } else {
        match first_space(u) {
            Some(i) => {
                assert(!is_space(s[p + i]));
            },
            None => {
                assert(u =~= s.subrange(p, b));
                assert(s.skip(b) =~= Seq::<char>::empty());
                assert(seq![s.subrange(p, b)] + split_tokens(s.skip(b)) =~= seq![u]);
            },
        }
    }
}

/// One step of collecting vertices from the token list.
proof fn lemma_vertices_cons(t: Seq<char>, rest: Seq<Seq<char>>)
    ensures
        vertices_of_tokens(seq![t] + rest) == match vertex_of_token(t) {
            Some(v) => seq![v] + vertices_of_tokens(rest),
            None => vertices_of_tokens(rest),
        },
{
    let ts = seq![t] + rest;
    assert(ts.first() == t);
    assert(ts.drop_first() =~= rest);
}

/// Whether `c` separates polygon vertices, executable form.
fn is_sep_char(c: char) -> (r: bool)
    ensures
        r == is_space(c),
{
    c == ' ' || c == '\t' || c == '\n' || c == '\r'
}

/// Reads the well-formed vertices of a polygon string, in order,
/// skipping malformed pairs.
pub fn parse_polygon_vertices(s: &str) -> (r: Vec<(i64, i64)>)
    ensures
        r@.map_values(|p: (i64, i64)| (p.0 as int, p.1 as int)) == polygon_vertices_spec(s@),
        forall|k: int|
            0 <= k < r@.len() ==> -MAX_COORD_MICRO <= (#[trigger] r@[k]).0 <= MAX_COORD_MICRO
                && -MAX_COORD_MICRO <= r@[k].1 <= MAX_COORD_MICRO,
{
    let n = s.unicode_len();
    let mut out: Vec<(i64, i64)> = Vec::new();
    proof {
        assert(s@.skip(0) =~= s@);
        assert(out@.map_values(|p: (i64, i64)| (p.0 as int, p.1 as int)) =~= Seq::<
            (int, int),
        >::empty());
        assert(Seq::<(int, int)>::empty() + vertices_of_tokens(split_tokens(s@))
            =~= vertices_of_tokens(split_tokens(s@)));
    }
    let mut pos: usize = 0;
    while pos < n
        invariant
            pos <= n,
            n == s@.len(),
            polygon_vertices_spec(s@) == out@.map_values(|p: (i64, i64)| (p.0 as int, p.1 as int))
                + vertices_of_tokens(split_tokens(s@.skip(pos as int))),
            forall|k: int|
                0 <= k < out@.len() ==> -MAX_COORD_MICRO <= (#[trigger] out@[k]).0
                    <= MAX_COORD_MICRO && -MAX_COORD_MICRO <= out@[k].1 <= MAX_COORD_MICRO,
        decreases n - pos,
    {
        let c = s.get_char(pos);
        if is_sep_char(c) {
            proof {
                lemma_split_skip_space(s@, pos as int);
            }
            pos = pos + 1;
        } else {
            let mut b = pos + 1;
            while b < n && !is_sep_char(s.get_char(b))
                invariant
                    pos < b <= n,
                    n == s@.len(),
                    forall|j: int| pos < j < b ==> !is_space(s@[j]),
                decreases n - b,
            {
                b = b + 1;
            }
            proof {
                lemma_split_token_at(s@, pos as int, b as int);
            }
            let tok = s.substring_char(pos, b);
            proof {
                assert(tok@ == s@.subrange(pos as int, b as int));
                lemma_vertices_cons(tok@, split_tokens(s@.skip(b as int)));
            }
            let ghost before = out@.map_values(|p: (i64, i64)| (p.0 as int, p.1 as int));
            match parse_vertex(tok) {
                Some(v) => {
                    out.push(v);
                    proof {
                        assert(out@.map_values(|p: (i64, i64)| (p.0 as int, p.1 as int)) =~= before
                            + seq![(v.0 as int, v.1 as int)]);
                        assert((before + seq![(v.0 as int, v.1 as int)]) + vertices_of_tokens(
                            split_tokens(s@.skip(b as int)),
                        ) =~= before + (seq![(v.0 as int, v.1 as int)] + vertices_of_tokens(
                            split_tokens(s@.skip(b as int)),
                        )));
                    }
                },
                None => {},
            }
            pos = b;
        }
    }
    proof {
        assert(s@.skip(pos as int) =~= Seq::<char>::empty());
        assert(out@.map_values(|p: (i64, i64)| (p.0 as int, p.1 as int)) + vertices_of_tokens(
            split_tokens(Seq::<char>::empty()),
        ) =~= out@.map_values(|p: (i64, i64)| (p.0 as int, p.1 as int)));
    }
    out
}

/// A product of values within the given magnitudes stays within their
/// product.
proof fn lemma_abs_mul_bound(a: int, b: int, ca: int, cb: int)
    by (nonlinear_arith)
    requires
        -ca <= a <= ca,
        -cb <= b <= cb,
        0 <= ca,
        0 <= cb,
    ensures
        -(ca * cb) <= a * b <= ca * cb,
{
}

/// Whether the edge from `vj` to `vi` crosses the westward ray from
/// the point, executable form over exact 128-bit products.
fn edge_cross_test(lat: i64, lon: i64, vi: (i64, i64), vj: (i64, i64)) -> (r: bool)
    requires
        -MAX_COORD_MICRO <= vi.0 <= MAX_COORD_MICRO,
        -MAX_COORD_MICRO <= vi.1 <= MAX_COORD_MICRO,
        -MAX_COORD_MICRO <= vj.0 <= MAX_COORD_MICRO,
        -MAX_COORD_MICRO <= vj.1 <= MAX_COORD_MICRO,
    ensures
        r == edge_crosses(lat as int, lon as int, (vi.0 as int, vi.1 as int), (vj.0 as int, vj.1 as int)),
{
    let yi = vi.0;
    let xi = vi.1;
    let yj = vj.0;
    let xj = vj.1;
    if (yi > lat) == (yj > lat) {
        return false;
    }
    let d1 = lon as i128 - xi as i128;
    let d2 = yj as i128 - yi as i128;
    let d3 = xj as i128 - xi as i128;
    let d4 = lat as i128 - yi as i128;
    proof {
        lemma_abs_mul_bound(d1 as int, d2 as int, 9_300_000_000_000_000_000, 720_000_000);
        lemma_abs_mul_bound(d3 as int, d4 as int, 720_000_000, 9_300_000_000_000_000_000);
    }
    let a = d1 * d2;
    let b = d3 * d4;
    if yj > yi {
        a < b
    } else {
        a > b
    }
}

/// Whether the polygon string's vertices contain the point: the ray
/// cast of the original contract, on a polygon of at least three
/// well-formed vertices.
pub fn point_in_polygon(lat: i64, lon: i64, polygon: &str) -> (r: bool)
    ensures
        r == point_in_polygon_spec(lat as int, lon as int, polygon@),
{
    let vs = parse_polygon_vertices(polygon);
    let ghost gvs = polygon_vertices_spec(polygon@);
    let n = vs.len();
    if n < 3 {
        return false;
    }
    let mut inside = false;
    let mut i: usize = 0;
    while i < n
        invariant
            i <= n,
            n == vs@.len(),
            n >= 3,
            gvs == vs@.map_values(|p: (i64, i64)| (p.0 as int, p.1 as int)),
            forall|k: int|
                0 <= k < vs@.len() ==> -MAX_COORD_MICRO <= (#[trigger] vs@[k]).0 <= MAX_COORD_MICRO
                    && -MAX_COORD_MICRO <= vs@[k].1 <= MAX_COORD_MICRO,
            inside == crossings_before(lat as int, lon as int, gvs, i as int),
        decreases n - i,
    {
        let vi = vs[i];
        let vj = if i == 0 {
            vs[n - 1]
        } else {
            vs[i - 1]
        };
        proof {
            assert(gvs[i as int] == (vi.0 as int, vi.1 as int));
            assert(prev_vertex(gvs, i as int) == (vj.0 as int, vj.1 as int));
        }
        if edge_cross_test(lat, lon, vi, vj) {
            inside = !inside;
        } else {
        }
        i = i + 1;
    }
    inside
}

} // verus!
