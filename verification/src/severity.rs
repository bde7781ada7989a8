//! Severity vocabulary shared by the alert providers.
//!
//! Each provider reports severity as free text ("Severe", "SEVERE",
//! "major", ...). The text is matched case-insensitively against the
//! common alerting vocabulary; "major" counts as severe and anything
//! unrecognized maps to `Unknown`.

use vstd::prelude::*;
use vstd::string::StrSliceExecFns;

verus! {

/// Weather alert severity levels, ordered by importance.
#[derive(Clone, Copy, Debug, PartialEq, Eq, Structural)]
pub enum AlertSeverity {
    Minor,
    Moderate,
    Severe,
    Extreme,
    Unknown,
}

/// ASCII lowercase of one character; any other character is unchanged.
pub open spec fn fold_char(c: char) -> char {
    if 'A' <= c && c <= 'Z' {
        ((c as u8) + 32) as char
    } else {
        c
    }
}

/// ASCII-lowercase folding of a sequence of characters.
pub open spec fn fold_chars(s: Seq<char>) -> Seq<char> {
    s.map_values(|c: char| fold_char(c))
}

/// The severity a provider string denotes.
pub open spec fn severity_of(s: Seq<char>) -> AlertSeverity {
    let f = fold_chars(s);
    if f == "minor"@ {
        AlertSeverity::Minor
    } else if f == "moderate"@ {
        AlertSeverity::Moderate
    } else if f == "severe"@ || f == "major"@ {
        AlertSeverity::Severe
    } else if f == "extreme"@ {
        AlertSeverity::Extreme
    } else {
        AlertSeverity::Unknown
    }
}

/// ASCII lowercase of one character, executable form.
pub fn ascii_fold_char(c: char) -> (r: char)
    ensures
        r == fold_char(c),
{
    let u = c as u32;
    if 65 <= u && u <= 90 {
        ((u + 32) as u8) as char
    } else {
        c
    }
}

/// Whether two strings agree once ASCII-lowercase folded.
pub fn eq_folded(s: &str, t: &str) -> (r: bool)
    ensures
        r == (fold_chars(s@) == fold_chars(t@)),
{
    let n = s.unicode_len();
    if n != t.unicode_len() {
        proof {
            assert(fold_chars(s@).len() == s@.len());
            assert(fold_chars(t@).len() == t@.len());
        }
        return false;
    }
    let mut i: usize = 0;
    while i < n
        invariant
            i <= n,
            n == s@.len(),
            n == t@.len(),
            forall|k: int| 0 <= k < i ==> fold_chars(s@)[k] == fold_chars(t@)[k],
        decreases n - i,
    {
        let a = ascii_fold_char(s.get_char(i));
        let b = ascii_fold_char(t.get_char(i));
        if a != b {
            proof {
                assert(fold_chars(s@)[i as int] != fold_chars(t@)[i as int]);
            }
            return false;
        }
        i = i + 1;
    }
    proof {
        assert(fold_chars(s@) =~= fold_chars(t@));
    }
    true
}

impl AlertSeverity {
    /// Parses a provider severity string into a severity level.
    pub fn from_cap_string(s: &str) -> (r: AlertSeverity)
        ensures
            r == severity_of(s@),
    {
        proof {
            lemma_keywords_already_folded();
        }
        if eq_folded(s, "minor") {
            AlertSeverity::Minor
        } else if eq_folded(s, "moderate") {
            AlertSeverity::Moderate
        } else if eq_folded(s, "severe") || eq_folded(s, "major") {
            AlertSeverity::Severe
        } else if eq_folded(s, "extreme") {
            AlertSeverity::Extreme
        } else {
            AlertSeverity::Unknown
        }
    }
}

/// The severity keywords are already lowercase, so folding fixes them.
proof fn lemma_keywords_already_folded()
    ensures
        fold_chars("minor"@) == "minor"@,
        fold_chars("moderate"@) == "moderate"@,
        fold_chars("severe"@) == "severe"@,
        fold_chars("major"@) == "major"@,
        fold_chars("extreme"@) == "extreme"@,
{
    reveal_strlit("minor");
    reveal_strlit("moderate");
    reveal_strlit("severe");
    reveal_strlit("major");
    reveal_strlit("extreme");
    assert(fold_chars("minor"@) =~= "minor"@);
    assert(fold_chars("moderate"@) =~= "moderate"@);
    assert(fold_chars("severe"@) =~= "severe"@);
    assert(fold_chars("major"@) =~= "major"@);
    assert(fold_chars("extreme"@) =~= "extreme"@);
}

/// Folding a character twice is the same as folding it once.
proof fn lemma_fold_char_idempotent(c: char)
    ensures
        fold_char(fold_char(c)) == fold_char(c),
{
}

/// Severity matching is case-insensitive: a string and its
/// ASCII-lowercase folding denote the same severity.
pub proof fn lemma_severity_case_insensitive(s: Seq<char>)
    ensures
        severity_of(fold_chars(s)) == severity_of(s),
{
    assert forall|k: int| 0 <= k < s.len() implies fold_chars(fold_chars(s))[k] == fold_chars(
        s,
    )[k] by {
        lemma_fold_char_idempotent(s[k]);
    }
    assert(fold_chars(fold_chars(s)) =~= fold_chars(s));
}

} // verus!
