//! Character-exact string utilities: equality, prefix test and
//! substring search over the character sequences of `str` values.

use vstd::prelude::*;
use vstd::string::StrSliceExecFns;

verus! {

/// Whether `needle` occurs in `hay` starting at character index `i`.
pub open spec fn occurs_at(hay: Seq<char>, needle: Seq<char>, i: int) -> bool {
    0 <= i && i + needle.len() <= hay.len() && hay.subrange(i, i + needle.len()) == needle
}

/// Whether `needle` occurs anywhere in `hay`.
pub open spec fn is_substring(hay: Seq<char>, needle: Seq<char>) -> bool {
    exists|i: int| occurs_at(hay, needle, i)
}

/// Character-exact string equality.
pub fn str_eq(a: &str, b: &str) -> (r: bool)
    ensures
        r == (a@ == b@),
{
    let n = a.unicode_len();
    if n != b.unicode_len() {
        return false;
    }
    let mut i: usize = 0;
    while i < n
        invariant
            i <= n,
            n == a@.len(),
            n == b@.len(),
            forall|k: int| 0 <= k < i ==> a@[k] == b@[k],
        decreases n - i,
    {
        if a.get_char(i) != b.get_char(i) {
            return false;
        }
        i = i + 1;
    }
    proof {
        assert(a@ =~= b@);
    }
    true
}

/// Whether `needle` occurs in `hay` at character index `i`; false where
/// it would not fit.
pub fn occurs_at_index(hay: &str, needle: &str, i: usize) -> (r: bool)
    requires
        i <= hay@.len(),
    ensures
        r == occurs_at(hay@, needle@, i as int),
{
    let hn = hay.unicode_len();
    let nn = needle.unicode_len();
    if nn > hn - i {
        return false;
    }
    let mut k: usize = 0;
    while k < nn
        invariant
            k <= nn,
            nn == needle@.len(),
            hn == hay@.len(),
            i + nn <= hn,
            forall|j: int| 0 <= j < k ==> hay@[i + j] == needle@[j],
        decreases nn - k,
    {
        if hay.get_char(i + k) != needle.get_char(k) {
            proof {
                assert(hay@.subrange(i as int, i + needle@.len())[k as int] != needle@[k as int]);
            }
            return false;
        }
        k = k + 1;
    }
    proof {
        assert(hay@.subrange(i as int, i + needle@.len()) =~= needle@);
    }
    true
}

/// Whether `p` is a prefix of `s`.
pub fn str_starts_with(s: &str, p: &str) -> (r: bool)
    ensures
        r == p@.is_prefix_of(s@),
{
    let r = occurs_at_index(s, p, 0);
    proof {
        if r {
            assert(s@.subrange(0, p@.len() as int) == p@);
        }
        if p@.is_prefix_of(s@) {
            assert(occurs_at(s@, p@, 0));
        }
    }
    r
}

/// First character index at or after `from` where `needle` occurs in
/// `hay`, if any.
pub fn find_from(hay: &str, from: usize, needle: &str) -> (r: Option<usize>)
    requires
        from <= hay@.len(),
    ensures
        match r {
            Some(i) => from <= i && occurs_at(hay@, needle@, i as int) && forall|j: int|
                from <= j < i ==> !occurs_at(hay@, needle@, j),
            None => forall|j: int| from <= j ==> !occurs_at(hay@, needle@, j),
        },
{
    let hn = hay.unicode_len();
    let mut i: usize = from;
    while i < hn
        invariant
            from <= i <= hn,
            hn == hay@.len(),
            forall|j: int| from <= j < i ==> !occurs_at(hay@, needle@, j),
        decreases hn - i,
    {
        if occurs_at_index(hay, needle, i) {
            return Some(i);
        }
        i = i + 1;
    }
    if occurs_at_index(hay, needle, hn) {
        return Some(hn);
    }
    None
}

/// Whether `needle` occurs anywhere in `hay`.
pub fn str_contains(hay: &str, needle: &str) -> (r: bool)
    ensures
        r == is_substring(hay@, needle@),
{
    match find_from(hay, 0, needle) {
        Some(_) => true,
        None => false,
    }
}

/// The character sequences of a vector of strings.
pub open spec fn strings_view(v: Seq<String>) -> Seq<Seq<char>> {
    v.map_values(|s: String| s@)
}

/// The character sequences of a vector of string pairs.
pub open spec fn pairs_view(v: Seq<(String, String)>) -> Seq<(Seq<char>, Seq<char>)> {
    v.map_values(|p: (String, String)| (p.0@, p.1@))
}

/// The Unicode lowercase of a string. The value is a function of the
/// characters alone.
pub uninterp spec fn lower_of(s: Seq<char>) -> Seq<char>;

/// Relies on str::to_lowercase: the lowercase mapping is fixed by the
/// Unicode tables compiled into std, so the result depends on the
/// characters alone.
#[verifier::external_body]
pub(crate) fn lowercase(s: &str) -> (r: String)
    ensures
        r@ == lower_of(s@),
{
    s.to_lowercase()
}

} // verus!
