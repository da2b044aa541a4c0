//! Reduces a message word to the form in which blocklist entries are kept.
//!
//! This library matches by domain: a word that starts with `http://` or
//! `https://` keeps only its authority (the part before the next `/`), so
//! `https://a.com/x` and `a.com` meet the same entry. Case is folded with
//! std's lowercase mapping before anything else.

use crate::text::{lower_of, lowercase};
use vstd::prelude::*;

verus! {

pub open spec fn has_https(l: Seq<char>) -> bool {
    &&& l.len() >= 8
    &&& l[0] == 'h' && l[1] == 't' && l[2] == 't' && l[3] == 'p'
    &&& l[4] == 's' && l[5] == ':' && l[6] == '/' && l[7] == '/'
}

pub open spec fn has_http(l: Seq<char>) -> bool {
    &&& l.len() >= 7
    &&& l[0] == 'h' && l[1] == 't' && l[2] == 't' && l[3] == 'p'
    &&& l[4] == ':' && l[5] == '/' && l[6] == '/'
}

/// Length of the scheme prefix that is stripped: 8, 7 or none.
pub open spec fn scheme_len(l: Seq<char>) -> int {
    if has_https(l) {
        8
    } else if has_http(l) {
        7
    } else {
        0
    }
}

/// Index of the first `/` at or after `i` (or the length).
pub open spec fn slash_from(s: Seq<char>, i: int) -> int
    decreases s.len() - i,
{
    if i >= s.len() {
        s.len() as int
    } else if s[i] == '/' {
        i
    } else {
        slash_from(s, i + 1)
    }
}

pub open spec fn is_trail_punct(c: char) -> bool {
    c == '.' || c == '/' || c == '?' || c == '!' || c == ','
}

/// Index just past the last character among the first `j` that is not
/// trailing punctuation.
pub open spec fn punct_end(s: Seq<char>, j: int) -> int
    decreases j,
{
    if j <= 0 {
        0
    } else if is_trail_punct(s[j - 1]) {
        punct_end(s, j - 1)
    } else {
        j
    }
}

/// After the scheme (if any) is removed, the part up to the first `/`.
pub open spec fn strip_scheme(l: Seq<char>) -> Seq<char> {
    let k = scheme_len(l);
    if k > 0 {
        let rest = l.skip(k);
        rest.take(slash_from(rest, 0))
    } else {
        l
    }
}

pub open spec fn trim_punct(s: Seq<char>) -> Seq<char> {
    s.take(punct_end(s, s.len() as int))
}

/// The canonical form of an already lowercased word: scheme and path
/// removed, trailing punctuation removed.
pub open spec fn canonical_spec(l: Seq<char>) -> Seq<char> {
    trim_punct(strip_scheme(l))
}

/// The canonical form of a word: lowercased, then made canonical.
pub open spec fn normalize_spec(s: Seq<char>) -> Seq<char> {
    canonical_spec(lower_of(s))
}

proof fn lemma_slash_from(s: Seq<char>, i: int)
    requires
        0 <= i <= s.len(),
    ensures
        i <= slash_from(s, i) <= s.len(),
        forall|k: int| i <= k < slash_from(s, i) ==> s[k] != '/',
    decreases s.len() - i,
{
    if i < s.len() && s[i] != '/' {
        lemma_slash_from(s, i + 1);
    }
}

proof fn lemma_punct_end(s: Seq<char>, j: int)
    requires
        0 <= j <= s.len(),
    ensures
        0 <= punct_end(s, j) <= j,
        punct_end(s, j) == 0 || !is_trail_punct(s[punct_end(s, j) - 1]),
    decreases j,
{
    if j > 0 && is_trail_punct(s[j - 1]) {
        lemma_punct_end(s, j - 1);
    }
}

fn scheme_length(l: &Vec<char>) -> (r: usize)
    ensures
        r == scheme_len(l@),
{
    let n = l.len();
    if n >= 8 && l[0] == 'h' && l[1] == 't' && l[2] == 't' && l[3] == 'p' && l[4] == 's'
        && l[5] == ':' && l[6] == '/' && l[7] == '/' {
        8
    } else if n >= 7 && l[0] == 'h' && l[1] == 't' && l[2] == 't' && l[3] == 'p' && l[4]
        == ':' && l[5] == '/' && l[6] == '/' {
        7
    } else {
        0
    }
}

/// Canonical form of one word, as blocklist lookups expect it.
pub fn normalize(token: &Vec<char>) -> (r: Vec<char>)
    ensures
        r@ == normalize_spec(token@),
{
    let l = lowercase(token);
    canonicalize(&l)
}

/// Canonical form of a word that is already lowercased.
pub fn canonicalize(l: &Vec<char>) -> (r: Vec<char>)
    ensures
        r@ == canonical_spec(l@),
{
    let k = scheme_length(&l);
    // end of the part that is kept before punctuation trimming
    let mut e: usize = l.len();
    if k > 0 {
        let ghost rest = l@.skip(k as int);
        let mut j: usize = k;
        while j < l.len() && l[j] != '/'
            invariant
                k <= j <= l.len(),
                rest == l@.skip(k as int),
                slash_from(rest, 0) == slash_from(rest, j - k),
            decreases l.len() - j,
        {
            j = j + 1;
        }
        e = j;
        assert(strip_scheme(l@) =~= l@.subrange(k as int, e as int));
    } else {
        assert(strip_scheme(l@) =~= l@.subrange(0, e as int));
    }
    let ghost e0 = e;
    let ghost kept = l@.subrange(k as int, e as int);
    while e > k && is_trail_punct_char(l[e - 1])
        invariant
            k <= e <= e0 <= l.len(),
            kept == l@.subrange(k as int, e0 as int),
            punct_end(kept, kept.len() as int) == punct_end(kept, e - k),
        decreases e,
    {
        e = e - 1;
    }
    let mut r: Vec<char> = Vec::new();
    let mut i: usize = k;
    while i < e
        invariant
            k <= i <= e <= l.len(),
            r@ == l@.subrange(k as int, i as int),
        decreases e - i,
    {
        r.push(l[i]);
        i = i + 1;
    }
    assert(punct_end(kept, kept.len() as int) == e - k);
    assert(r@ =~= trim_punct(kept));
    r
}

fn is_trail_punct_char(c: char) -> (r: bool)
    ensures
        r == is_trail_punct(c),
{
    c == '.' || c == '/' || c == '?' || c == '!' || c == ','
}

/// Making a lowercased word canonical twice is making it canonical once.
pub proof fn lemma_canonical_idempotent(l: Seq<char>)
    ensures
        canonical_spec(canonical_spec(l)) == canonical_spec(l),
{
    let k = scheme_len(l);
    let x = strip_scheme(l);
    let r = canonical_spec(l);
    lemma_punct_end(x, x.len() as int);
    if k > 0 {
        lemma_slash_from(l.skip(k), 0);
    }
    // r carries no scheme
    if k > 0 {
        assert(forall|i: int| 0 <= i < r.len() ==> r[i] == l.skip(k)[i]);
        assert(forall|i: int| 0 <= i < r.len() ==> r[i] != '/');
        assert(!has_https(r) && !has_http(r));
    } else {
        assert(!has_https(r)) by {
            if has_https(r) {
                assert(has_https(l));
            }
        }
        assert(!has_http(r)) by {
            if has_http(r) {
                assert(has_http(l));
            }
        }
    }
    assert(strip_scheme(r) == r);
    assert(punct_end(r, r.len() as int) == r.len());
    assert(trim_punct(r) =~= r);
}

/// Normalizing a normal form again leaves it as it is, for every word
/// whose normal form std's lowercase mapping leaves unchanged.
pub proof fn lemma_normalize_idempotent(s: Seq<char>)
    requires
        lower_of(normalize_spec(s)) == normalize_spec(s),
    ensures
        normalize_spec(normalize_spec(s)) == normalize_spec(s),
{
    lemma_canonical_idempotent(lower_of(s));
}

} // verus!
