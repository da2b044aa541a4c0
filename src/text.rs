//! Character-level helpers shared by the normalizer and the list parser.

use vstd::prelude::*;

verus! {

/// Unicode `White_Space`: the characters that separate words and that
/// trimming removes.
pub open spec fn is_space_spec(c: char) -> bool {
    ||| ('\u{9}' <= c && c <= '\u{d}')
    ||| c == ' '
    ||| c == '\u{85}'
    ||| c == '\u{a0}'
    ||| c == '\u{1680}'
    ||| ('\u{2000}' <= c && c <= '\u{200a}')
    ||| c == '\u{2028}'
    ||| c == '\u{2029}'
    ||| c == '\u{202f}'
    ||| c == '\u{205f}'
    ||| c == '\u{3000}'
}

pub fn is_space(c: char) -> (r: bool)
    ensures
        r == is_space_spec(c),
{
    ('\u{9}' <= c && c <= '\u{d}') || c == ' ' || c == '\u{85}' || c == '\u{a0}' || c == '\u{1680}'
        || ('\u{2000}' <= c && c <= '\u{200a}') || c == '\u{2028}' || c == '\u{2029}' || c
        == '\u{202f}' || c == '\u{205f}' || c == '\u{3000}'
}

/// What std's lowercase mapping makes of a text.
pub uninterp spec fn lower_of(s: Seq<char>) -> Seq<char>;

/// Relies on `str::to_lowercase`: the lowercase form of a text depends on
/// its characters alone, and each character maps to one or more characters
/// (`char::to_lowercase`), so a text is empty exactly when its lowercase
/// form is.
#[verifier::external_body]
pub(crate) fn lowercase(s: &Vec<char>) -> (r: Vec<char>)
    ensures
        r@ == lower_of(s@),
        s@.len() == 0 <==> r@.len() == 0,
{
    let text: String = s.iter().collect();
    text.to_lowercase().chars().collect()
}

/// The characters of `s`, in order.
pub fn chars_of(s: &str) -> (r: Vec<char>)
    ensures
        r@ == s@,
{
    let mut r: Vec<char> = Vec::new();
    for c in it: s.chars()
        invariant
            it.seq() == s@,
            r@ == it.seq().take(it.index() as int),
    {
        r.push(c);
    }
    r
}

/// Index just past the last non-space character among the first `j`.
pub open spec fn space_end(s: Seq<char>, j: int) -> int
    decreases j,
{
    if j <= 0 {
        0
    } else if is_space_spec(s[j - 1]) {
        space_end(s, j - 1)
    } else {
        j
    }
}

/// Index of the first non-space character at or after `i` (or the length).
pub open spec fn space_start(s: Seq<char>, i: int) -> int
    decreases s.len() - i,
{
    if i >= s.len() {
        s.len() as int
    } else if is_space_spec(s[i]) {
        space_start(s, i + 1)
    } else {
        i
    }
}

/// `s` without leading and trailing white space.
pub open spec fn trim_spec(s: Seq<char>) -> Seq<char> {
    let t = s.take(space_end(s, s.len() as int));
    t.skip(space_start(t, 0))
}

pub fn trim(s: &Vec<char>) -> (r: Vec<char>)
    ensures
        r@ == trim_spec(s@),
{
    let mut e: usize = s.len();
    while e > 0 && is_space(s[e - 1])
        invariant
            e <= s.len(),
            space_end(s@, s@.len() as int) == space_end(s@, e as int),
        decreases e,
    {
        e = e - 1;
    }
    let ghost t = s@.take(e as int);
    let mut a: usize = 0;
    while a < e && is_space(s[a])
        invariant
            a <= e <= s.len(),
            t == s@.take(e as int),
            space_start(t, 0) == space_start(t, a as int),
        decreases e - a,
    {
        a = a + 1;
    }
    let mut r: Vec<char> = Vec::new();
    let mut i: usize = a;
    while i < e
        invariant
            a <= i <= e <= s.len(),
            r@ == s@.subrange(a as int, i as int),
        decreases e - i,
    {
        r.push(s[i]);
        i = i + 1;
    }
    assert(r@ =~= t.skip(a as int));
    r
}

} // verus!
