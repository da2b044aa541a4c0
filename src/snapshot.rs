//! An immutable-once-built set of blocklist entries.
//!
//! Entries are kept in buckets of a `HashMap` keyed by a 64-bit FNV-1a
//! fingerprint of their characters, so that a lookup scans one small bucket.

use crate::text::{chars_of, lower_of, lowercase, trim, trim_spec};
use std::collections::HashMap;
use vstd::prelude::*;

verus! {

pub const FNV_OFFSET: u64 = 0xcbf29ce484222325;

pub const FNV_PRIME: u64 = 0x100000001b3;

pub open spec fn fingerprint_step(h: u64, c: char) -> u64 {
    (h ^ (c as u64)).wrapping_mul(FNV_PRIME)
}

/// FNV-1a over the code points of `s`.
pub open spec fn fingerprint_spec(s: Seq<char>) -> u64
    decreases s.len(),
{
    if s.len() == 0 {
        FNV_OFFSET
    } else {
        fingerprint_step(fingerprint_spec(s.drop_last()), s.last())
    }
}

pub fn fingerprint(s: &Vec<char>) -> (r: u64)
    ensures
        r == fingerprint_spec(s@),
{
    let mut h: u64 = FNV_OFFSET;
    let mut i: usize = 0;
    while i < s.len()
        invariant
            i <= s.len(),
            h == fingerprint_spec(s@.take(i as int)),
        decreases s.len() - i,
    {
        assert(s@.take(i + 1).drop_last() =~= s@.take(i as int));
        h = (h ^ (s[i] as u64)).wrapping_mul(FNV_PRIME);
        i = i + 1;
    }
    assert(s@.take(i as int) =~= s@);
    h
}

/// Whether two character vectors hold the same characters.
pub fn same_chars(a: &Vec<char>, b: &Vec<char>) -> (r: bool)
    ensures
        r == (a@ == b@),
{
    if a.len() != b.len() {
        return false;
    }
    let mut i: usize = 0;
    while i < a.len()
        invariant
            i <= a.len() == b.len(),
            a@.take(i as int) == b@.take(i as int),
        decreases a.len() - i,
    {
        if a[i] != b[i] {
            assert(a@[i as int] != b@[i as int]);
            return false;
        }
        assert(a@.take(i + 1) =~= a@.take(i as int).push(a@[i as int]));
        assert(b@.take(i + 1) =~= b@.take(i as int).push(b@[i as int]));
        i = i + 1;
    }
    assert(a@.take(i as int) =~= a@);
    assert(b@.take(i as int) =~= b@);
    true
}

pub open spec fn bucket_holds(b: Vec<Vec<char>>, s: Seq<char>) -> bool {
    exists|i: int| 0 <= i < b.len() && (#[trigger] b[i])@ == s
}

fn bucket_find(b: &Vec<Vec<char>>, s: &Vec<char>) -> (r: bool)
    ensures
        r == bucket_holds(*b, s@),
{
    let mut i: usize = 0;
    while i < b.len()
        invariant
            i <= b.len(),
            forall|k: int| 0 <= k < i ==> (#[trigger] b[k])@ != s@,
        decreases b.len() - i,
    {
        if same_chars(&b[i], s) {
            return true;
        }
        i = i + 1;
    }
    false
}

pub struct Snapshot {
    buckets: HashMap<u64, Vec<Vec<char>>>,
    count: usize,
    contents: Ghost<Set<Seq<char>>>,
}

impl View for Snapshot {
    type V = Set<Seq<char>>;

    closed spec fn view(&self) -> Set<Seq<char>> {
        self.contents@
    }
}

impl Snapshot {
    #[verifier::type_invariant]
    spec fn inv(&self) -> bool {
        &&& self.contents@.finite()
        &&& forall|s: Seq<char>| #[trigger] self.contents@.contains(s) ==> s.len() > 0
        &&& self.count == self.contents@.len()
        &&& forall|s: Seq<char>|
            #![trigger self.contents@.contains(s)]
            self.contents@.contains(s) <==> {
                &&& self.buckets@.contains_key(fingerprint_spec(s))
                &&& bucket_holds(self.buckets@[fingerprint_spec(s)], s)
            }
    }

    pub fn new() -> (r: Snapshot)
        ensures
            r@ == Set::<Seq<char>>::empty(),
    {
        Snapshot { buckets: HashMap::new(), count: 0, contents: Ghost(Set::empty()) }
    }

    /// Number of distinct entries.
    pub fn len(&self) -> (r: usize)
        ensures
            r == self@.len(),
    {
        proof {
            use_type_invariant(self);
        }
        self.count
    }

    pub fn contains(&self, s: &Vec<char>) -> (r: bool)
        ensures
            r == self@.contains(s@),
    {
        proof {
            use_type_invariant(self);
        }
        let h = fingerprint(s);
        match self.buckets.get(&h) {
            Some(b) => bucket_find(b, s),
            None => false,
        }
    }

    pub fn insert(&mut self, s: Vec<char>)
        requires
            s@.len() > 0,
            old(self)@.len() < usize::MAX,
        ensures
            final(self)@ == old(self)@.insert(s@),
    {
        proof {
            use_type_invariant(&*self);
        }
        let h = fingerprint(&s);
        let ghost key = s@;
        let mut taken = Snapshot::new();
        std::mem::swap(self, &mut taken);
        proof {
            use_type_invariant(&taken);
        }
        let Snapshot { mut buckets, count, contents } = taken;
        let ghost old_map = buckets@;
        let ghost old_set = contents@;
        let mut b = match buckets.remove(&h) {
            Some(b) => b,
            None => Vec::new(),
        };
        assert(old_map.contains_key(h) ==> b == old_map[h]);
        if bucket_find(&b, &s) {
            buckets.insert(h, b);
            assert(buckets@ =~= old_map);
            assert(old_set.contains(key));
            assert(old_set.insert(key) =~= old_set);
            *self = Snapshot { buckets, count, contents };
            return ;
        }
        assert(!old_set.contains(key));
        b.push(s);
        buckets.insert(h, b);
        let ghost new_set = old_set.insert(key);
        assert forall|t: Seq<char>| #![trigger new_set.contains(t)]
            new_set.contains(t) <==> {
                &&& buckets@.contains_key(fingerprint_spec(t))
                &&& bucket_holds(buckets@[fingerprint_spec(t)], t)
            } by {
            if fingerprint_spec(t) == h {
                let nb = buckets@[h];
                if t == key {
                    assert(nb[nb.len() - 1]@ == t);
                } else if bucket_holds(nb, t) {
                    let i = choose|i: int| 0 <= i < nb.len() && (#[trigger] nb[i])@ == t;
                    assert(i < nb.len() - 1);
                    assert(old_map.contains_key(h) && old_map[h][i]@ == t);
                    assert(old_set.contains(t));
                } else if old_set.contains(t) {
                    let ob = old_map[h];
                    let i = choose|i: int| 0 <= i < ob.len() && (#[trigger] ob[i])@ == t;
                    assert(nb[i]@ == t);
                }
            } else {
                assert(old_set.contains(t) ==> old_map.contains_key(fingerprint_spec(t)));
            }
        }
        *self = Snapshot { buckets, count: count + 1, contents: Ghost(new_set) };
    }

    /// The entries that a newline-delimited list yields: each line trimmed
    /// and lowercased, blank lines left out.
    pub fn from_text(text: &str) -> (r: Snapshot)
        ensures
            r@ == entries_of(text@),
    {
        let t = chars_of(text);
        let mut snap = Snapshot::new();
        let mut cur: Vec<char> = Vec::new();
        let mut start: usize = 0;
        let mut i: usize = 0;
        while i < t.len()
            invariant
                t@ == text@,
                start <= i <= t.len(),
                start == 0 || t@[start - 1] == '\n',
                forall|k: int| start <= k < i ==> t@[k] != '\n',
                cur@ == t@.subrange(start as int, i as int),
                snap@.len() <= start,
                snap@ == entries_before(t@, start as int),
            decreases t.len() - i,
        {
            let c = t[i];
            if c == '\n' {
                let line = trim(&cur);
                proof {
                    lemma_entries_next_line(t@, start as int, i as int);
                }
                proof {
                    use_type_invariant(&snap);
                }
                if line.len() > 0 {
                    let e = lowercase(&line);
                    snap.insert(e);
                }
                cur = Vec::new();
                start = i + 1;
            } else {
                cur.push(c);
            }
            i = i + 1;
        }
        if start < t.len() {
            let line = trim(&cur);
            proof {
                lemma_entries_next_line(t@, start as int, i as int);
            }
            proof {
                use_type_invariant(&snap);
            }
            if line.len() > 0 {
                let e = lowercase(&line);
                snap.insert(e);
            }
        } else {
            proof {
                lemma_entries_last_empty(t@, start as int);
            }
        }
        snap
    }
}

/// `t[i..j]` is one line of `t`: bounded by newlines or by the ends.
pub open spec fn line_at(t: Seq<char>, i: int, j: int) -> bool {
    &&& 0 <= i <= j <= t.len()
    &&& i == 0 || t[i - 1] == '\n'
    &&& j == t.len() || t[j] == '\n'
    &&& forall|k: int| i <= k < j ==> t[k] != '\n'
}

/// The entry that one line gives: the line trimmed, then lowercased.
pub open spec fn entry_of_line(line: Seq<char>) -> Seq<char> {
    lower_of(trim_spec(line))
}

/// The entries of all lines that end before `limit`.
pub open spec fn entries_before(t: Seq<char>, limit: int) -> Set<Seq<char>> {
    Set::new(
        |e: Seq<char>|
            exists|i: int, j: int|
                #![trigger line_at(t, i, j), entry_of_line(t.subrange(i, j))]
                line_at(t, i, j) && j < limit && trim_spec(t.subrange(i, j)).len() > 0 && e
                    == entry_of_line(t.subrange(i, j)),
    )
}

/// The entries of a whole list.
pub open spec fn entries_of(t: Seq<char>) -> Set<Seq<char>> {
    entries_before(t, t.len() + 1 as int)
}

proof fn lemma_entries_next_line(t: Seq<char>, start: int, j: int)
    requires
        0 <= start <= j <= t.len(),
        start == 0 || t[start - 1] == '\n',
        j == t.len() || t[j] == '\n',
        forall|k: int| start <= k < j ==> t[k] != '\n',
    ensures
        line_at(t, start, j),
        ({
            let line = t.subrange(start, j);
            &&& trim_spec(line).len() > 0 ==> entries_before(t, j + 1) == entries_before(
                t,
                start,
            ).insert(entry_of_line(line))
            &&& trim_spec(line).len() == 0 ==> entries_before(t, j + 1) == entries_before(t, start)
        }),
{
    let e = entry_of_line(t.subrange(start, j));
    let keep = trim_spec(t.subrange(start, j)).len() > 0;
    let lo = entries_before(t, start);
    let hi = entries_before(t, j + 1);
    assert forall|x: Seq<char>| hi.contains(x) implies lo.contains(x) || (x == e && keep) by {
        let (i, k) = choose|i: int, k: int|
            line_at(t, i, k) && k < j + 1 && trim_spec(t.subrange(i, k)).len() > 0 && x
                == entry_of_line(t.subrange(i, k));
        if k >= start {
            if k < j {
                assert(t[k] != '\n');
            }
            assert(k == j);
            if i < start {
                assert(t[start - 1] == '\n');
            }
            if i > start {
                assert(t[i - 1] != '\n');
            }
            assert(i == start);
        }
    }
    assert forall|x: Seq<char>| lo.contains(x) implies hi.contains(x) by {
        let (i, k) = choose|i: int, k: int|
            line_at(t, i, k) && k < start && trim_spec(t.subrange(i, k)).len() > 0 && x
                == entry_of_line(t.subrange(i, k));
        assert(line_at(t, i, k) && k < j + 1);
    }
    if keep {
        assert(line_at(t, start, j));
        assert(hi.contains(e));
        assert(hi =~= lo.insert(e));
    } else {
        assert(hi =~= lo);
    }
}

proof fn lemma_entries_last_empty(t: Seq<char>, start: int)
    requires
        start == t.len(),
        start == 0 || t[start - 1] == '\n',
    ensures
        entries_of(t) == entries_before(t, start),
{
    assert(trim_spec(t.subrange(start, start)).len() == 0);
    lemma_entries_next_line(t, start, start);
}

} // verus!
