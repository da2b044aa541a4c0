//! The live blocklist and the refresh step that swaps it.
//!
//! A store owns exactly one snapshot. Replacing it takes `&mut self`, so a
//! caller that shares the store behind a reader/writer lock gets whole
//! swaps: a reader sees the old snapshot or the new one.

use crate::snapshot::{entries_of, Snapshot};
use crate::text::chars_of;
use vstd::prelude::*;

verus! {

pub struct PhishingProtect {
    set: Snapshot,
}

/// Why a refresh brought no new list.
#[derive(Clone, Copy, Debug, PartialEq, Eq, Structural)]
pub enum RefreshError {
    /// The download failed or ended with an error status.
    Transport,
    /// The downloaded file could not be moved into place or read.
    Io,
}

impl View for PhishingProtect {
    type V = Set<Seq<char>>;

    closed spec fn view(&self) -> Set<Seq<char>> {
        self.set@
    }
}

impl PhishingProtect {
    /// A store that blocks nothing yet.
    pub fn new() -> (r: PhishingProtect)
        ensures
            r@ == Set::<Seq<char>>::empty(),
    {
        PhishingProtect { set: Snapshot::new() }
    }

    /// Installs the entries of a newline-delimited list that was read in
    /// full. A list that could not be read is never handed here, so the
    /// previous entries stay.
    pub fn load(&mut self, text: &str)
        ensures
            final(self)@ == entries_of(text@),
    {
        let snap = Snapshot::from_text(text);
        self.replace(snap);
    }

    /// Installs `snap` whole, whatever was there before.
    pub fn replace(&mut self, snap: Snapshot)
        ensures
            final(self)@ == snap@,
    {
        self.set = snap;
    }

    /// Whether a normalized word is on the list.
    pub fn lookup(&self, token: &str) -> (r: bool)
        ensures
            r == self@.contains(token@),
    {
        let t = chars_of(token);
        self.set.contains(&t)
    }

    pub fn lookup_chars(&self, token: &Vec<char>) -> (r: bool)
        ensures
            r == self@.contains(token@),
    {
        self.set.contains(token)
    }

    /// Number of entries on the list.
    pub fn len(&self) -> (r: usize)
        ensures
            r == self@.len(),
    {
        self.set.len()
    }

    /// One refresh step: a list that was fetched and read replaces the
    /// current one; a failure leaves the current one in place. Returns the
    /// new number of entries, or the failure.
    pub fn apply_refresh(&mut self, fetched: Result<String, RefreshError>) -> (r: Result<
        usize,
        RefreshError,
    >)
        ensures
            match fetched {
                Ok(text) => final(self)@ == entries_of(text@) && r == Ok::<usize, RefreshError>(
                    final(self)@.len() as usize,
                ),
                Err(e) => final(self)@ == old(self)@ && r == Err::<usize, RefreshError>(e),
            },
    {
        match fetched {
            Ok(text) => {
                self.load(text.as_str());
                Ok(self.len())
            },
            Err(e) => Err(e),
        }
    }
}

/// After a snapshot is installed, a lookup answers membership in that
/// snapshot alone: the store it replaced plays no part.
pub proof fn lemma_lookup_after_replace(
    before: PhishingProtect,
    after: PhishingProtect,
    snap: Snapshot,
    token: Seq<char>,
)
    requires
        after@ == snap@,
    ensures
        after@.contains(token) == snap@.contains(token),
{
}

} // verus!
