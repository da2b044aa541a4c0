//! The per-channel controller of one sticky message.
//!
//! Policy: the idle time is measured from the previous message in the
//! channel, and a message counts as idle-delayed when that time is at least
//! the threshold (`>=`). A change of author retires the current sticky. A
//! post that was asked for and not yet confirmed counts as a live sticky, so
//! no second post is asked for meanwhile.

use vstd::prelude::*;

verus! {

/// What the delivery layer should do with the channel's sticky message.
#[derive(Clone, Copy, Debug, PartialEq, Eq, Structural)]
pub struct StickyAction {
    /// Delete this earlier sticky message.
    pub delete_old: Option<u64>,
    /// Post a new sticky message, then report it with `on_posted`.
    pub post_new: bool,
}

/// The abstract state of one channel's controller.
pub struct StickyModel {
    pub active: Option<u64>,
    pub pending: bool,
    pub last_author: Option<u64>,
    pub last_activity_at: Option<i64>,
}

pub struct StickyState {
    active_sticky_id: Option<u64>,
    post_pending: bool,
    last_author: Option<u64>,
    last_activity_at: Option<i64>,
}

/// Number of sticky messages that are live or being posted.
pub open spec fn live_stickies(m: StickyModel) -> int {
    (if m.active is Some { 1int } else { 0int }) + (if m.pending { 1int } else { 0int })
}

pub open spec fn model_ok(m: StickyModel) -> bool {
    live_stickies(m) <= 1
}

/// Whether `author` takes over the channel from someone else.
pub open spec fn is_handoff(m: StickyModel, author: u64) -> bool {
    m.last_author is Some && m.last_author != Some(author)
}

/// Whether the channel was quiet for at least `threshold` seconds before `now`.
pub open spec fn idle_reached(m: StickyModel, now: i64, threshold: i64) -> bool {
    m.last_activity_at is Some && now - m.last_activity_at->0 >= threshold
}

/// The decision on one message of `author` at `now`, and the state after it.
pub open spec fn on_message_spec(m: StickyModel, author: u64, now: i64, threshold: i64) -> (
    StickyModel,
    StickyAction,
) {
    let handoff = is_handoff(m, author);
    let delete_old = if handoff {
        m.active
    } else {
        None
    };
    let active = if handoff {
        None
    } else {
        m.active
    };
    let post_new = active is None && !m.pending && idle_reached(m, now, threshold);
    (
        StickyModel {
            active,
            pending: m.pending || post_new,
            last_author: Some(author),
            last_activity_at: Some(now),
        },
        StickyAction { delete_old, post_new },
    )
}

/// The decision on a poll that found the channel's newest message
/// `newest = (id, sent_at)` at `now`.
pub open spec fn on_poll_spec(
    m: StickyModel,
    newest: Option<(u64, i64)>,
    now: i64,
    threshold: i64,
) -> (StickyModel, StickyAction) {
    let quiet = match newest {
        Some(n) => now - n.1 >= threshold && m.active != Some(n.0) && !m.pending,
        None => false,
    };
    if quiet {
        (
            StickyModel { active: None, pending: true, ..m },
            StickyAction { delete_old: m.active, post_new: true },
        )
    } else {
        (m, StickyAction { delete_old: None, post_new: false })
    }
}

impl View for StickyState {
    type V = StickyModel;

    closed spec fn view(&self) -> StickyModel {
        StickyModel {
            active: self.active_sticky_id,
            pending: self.post_pending,
            last_author: self.last_author,
            last_activity_at: self.last_activity_at,
        }
    }
}

impl StickyState {
    #[verifier::type_invariant]
    spec fn inv(&self) -> bool {
        model_ok(self@)
    }

    pub fn new() -> (r: StickyState)
        ensures
            r@ == (StickyModel {
                active: None,
                pending: false,
                last_author: None,
                last_activity_at: None,
            }),
    {
        StickyState {
            active_sticky_id: None,
            post_pending: false,
            last_author: None,
            last_activity_at: None,
        }
    }

    pub fn active_sticky_id(&self) -> (r: Option<u64>)
        ensures
            r == self@.active,
    {
        self.active_sticky_id
    }

    pub fn post_pending(&self) -> (r: bool)
        ensures
            r == self@.pending,
    {
        self.post_pending
    }

    pub fn last_author(&self) -> (r: Option<u64>)
        ensures
            r == self@.last_author,
    {
        self.last_author
    }

    /// Decides what one channel message from `author` at `now` does to the
    /// sticky message; the whole read-decide-update step happens here.
    pub fn on_message(&mut self, author: u64, now: i64, idle_threshold: i64) -> (r: StickyAction)
        ensures
            (final(self)@, r) == on_message_spec(old(self)@, author, now, idle_threshold),
            model_ok(final(self)@),
    {
        proof {
            use_type_invariant(&*self);
        }
        let handoff = match self.last_author {
            Some(a) => a != author,
            None => false,
        };
        let delete_old = if handoff {
            self.active_sticky_id
        } else {
            None
        };
        if handoff {
            self.active_sticky_id = None;
        }
        let idle = match self.last_activity_at {
            Some(t) => (now as i128) - (t as i128) >= (idle_threshold as i128),
            None => false,
        };
        let post_new = self.active_sticky_id.is_none() && !self.post_pending && idle;
        if post_new {
            self.post_pending = true;
        }
        self.last_author = Some(author);
        self.last_activity_at = Some(now);
        proof {
            use_type_invariant(&*self);
        }
        StickyAction { delete_old, post_new }
    }

    /// Decides what a poll of the channel does: when its newest message is
    /// at least `quiet_threshold` seconds old and is not the sticky itself,
    /// the sticky is retired and posted again.
    pub fn on_poll(&mut self, newest: Option<(u64, i64)>, now: i64, quiet_threshold: i64) -> (r:
        StickyAction)
        ensures
            (final(self)@, r) == on_poll_spec(old(self)@, newest, now, quiet_threshold),
            model_ok(final(self)@),
    {
        proof {
            use_type_invariant(&*self);
        }
        let quiet = match newest {
            Some(n) => (now as i128) - (n.1 as i128) >= (quiet_threshold as i128) && (match self.active_sticky_id {
                Some(id) => id != n.0,
                None => true,
            }) && !self.post_pending,
            None => false,
        };
        let r = if quiet {
            let delete_old = self.active_sticky_id;
            self.active_sticky_id = None;
            self.post_pending = true;
            StickyAction { delete_old, post_new: true }
        } else {
            StickyAction { delete_old: None, post_new: false }
        };
        proof {
            use_type_invariant(&*self);
        }
        r
    }

    /// Records the sticky message that was posted. Returns a sticky that it
    /// displaces, if one was somehow still recorded, for deletion.
    pub fn on_posted(&mut self, id: u64) -> (r: Option<u64>)
        ensures
            final(self)@ == (StickyModel { active: Some(id), pending: false, ..old(self)@ }),
            r == old(self)@.active,
            model_ok(final(self)@),
    {
        proof {
            use_type_invariant(&*self);
        }
        let displaced = self.active_sticky_id;
        self.post_pending = false;
        self.active_sticky_id = Some(id);
        proof {
            use_type_invariant(&*self);
        }
        displaced
    }

    /// Records that a requested post did not go through.
    pub fn on_post_failed(&mut self)
        ensures
            final(self)@ == (StickyModel { pending: false, ..old(self)@ }),
            model_ok(final(self)@),
    {
        proof {
            use_type_invariant(&*self);
        }
        self.post_pending = false;
        proof {
            use_type_invariant(&*self);
        }
    }
}

/// Over any run of messages, polls and delivery reports, a channel never
/// has more than one sticky message live or being posted: every step keeps
/// the bound, and a post is asked for only when nothing is live.
pub proof fn lemma_sticky_at_most_one(m: StickyModel, author: u64, now: i64, threshold: i64, newest: Option<(u64, i64)>)
    requires
        model_ok(m),
    ensures
        model_ok(on_message_spec(m, author, now, threshold).0),
        on_message_spec(m, author, now, threshold).1.post_new ==> on_message_spec(m, author, now, threshold).0.active is None,
        model_ok(on_poll_spec(m, newest, now, threshold).0),
        on_poll_spec(m, newest, now, threshold).1.post_new ==> on_poll_spec(m, newest, now, threshold).0.active is None,
{
}

/// The idle boundary is inclusive: a message exactly `threshold` seconds
/// after the previous one, with no sticky live, asks for a post; one second
/// earlier it does not.
pub proof fn lemma_idle_boundary(m: StickyModel, author: u64, threshold: i64)
    requires
        model_ok(m),
        m.active is None,
        !m.pending,
        m.last_activity_at is Some,
        m.last_activity_at->0 + threshold <= i64::MAX,
        m.last_activity_at->0 + threshold - 1 >= i64::MIN,
    ensures
        on_message_spec(m, author, (m.last_activity_at->0 + threshold) as i64, threshold).1.post_new,
        !on_message_spec(m, author, (m.last_activity_at->0 + threshold - 1) as i64, threshold).1.post_new,
{
}

/// The quiet boundary of a poll is inclusive too: when the newest message
/// is not the sticky and no post is under way, a poll exactly `threshold`
/// seconds after it retires the sticky and asks for a post; one second
/// earlier it changes nothing and asks for nothing.
pub proof fn lemma_poll_boundary(m: StickyModel, id: u64, sent_at: i64, threshold: i64)
    requires
        model_ok(m),
        !m.pending,
        m.active != Some(id),
        sent_at + threshold <= i64::MAX,
        sent_at + threshold - 1 >= i64::MIN,
    ensures
        ({
            let (m2, a) = on_poll_spec(m, Some((id, sent_at)), (sent_at + threshold) as i64, threshold);
            a == StickyAction { delete_old: m.active, post_new: true } && m2.active is None && m2.pending
        }),
        on_poll_spec(m, Some((id, sent_at)), (sent_at + threshold - 1) as i64, threshold) == (
            m,
            StickyAction { delete_old: None, post_new: false },
        ),
{
}

/// Two messages of one author a short while apart leave the sticky alone;
/// a message of another author then retires it.
pub proof fn lemma_same_author_then_handoff(
    m: StickyModel,
    a: u64,
    b: u64,
    t: i64,
    later: i64,
    u: i64,
    threshold: i64,
)
    requires
        model_ok(m),
        m.active is Some,
        m.last_author is None || m.last_author == Some(a),
        a != b,
        t <= later,
        later - t < threshold,
    ensures
        ({
            let (m1, _) = on_message_spec(m, a, t, threshold);
            let (m2, act2) = on_message_spec(m1, a, later, threshold);
            let (m3, act3) = on_message_spec(m2, b, u, threshold);
            &&& act2 == StickyAction { delete_old: None, post_new: false }
            &&& m2.active == m.active
            &&& m2.last_author == Some(a)
            &&& act3.delete_old == m.active
            &&& m3.active is None
            &&& m3.last_author == Some(b)
        }),
{
}

} // verus!
