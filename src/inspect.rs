//! Turns one incoming message into the effects that the delivery layer
//! carries out.
//!
//! Policy: a message with a blocked word is deleted and its author warned,
//! and nothing else happens for it (no reply, no sticky step).

use crate::normalize::{normalize, normalize_spec};
use crate::store::PhishingProtect;
use crate::sticky::{on_message_spec, StickyAction, StickyModel, StickyState};
use crate::text::{chars_of, is_space, is_space_spec};
use rand::Rng;
use vstd::prelude::*;

verus! {

/// A chat message, as far as the guard reads it.
pub struct IncomingMessage {
    pub id: u64,
    pub channel_id: u64,
    pub author_id: u64,
    pub is_bot: bool,
    /// Seconds since the Unix epoch.
    pub timestamp: i64,
    pub content: String,
}

/// The deployment's plain settings.
#[derive(Clone, Copy, Debug, PartialEq, Eq, Structural)]
pub struct GuardConfig {
    /// The channel whose sticky message is kept.
    pub help_channel: u64,
    /// Seconds of quiet after which a message brings the sticky back.
    pub idle_threshold: i64,
    /// A cosmetic reply comes one time in this many in the help channel
    /// (never when zero).
    pub help_reply_one_in: u32,
    /// The same, in every other channel.
    pub other_reply_one_in: u32,
}

/// One thing for the delivery layer to do.
#[derive(Clone, Copy, Debug, PartialEq, Eq, Structural)]
pub enum Effect {
    DeleteMessage { channel: u64, message: u64 },
    WarnAuthor { channel: u64, author: u64 },
    SillyReply { channel: u64, message: u64 },
    DeleteSticky { channel: u64, message: u64 },
    PostSticky { channel: u64 },
}

/// `c[i..j]` is a word: a maximal run of characters that are not white space.
pub open spec fn word_at(c: Seq<char>, i: int, j: int) -> bool {
    &&& 0 <= i < j <= c.len()
    &&& i == 0 || is_space_spec(c[i - 1])
    &&& j == c.len() || is_space_spec(c[j])
    &&& forall|k: int| i <= k < j ==> !is_space_spec(c[k])
}

/// Whether some word of `c` ending before `limit`, once normalized, is on
/// the list `set`.
pub open spec fn blocked_before(set: Set<Seq<char>>, c: Seq<char>, limit: int) -> bool {
    exists|i: int, j: int|
        #![trigger word_at(c, i, j)]
        word_at(c, i, j) && j < limit && set.contains(normalize_spec(c.subrange(i, j)))
}

/// Whether some word of `c`, once normalized, is on the list `set`.
pub open spec fn content_blocked(set: Set<Seq<char>>, c: Seq<char>) -> bool {
    blocked_before(set, c, c.len() + 1 as int)
}

proof fn lemma_next_word(set: Set<Seq<char>>, c: Seq<char>, start: int, j: int)
    requires
        0 <= start <= j <= c.len(),
        start == 0 || is_space_spec(c[start - 1]),
        j == c.len() || is_space_spec(c[j]),
        forall|k: int| start <= k < j ==> !is_space_spec(c[k]),
    ensures
        start < j ==> word_at(c, start, j),
        blocked_before(set, c, j + 1) == (blocked_before(set, c, start) || (start < j
            && set.contains(normalize_spec(c.subrange(start, j))))),
{
    if blocked_before(set, c, j + 1) {
        let (i, k) = choose|i: int, k: int|
            word_at(c, i, k) && k < j + 1 && set.contains(normalize_spec(c.subrange(i, k)));
        if k >= start {
            if k < j {
                assert(!is_space_spec(c[k]));
            }
            assert(k == j);
            if i < start {
                assert(is_space_spec(c[start - 1]));
            }
            if i > start {
                assert(!is_space_spec(c[i - 1]));
            }
            assert(i == start);
        }
    }
    if blocked_before(set, c, start) {
        let (i, k) = choose|i: int, k: int|
            word_at(c, i, k) && k < start && set.contains(normalize_spec(c.subrange(i, k)));
        assert(word_at(c, i, k) && k < j + 1);
    }
    if start < j && set.contains(normalize_spec(c.subrange(start, j))) {
        assert(word_at(c, start, j));
    }
}

/// Whether a message text holds a word that the store blocks.
pub fn is_phishing(store: &PhishingProtect, content: &str) -> (r: bool)
    ensures
        r == content_blocked(store@, content@),
{
    let c = chars_of(content);
    let ghost set = store@;
    let mut cur: Vec<char> = Vec::new();
    let mut start: usize = 0;
    let mut i: usize = 0;
    while i < c.len()
        invariant
            c@ == content@,
            set == store@,
            start <= i <= c.len(),
            start == 0 || is_space_spec(c@[start - 1]),
            forall|k: int| start <= k < i ==> !is_space_spec(c@[k]),
            cur@ == c@.subrange(start as int, i as int),
            !blocked_before(set, c@, start as int),
        decreases c.len() - i,
    {
        if is_space(c[i]) {
            proof {
                lemma_next_word(set, c@, start as int, i as int);
            }
            if start < i && store.lookup_chars(&normalize(&cur)) {
                return true;
            }
            cur = Vec::new();
            start = i + 1;
        } else {
            cur.push(c[i]);
        }
        i = i + 1;
    }
    proof {
        lemma_next_word(set, c@, start as int, i as int);
    }
    start < i && store.lookup_chars(&normalize(&cur))
}

/// The effects that a sticky decision asks for in `channel`.
pub open spec fn sticky_effects(channel: u64, a: StickyAction) -> Seq<Effect> {
    (match a.delete_old {
        Some(id) => seq![Effect::DeleteSticky { channel, message: id }],
        None => Seq::empty(),
    }) + (if a.post_new {
        seq![Effect::PostSticky { channel }]
    } else {
        Seq::empty()
    })
}

/// The effects of one message and the sticky state after it, given the
/// list, the state before, and whether the cosmetic reply was drawn.
pub open spec fn inspect_spec(
    set: Set<Seq<char>>,
    m: StickyModel,
    cfg: GuardConfig,
    msg: IncomingMessage,
    silly: bool,
) -> (Seq<Effect>, StickyModel) {
    if msg.is_bot {
        (Seq::empty(), m)
    } else if content_blocked(set, msg.content@) {
        (
            seq![
                Effect::DeleteMessage { channel: msg.channel_id, message: msg.id },
                Effect::WarnAuthor { channel: msg.channel_id, author: msg.author_id },
            ],
            m,
        )
    } else {
        let reply = if silly {
            seq![Effect::SillyReply { channel: msg.channel_id, message: msg.id }]
        } else {
            Seq::empty()
        };
        if msg.channel_id == cfg.help_channel {
            let (m2, a) = on_message_spec(m, msg.author_id, msg.timestamp, cfg.idle_threshold);
            (reply + sticky_effects(msg.channel_id, a), m2)
        } else {
            (reply, m)
        }
    }
}

fn push_sticky_effects(out: &mut Vec<Effect>, channel: u64, a: StickyAction)
    ensures
        final(out)@ == old(out)@ + sticky_effects(channel, a),
{
    let ghost start = out@;
    match a.delete_old {
        Some(id) => out.push(Effect::DeleteSticky { channel, message: id }),
        None => {},
    }
    if a.post_new {
        out.push(Effect::PostSticky { channel });
    }
    assert(out@ =~= start + sticky_effects(channel, a));
}

/// Decides what one incoming message leads to. `silly` is the outcome of
/// the cosmetic-reply draw for this message.
pub fn inspect(
    store: &PhishingProtect,
    sticky: &mut StickyState,
    cfg: &GuardConfig,
    msg: &IncomingMessage,
    silly: bool,
) -> (r: Vec<Effect>)
    ensures
        (r@, final(sticky)@) == inspect_spec(store@, old(sticky)@, *cfg, *msg, silly),
{
    let mut out: Vec<Effect> = Vec::new();
    if msg.is_bot {
        return out;
    }
    if is_phishing(store, msg.content.as_str()) {
        out.push(Effect::DeleteMessage { channel: msg.channel_id, message: msg.id });
        out.push(Effect::WarnAuthor { channel: msg.channel_id, author: msg.author_id });
        return out;
    }
    if silly {
        out.push(Effect::SillyReply { channel: msg.channel_id, message: msg.id });
    }
    if msg.channel_id == cfg.help_channel {
        let a = sticky.on_message(msg.author_id, msg.timestamp, cfg.idle_threshold);
        push_sticky_effects(&mut out, msg.channel_id, a);
    }
    out
}

/// How rare the cosmetic reply is in `channel`: one time in this many.
pub open spec fn reply_one_in_spec(cfg: GuardConfig, channel: u64) -> u32 {
    if channel == cfg.help_channel {
        cfg.help_reply_one_in
    } else {
        cfg.other_reply_one_in
    }
}

pub fn reply_one_in(cfg: &GuardConfig, channel: u64) -> (r: u32)
    ensures
        r == reply_one_in_spec(*cfg, channel),
{
    if channel == cfg.help_channel {
        cfg.help_reply_one_in
    } else {
        cfg.other_reply_one_in
    }
}

/// Relies on rand's `Rng::random_ratio` on the thread-local generator:
/// true with chance `numerator / denominator`; always false for a zero
/// numerator, always true when the two are equal; panics when `denominator`
/// is zero or below `numerator`, which `requires` rules out.
#[verifier::external_body]
fn should_show(numerator: u32, denominator: u32) -> (r: bool)
    requires
        0 < denominator,
        numerator <= denominator,
    ensures
        numerator == 0 ==> !r,
        numerator == denominator ==> r,
{
    rand::rng().random_ratio(numerator, denominator)
}

/// Draws the cosmetic reply for a message: never when its rate is zero,
/// always when it is one in one.
pub fn draw_reply(cfg: &GuardConfig, msg: &IncomingMessage) -> (r: bool)
    ensures
        reply_one_in_spec(*cfg, msg.channel_id) == 0 ==> !r,
        reply_one_in_spec(*cfg, msg.channel_id) == 1 ==> r,
{
    let n = reply_one_in(cfg, msg.channel_id);
    if n == 0 {
        false
    } else {
        should_show(1, n)
    }
}

/// Handles one message: draws the cosmetic reply only for a message that
/// could get one, then decides as `inspect` does for that draw.
pub fn handle_message(
    store: &PhishingProtect,
    sticky: &mut StickyState,
    cfg: &GuardConfig,
    msg: &IncomingMessage,
) -> (r: Vec<Effect>)
    ensures
        exists|silly: bool|
            (r@, final(sticky)@) == inspect_spec(store@, old(sticky)@, *cfg, *msg, silly),
        reply_one_in_spec(*cfg, msg.channel_id) == 0 ==> (r@, final(sticky)@) == inspect_spec(
            store@,
            old(sticky)@,
            *cfg,
            *msg,
            false,
        ),
        reply_one_in_spec(*cfg, msg.channel_id) == 1 ==> (r@, final(sticky)@) == inspect_spec(
            store@,
            old(sticky)@,
            *cfg,
            *msg,
            true,
        ),
{
    let silly = if msg.is_bot || is_phishing(store, msg.content.as_str()) {
        false
    } else {
        draw_reply(cfg, msg)
    };
    inspect(store, sticky, cfg, msg, silly)
}

} // verus!
