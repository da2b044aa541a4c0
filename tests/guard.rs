use channel_guard::inspect::{
    draw_reply, handle_message, inspect, is_phishing, reply_one_in, Effect, GuardConfig,
    IncomingMessage,
};
use channel_guard::normalize::{canonicalize, normalize};
use channel_guard::snapshot::{fingerprint, same_chars, Snapshot};
use channel_guard::sticky::{StickyAction, StickyState};
use channel_guard::store::{PhishingProtect, RefreshError};
use channel_guard::text::{chars_of, is_space, trim};

fn cv(s: &str) -> Vec<char> {
    s.chars().collect()
}

fn norm(s: &str) -> String {
    normalize(&cv(s)).into_iter().collect()
}

fn store_of(text: &str) -> PhishingProtect {
    let mut p = PhishingProtect::new();
    p.load(text);
    p
}

fn config() -> GuardConfig {
    GuardConfig {
        help_channel: 10,
        idle_threshold: 10,
        help_reply_one_in: 0,
        other_reply_one_in: 0,
    }
}

fn message(id: u64, channel: u64, author: u64, at: i64, content: &str) -> IncomingMessage {
    IncomingMessage {
        id,
        channel_id: channel,
        author_id: author,
        is_bot: false,
        timestamp: at,
        content: content.to_string(),
    }
}

#[test]
fn normalize_strips_scheme_path_and_punctuation() {
    assert_eq!(norm("HTTPS://A.com/path?x=1"), "a.com");
    assert_eq!(norm("http://a.com/path"), "a.com");
    assert_eq!(norm("Example.COM,"), "example.com");
    assert_eq!(norm("a.com/x/?!."), "a.com/x");
    assert_eq!(norm("http://"), "");
    assert_eq!(norm("...!"), "");
    assert_eq!(norm("ftp://a.com/"), "ftp://a.com");
}

#[test]
fn normalize_lowercases_every_letter() {
    assert_eq!(norm("\u{c9}COLE.fr"), "\u{e9}cole.fr");
    assert_eq!(norm("\u{41f}\u{420}\u{418}\u{41c}\u{415}\u{420}.\u{440}\u{444}"), "\u{43f}\u{440}\u{438}\u{43c}\u{435}\u{440}.\u{440}\u{444}");
    assert_eq!(norm("HTTPS://\u{c9}.com/X"), "\u{e9}.com");
}

#[test]
fn canonicalize_leaves_case_alone() {
    let c: String = canonicalize(&cv("http://A.com/x!")).into_iter().collect();
    assert_eq!(c, "A.com");
    let c: String = canonicalize(&cv("HTTP://a.com")).into_iter().collect();
    assert_eq!(c, "HTTP://a.com");
}

#[test]
fn non_ascii_capitals_match_lowercase_entries() {
    let p = store_of("\u{43f}\u{440}\u{438}\u{43c}\u{435}\u{440}.\u{440}\u{444}\n  \u{c9}COLE.fr \n");
    assert!(p.lookup("\u{e9}cole.fr"));
    assert!(!p.lookup("\u{c9}COLE.fr"));
    assert!(is_phishing(&p, "see \u{41f}\u{420}\u{418}\u{41c}\u{415}\u{420}.\u{440}\u{444} now"));
    assert!(is_phishing(&p, "https://\u{c9}cole.FR/login"));
}

#[test]
fn punctuation_only_word_is_not_blocked() {
    let p = store_of("a.com\n.\n");
    assert_eq!(p.len(), 2);
    assert!(!is_phishing(&p, "... !!! ,"));
}

#[test]
fn normalize_twice_is_normalize_once() {
    for s in ["HTTPS://A.com/path?", "http://http://a.com/", "x.Y,,", "https:/a", "", "http://a.com."] {
        let once = norm(s);
        assert_eq!(norm(&once), once);
    }
}

#[test]
fn text_helpers() {
    assert!(is_space(' ') && is_space('\t') && is_space('\u{3000}'));
    assert!(!is_space('a') && !is_space('\u{200b}'));
    assert_eq!(trim(&cv(" \t a b \r")), cv("a b"));
    assert_eq!(trim(&cv("   ")), cv(""));
    assert_eq!(chars_of("h\u{e9}"), vec!['h', '\u{e9}']);
}

#[test]
fn fingerprint_is_fnv1a() {
    assert_eq!(fingerprint(&cv("")), 0xcbf29ce484222325);
    assert_eq!(fingerprint(&cv("a")), 0xaf63dc4c8601ec8c);
    assert!(same_chars(&cv("ab"), &cv("ab")));
    assert!(!same_chars(&cv("ab"), &cv("ac")));
    assert!(!same_chars(&cv("ab"), &cv("abc")));
}

#[test]
fn snapshot_dedups_and_trims_lines() {
    let s = Snapshot::from_text("  A.COM  \r\n\n b.com\na.com\n   \nc.org");
    assert_eq!(s.len(), 3);
    assert!(s.contains(&cv("a.com")));
    assert!(s.contains(&cv("b.com")));
    assert!(s.contains(&cv("c.org")));
    assert!(!s.contains(&cv("A.COM")));
    assert!(!s.contains(&cv("")));
    let mut t = Snapshot::new();
    t.insert(cv("x"));
    t.insert(cv("x"));
    assert_eq!(t.len(), 1);
}

#[test]
fn local_file_seeds_lookup() {
    let p = store_of("a.com\nb.com\n");
    assert!(p.lookup("a.com"));
    assert!(p.lookup("b.com"));
    assert!(!p.lookup("c.com"));
    assert_eq!(p.len(), 2);
}

#[test]
fn lookup_follows_the_installed_snapshot_only() {
    let mut p = store_of("old.com\nshared.com");
    p.replace(Snapshot::from_text("new.com\nshared.com"));
    assert!(!p.lookup("old.com"));
    assert!(p.lookup("new.com"));
    assert!(p.lookup("shared.com"));
    assert_eq!(p.len(), 2);
}

#[test]
fn link_in_message_is_blocked_by_domain() {
    let p = store_of("a.com\n");
    assert!(is_phishing(&p, "check http://a.com/path now"));
    assert!(is_phishing(&p, "A.COM!"));
    assert!(is_phishing(&p, "x\ta.com"));
    assert!(!is_phishing(&p, "check http://b.com/a.com now"));
    assert!(!is_phishing(&p, "aa.com"));
    let mut sticky = StickyState::new();
    let effects = inspect(&p, &mut sticky, &config(), &message(5, 10, 1, 0, "check http://a.com/path now"), true);
    assert_eq!(
        effects,
        vec![
            Effect::DeleteMessage { channel: 10, message: 5 },
            Effect::WarnAuthor { channel: 10, author: 1 },
        ]
    );
    assert_eq!(sticky.last_author(), None);
}

#[test]
fn same_author_soon_after_then_handoff() {
    let mut s = StickyState::new();
    assert_eq!(s.on_message(1, 0, 10), StickyAction { delete_old: None, post_new: false });
    assert_eq!(s.on_posted(77), None);
    assert_eq!(s.on_message(1, 5, 10), StickyAction { delete_old: None, post_new: false });
    assert_eq!(s.active_sticky_id(), Some(77));
    assert_eq!(s.on_message(2, 6, 10), StickyAction { delete_old: Some(77), post_new: false });
    assert_eq!(s.active_sticky_id(), None);
    assert_eq!(s.last_author(), Some(2));
}

#[test]
fn idle_boundary_is_inclusive() {
    let mut s = StickyState::new();
    s.on_message(1, 100, 10);
    assert_eq!(s.on_message(1, 109, 10), StickyAction { delete_old: None, post_new: false });
    assert_eq!(s.on_message(1, 119, 10), StickyAction { delete_old: None, post_new: true });
    assert!(s.post_pending());
    assert_eq!(s.on_message(1, 200, 10), StickyAction { delete_old: None, post_new: false });
    s.on_post_failed();
    assert!(!s.post_pending());
    assert_eq!(s.on_message(1, 210, 10), StickyAction { delete_old: None, post_new: true });
}

#[test]
fn never_more_than_one_live_sticky() {
    let mut s = StickyState::new();
    let mut next_id: u64 = 1000;
    let authors = [1u64, 1, 2, 3, 3, 1, 2, 2, 2, 1];
    let mut now: i64 = 0;
    for (k, a) in authors.iter().enumerate() {
        now += (k as i64 * 7) % 23;
        let act = s.on_message(*a, now, 10);
        if act.post_new {
            assert_eq!(s.active_sticky_id(), None);
            if k % 3 == 0 {
                s.on_post_failed();
            } else {
                next_id += 1;
                assert_eq!(s.on_posted(next_id), None);
            }
        }
        let poll = s.on_poll(Some((k as u64, now - 30)), now, 20);
        if poll.post_new {
            next_id += 1;
            s.on_posted(next_id);
        }
        assert!(!(s.active_sticky_id().is_some() && s.post_pending()));
    }
}

#[test]
fn poll_reposts_after_quiet() {
    let mut s = StickyState::new();
    assert_eq!(s.on_poll(None, 500, 120), StickyAction { delete_old: None, post_new: false });
    assert_eq!(s.on_poll(Some((9, 400)), 500, 120), StickyAction { delete_old: None, post_new: false });
    assert_eq!(s.on_poll(Some((9, 380)), 500, 120), StickyAction { delete_old: None, post_new: true });
    assert_eq!(s.on_poll(Some((9, 380)), 600, 120), StickyAction { delete_old: None, post_new: false });
    assert_eq!(s.on_posted(42), None);
    // the newest message is the sticky itself: nothing to do
    assert_eq!(s.on_poll(Some((42, 0)), 600, 120), StickyAction { delete_old: None, post_new: false });
    assert_eq!(s.on_poll(Some((43, 0)), 600, 120), StickyAction { delete_old: Some(42), post_new: true });
    assert_eq!(s.active_sticky_id(), None);
}

#[test]
fn failed_download_keeps_snapshot() {
    let mut p = store_of("a.com\nb.com\nc.com\n");
    let before: Vec<bool> = ["a.com", "b.com", "c.com", "d.com"].iter().map(|t| p.lookup(t)).collect();
    assert_eq!(p.apply_refresh(Err(RefreshError::Transport)), Err(RefreshError::Transport));
    assert_eq!(p.apply_refresh(Err(RefreshError::Io)), Err(RefreshError::Io));
    let after: Vec<bool> = ["a.com", "b.com", "c.com", "d.com"].iter().map(|t| p.lookup(t)).collect();
    assert_eq!(before, after);
    assert_eq!(p.len(), 3);
    assert_eq!(p.apply_refresh(Ok("d.com\n".to_string())), Ok(1));
    assert!(p.lookup("d.com"));
    assert!(!p.lookup("a.com"));
}

#[test]
fn empty_list_blocks_nothing() {
    let p = store_of("");
    assert_eq!(p.len(), 0);
    assert!(!is_phishing(&p, "http://a.com anything"));
    assert!(!is_phishing(&p, ""));
    let mut sticky = StickyState::new();
    let e = inspect(&p, &mut sticky, &config(), &message(1, 3, 1, 0, "a.com"), false);
    assert!(e.is_empty());
}

#[test]
fn help_channel_message_runs_sticky_step() {
    let p = store_of("bad.com");
    let mut sticky = StickyState::new();
    let cfg = config();
    assert!(inspect(&p, &mut sticky, &cfg, &message(1, 10, 1, 0, "hi"), false).is_empty());
    sticky.on_posted(50);
    let e = inspect(&p, &mut sticky, &cfg, &message(2, 10, 2, 30, "hello"), true);
    assert_eq!(
        e,
        vec![
            Effect::SillyReply { channel: 10, message: 2 },
            Effect::DeleteSticky { channel: 10, message: 50 },
            Effect::PostSticky { channel: 10 },
        ]
    );
    // other channels leave the sticky alone
    let e = inspect(&p, &mut sticky, &cfg, &message(3, 11, 3, 90, "hello"), false);
    assert!(e.is_empty());
    assert_eq!(sticky.last_author(), Some(2));
    // bots are ignored
    let mut bot = message(4, 10, 9, 99, "bad.com");
    bot.is_bot = true;
    assert!(inspect(&p, &mut sticky, &cfg, &bot, true).is_empty());
}

#[test]
fn reply_draw_follows_rates() {
    let mut cfg = config();
    cfg.help_reply_one_in = 1;
    cfg.other_reply_one_in = 0;
    assert_eq!(reply_one_in(&cfg, 10), 1);
    assert_eq!(reply_one_in(&cfg, 11), 0);
    assert!(draw_reply(&cfg, &message(1, 10, 1, 0, "x")));
    assert!(!draw_reply(&cfg, &message(1, 11, 1, 0, "x")));
    let p = store_of("bad.com");
    let mut sticky = StickyState::new();
    let e = handle_message(&p, &mut sticky, &cfg, &message(7, 10, 1, 0, "hi"));
    assert_eq!(e, vec![Effect::SillyReply { channel: 10, message: 7 }]);
    let e = handle_message(&p, &mut sticky, &cfg, &message(8, 10, 1, 1, "bad.com"));
    assert_eq!(
        e,
        vec![
            Effect::DeleteMessage { channel: 10, message: 8 },
            Effect::WarnAuthor { channel: 10, author: 1 },
        ]
    );
    let e = handle_message(&p, &mut sticky, &cfg, &message(9, 11, 1, 2, "hi"));
    assert!(e.is_empty());
}
