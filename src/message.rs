//! Chat events and the parser that reads them from raw protocol lines.
use crate::text::{
    chars_of, contains, contains_in, find, find_in, find_within, lemma_find_subrange,
    occurs_at, matches_at, substring, word_bounds, words,
};
use vstd::prelude::*;

verus! {

/// What `str::to_lowercase` makes of a string.
pub uninterp spec fn lower_of(s: Seq<char>) -> Seq<char>;

/// Relies on `str::to_lowercase`: the result depends on the characters alone.
#[verifier::external_body]
pub(crate) fn lowercase(s: &str) -> (r: String)
    ensures
        r@ == lower_of(s@),
{
    s.to_lowercase()
}

/// The mathematical content of a chat event.
pub struct MessageView {
    pub username: Seq<char>,
    pub message: Seq<char>,
    pub channel: Seq<char>,
    pub is_moderator: bool,
    pub is_broadcaster: bool,
    pub is_vip: bool,
    pub custom_reward_id: Option<Seq<char>>,
}

/// One chat message, as read from a protocol line.
#[derive(Debug, Clone)]
pub struct TwitchMessage {
    pub username: String,
    pub message: String,
    pub channel: String,
    pub is_moderator: bool,
    pub is_broadcaster: bool,
    pub is_vip: bool,
    pub custom_reward_id: Option<String>,
}

/// The characters of an optional string.
pub open spec fn opt_view(o: Option<String>) -> Option<Seq<char>> {
    match o {
        Some(s) => Some(s@),
        None => None,
    }
}

impl View for TwitchMessage {
    type V = MessageView;

    open spec fn view(&self) -> MessageView {
        MessageView {
            username: self.username@,
            message: self.message@,
            channel: self.channel@,
            is_moderator: self.is_moderator,
            is_broadcaster: self.is_broadcaster,
            is_vip: self.is_vip,
            custom_reward_id: opt_view(self.custom_reward_id),
        }
    }
}

/// Where the part of `raw` after its tag prefix starts; `None` when a tag
/// prefix is not closed by a space.
pub open spec fn body_start(raw: Seq<char>) -> Option<int> {
    if raw.len() > 0 && raw[0] == '@' {
        match find(raw, " "@) {
            Some(sp) => Some(sp + 1),
            None => None,
        }
    } else {
        Some(0)
    }
}

/// The end of the tag segment that starts at `p`: the next `;`, or `hi`.
pub open spec fn segment_end(s: Seq<char>, p: int, hi: int) -> int {
    match find_within(s, ";"@, p, hi) {
        Some(j) => j,
        None => hi,
    }
}

/// The value of the tag segment `p .. end` if its key is `key` (and, when
/// `skip_empty`, its value is not empty); else `acc`.
pub open spec fn tag_step(
    s: Seq<char>,
    key: Seq<char>,
    skip_empty: bool,
    p: int,
    end: int,
    acc: Option<Seq<char>>,
) -> Option<Seq<char>> {
    match find_within(s, "="@, p, end) {
        Some(k) => if s.subrange(p, k) == key && !(skip_empty && k + 1 == end) {
            Some(s.subrange(k + 1, end))
        } else {
            acc
        },
        None => acc,
    }
}

/// The value of the last `key=value` tag in the `;`-separated list that fills
/// `p .. hi` of `s`, or `acc` if there is none.
pub open spec fn last_tag_value(
    s: Seq<char>,
    key: Seq<char>,
    skip_empty: bool,
    p: int,
    hi: int,
    acc: Option<Seq<char>>,
) -> Option<Seq<char>>
    decreases hi - p + 1,
{
    if p < 0 || p > hi || hi > s.len() {
        acc
    } else {
        let end = segment_end(s, p, hi);
        let next = tag_step(s, key, skip_empty, p, end, acc);
        if p <= end && end < hi {
            last_tag_value(s, key, skip_empty, end + 1, hi, next)
        } else {
            next
        }
    }
}

/// The value of the tag `key` that a line's tag prefix gives, the last one
/// counting; with `skip_empty`, empty values do not count.
pub open spec fn tag_value(raw: Seq<char>, key: Seq<char>, skip_empty: bool) -> Option<Seq<char>> {
    match body_start(raw) {
        Some(b) => if b > 0 {
            last_tag_value(raw, key, skip_empty, 1, b - 1, None)
        } else {
            None
        },
        None => None,
    }
}

/// The badges value holds the given badge marker.
pub open spec fn badge_flag(raw: Seq<char>, marker: Seq<char>) -> bool {
    match tag_value(raw, "badges"@, false) {
        Some(v) => contains(v, marker),
        None => false,
    }
}

/// `w` without one leading `c`, if it starts with one.
pub open spec fn strip_first(w: Seq<char>, c: char) -> Seq<char> {
    if w.len() > 0 && w[0] == c {
        w.drop_first()
    } else {
        w
    }
}

/// The sender name in the source token: one leading `:` dropped, cut at the first `!`.
pub open spec fn sender_of(w: Seq<char>) -> Seq<char> {
    let w1 = strip_first(w, ':');
    match find(w1, "!"@) {
        Some(k) => w1.subrange(0, k),
        None => w1,
    }
}

/// What parsing `raw` against the configured `channel` yields.
pub open spec fn parse_spec(raw: Seq<char>, channel: Seq<char>) -> Option<MessageView> {
    if !contains(raw, "PRIVMSG"@) {
        None
    } else {
        match body_start(raw) {
            None => None,
            Some(b) => {
                let ws = words(raw.subrange(b, raw.len() as int));
                match find_within(raw, " :"@, b, raw.len() as int) {
                    None => None,
                    Some(c) => {
                        let sender = sender_of(ws[0]);
                        if ws.len() < 4 || sender.len() == 0 {
                            None
                        } else {
                            let broadcaster = lower_of(sender) == lower_of(channel);
                            Some(
                                MessageView {
                                    username: sender,
                                    message: raw.subrange(c + 2, raw.len() as int),
                                    channel: strip_first(ws[2], '#'),
                                    is_moderator: badge_flag(raw, "moderator/"@) || broadcaster,
                                    is_broadcaster: broadcaster,
                                    is_vip: badge_flag(raw, "vip/"@),
                                    custom_reward_id: tag_value(raw, "custom-reward-id"@, true),
                                },
                            )
                        }
                    },
                }
            },
        }
    }
}

/// The characters that an optional window of `s` covers.
pub open spec fn window(s: Seq<char>, w: Option<(usize, usize)>) -> Option<Seq<char>> {
    match w {
        Some((a, b)) => Some(s.subrange(a as int, b as int)),
        None => None,
    }
}

/// Reads the tag list in `lo .. hi` of `v`: the window of the last `badges`
/// value, and of the last non-empty `custom-reward-id` value.
fn scan_tags(v: &Vec<char>, lo: usize, hi: usize) -> (r: (Option<(usize, usize)>, Option<(usize, usize)>))
    requires
        lo <= hi <= v@.len(),
    ensures
        window(v@, r.0) == last_tag_value(v@, "badges"@, false, lo as int, hi as int, None),
        window(v@, r.1) == last_tag_value(v@, "custom-reward-id"@, true, lo as int, hi as int, None),
        r.0 matches Some(w) ==> w.0 <= w.1 <= hi,
        r.1 matches Some(w) ==> w.0 <= w.1 <= hi,
{
    let semi = chars_of(";");
    let eq = chars_of("=");
    let badges_key = chars_of("badges");
    let reward_key = chars_of("custom-reward-id");
    let mut badges: Option<(usize, usize)> = None;
    let mut reward: Option<(usize, usize)> = None;
    let mut p: usize = lo;
    let mut finished = false;
    while !finished
        invariant
            lo <= p <= hi <= v@.len(),
            semi@ == ";"@,
            eq@ == "="@,
            badges_key@ == "badges"@,
            reward_key@ == "custom-reward-id"@,
            badges matches Some(w) ==> w.0 <= w.1 <= hi,
            reward matches Some(w) ==> w.0 <= w.1 <= hi,
            finished ==> window(v@, badges) == last_tag_value(
                v@,
                "badges"@,
                false,
                lo as int,
                hi as int,
                None,
            ) && window(v@, reward) == last_tag_value(
                v@,
                "custom-reward-id"@,
                true,
                lo as int,
                hi as int,
                None,
            ),
            !finished ==> last_tag_value(v@, "badges"@, false, lo as int, hi as int, None)
                == last_tag_value(v@, "badges"@, false, p as int, hi as int, window(v@, badges))
                && last_tag_value(v@, "custom-reward-id"@, true, lo as int, hi as int, None)
                == last_tag_value(
                v@,
                "custom-reward-id"@,
                true,
                p as int,
                hi as int,
                window(v@, reward),
            ),
        decreases (if finished { 0 } else { hi - p + 1 }),
    {
        proof {
            reveal_strlit(";");
            reveal_strlit("=");
            reveal_strlit("badges");
            reveal_strlit("custom-reward-id");
        }
        let end = match find_in(v, &semi, p, hi) {
            Some(j) => j,
            None => hi,
        };
        assert(end == segment_end(v@, p as int, hi as int));
        let ghost old_b = window(v@, badges);
        let ghost old_r = window(v@, reward);
        match find_in(v, &eq, p, end) {
            Some(k) => {
                assert(k + 1 <= end);
                let key_len = k - p;
                if key_len == badges_key.len() && matches_at(v, p, &badges_key) {
                    badges = Some((k + 1, end));
                } else if key_len == reward_key.len() && matches_at(v, p, &reward_key) && k + 1
                    < end {
                    reward = Some((k + 1, end));
                }
                proof {
                    assert(v@.subrange(p as int, k as int).len() == key_len);
                    if v@.subrange(p as int, k as int) == "badges"@ {
                        assert(occurs_at(v@, "badges"@, p as int));
                    }
                    if v@.subrange(p as int, k as int) == "custom-reward-id"@ {
                        assert(occurs_at(v@, "custom-reward-id"@, p as int));
                    }
                    assert(window(v@, badges) == tag_step(v@, "badges"@, false, p as int, end as int, old_b));
                    assert(window(v@, reward) == tag_step(
                        v@,
                        "custom-reward-id"@,
                        true,
                        p as int,
                        end as int,
                        old_r,
                    ));
                }
            },
            None => {},
        }
        if end < hi {
            p = end + 1;
        } else {
            finished = true;
        }
    }
    (badges, reward)
}

/// The window `c1 .. d` that is `c .. d` without one leading `ch`.
fn strip_window(v: &Vec<char>, c: usize, d: usize, ch: char) -> (c1: usize)
    requires
        c <= d <= v@.len(),
    ensures
        c <= c1 <= d,
        strip_first(v@.subrange(c as int, d as int), ch) == v@.subrange(c1 as int, d as int),
{
    let c1 = if c < d && v[c] == ch {
        c + 1
    } else {
        c
    };
    assert(strip_first(v@.subrange(c as int, d as int), ch) =~= v@.subrange(c1 as int, d as int));
    c1
}

/// The window of the sender name within the source token `a .. b`.
fn sender_window(v: &Vec<char>, a: usize, b: usize) -> (r: (usize, usize))
    requires
        a <= b <= v@.len(),
    ensures
        a <= r.0 <= r.1 <= b,
        sender_of(v@.subrange(a as int, b as int)) == v@.subrange(r.0 as int, r.1 as int),
{
    let a1 = strip_window(v, a, b, ':');
    proof {
        reveal_strlit("!");
    }
    let sender_end = match find_in(v, &chars_of("!"), a1, b) {
        Some(k) => k,
        None => b,
    };
    proof {
        lemma_find_subrange(v@, "!"@, a1 as int, b as int, 0);
        assert(sender_of(v@.subrange(a as int, b as int)) =~= v@.subrange(
            a1 as int,
            sender_end as int,
        ));
    }
    (a1, sender_end)
}

/// A line without the chat-message marker never yields an event.
pub proof fn lemma_no_marker_no_event(raw: Seq<char>, channel: Seq<char>)
    requires
        !contains(raw, "PRIVMSG"@),
    ensures
        parse_spec(raw, channel) is None,
{
}

/// An event read from a line whose badges tag holds `moderator/` is from a
/// moderator, and one whose badges tag holds `vip/` is from a VIP.
pub proof fn lemma_badges_set_roles(raw: Seq<char>, channel: Seq<char>)
    requires
        parse_spec(raw, channel) is Some,
    ensures
        tag_value(raw, "badges"@, false) matches Some(b) && contains(b, "moderator/"@) ==> parse_spec(
            raw,
            channel,
        )->0.is_moderator,
        tag_value(raw, "badges"@, false) matches Some(b) && contains(b, "vip/"@) ==> parse_spec(
            raw,
            channel,
        )->0.is_vip,
{
}

/// A sender whose name equals the configured channel up to case is the
/// broadcaster and a moderator, whatever the tags say.
pub proof fn lemma_channel_owner_is_broadcaster(raw: Seq<char>, channel: Seq<char>)
    requires
        parse_spec(raw, channel) is Some,
        lower_of(parse_spec(raw, channel)->0.username) == lower_of(channel),
    ensures
        parse_spec(raw, channel)->0.is_broadcaster,
        parse_spec(raw, channel)->0.is_moderator,
{
}

impl TwitchMessage {
    /// Reads a chat event from one protocol line; `None` for any line that is
    /// not a well-formed chat message.
    #[verifier::rlimit(40)]
    pub fn parse(raw_message: &str, channel: &str) -> (r: Option<TwitchMessage>)
        ensures
            match r {
                Some(m) => parse_spec(raw_message@, channel@) == Some(m@),
                None => parse_spec(raw_message@, channel@) is None,
            },
    {
        let v = chars_of(raw_message);
        let n = v.len();
        let ghost raw = raw_message@;
        assert(v@.subrange(0, n as int) =~= raw);
        if !contains_in(&v, &chars_of("PRIVMSG"), 0, n) {
            return None;
        }
        let mut badges: Option<(usize, usize)> = None;
        let mut reward: Option<(usize, usize)> = None;
        let start: usize;
        proof {
            reveal_strlit(" ");
            reveal_strlit(" :");
            reveal_strlit("!");
        }
        if n > 0 && v[0] == '@' {
            match find_in(&v, &chars_of(" "), 0, n) {
                None => {
                    return None;
                },
                Some(sp) => {
                    assert(v@.subrange(sp as int, sp + 1)[0] == ' ');
                    assert(sp >= 1);
                    let tags = scan_tags(&v, 1, sp);
                    badges = tags.0;
                    reward = tags.1;
                    start = sp + 1;
                },
            }
        } else {
            start = 0;
        }
        assert(body_start(raw) == Some(start as int));
        let bounds = word_bounds(&v, start, n);
        let colon = match find_in(&v, &chars_of(" :"), start, n) {
            None => {
                return None;
            },
            Some(c) => c,
        };
        if bounds.len() < 4 {
            return None;
        }
        let (a, b) = bounds[0];
        let (a1, sender_end) = sender_window(&v, a, b);
        if a1 == sender_end {
            return None;
        }
        let (c, d) = bounds[2];
        let c1 = strip_window(&v, c, d, '#');
        let username = substring(raw_message, a1, sender_end);
        let broadcaster = lowercase(username.as_str()) == lowercase(channel);
        let (is_moderator_tag, is_vip) = match badges {
            Some((x, y)) => (
                contains_in(&v, &chars_of("moderator/"), x, y),
                contains_in(&v, &chars_of("vip/"), x, y),
            ),
            None => (false, false),
        };
        let custom_reward_id = match reward {
            Some((x, y)) => Some(substring(raw_message, x, y)),
            None => None,
        };
        let m = TwitchMessage {
            username,
            message: substring(raw_message, colon + 2, n),
            channel: substring(raw_message, c1, d),
            is_moderator: is_moderator_tag || broadcaster,
            is_broadcaster: broadcaster,
            is_vip,
            custom_reward_id,
        };
        assert(m@ == parse_spec(raw, channel@)->0);
        Some(m)
    }

    /// Whether the sender may use privileged commands.
    pub fn has_permissions(&self) -> (r: bool)
        ensures
            r == (self.is_moderator || self.is_vip || self.is_broadcaster),
    {
        self.is_moderator || self.is_vip || self.is_broadcaster
    }
}

} // verus!
