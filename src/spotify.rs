//! The music service side: what is sent to it, and the chat replies made
//! from what it answers.
use crate::commands::ApiCall;
use crate::config::SpotifyConfig;
use crate::message::{lower_of, lowercase};
use crate::text::{chars_of, find, find_in, lemma_find_subrange, substring};
use vstd::prelude::*;
use vstd::string::StringExecFns;

verus! {

/// The reply sent when a request is refused or the service fails.
pub open spec fn fallback_text() -> Seq<char> {
    "😭😂✌️"@
}

/// The fallback reply.
pub fn fallback() -> (r: String)
    ensures
        r@ == fallback_text(),
{
    String::from_str("😭😂✌️")
}

/// The base64 digit for a 6-bit value, in the standard alphabet.
pub open spec fn base64_digit(v: int) -> char {
    "ABCDEFGHIJKLMNOPQRSTUVWXYZabcdefghijklmnopqrstuvwxyz0123456789+/"@[v]
}

/// Padded base64 with the standard alphabet: each group of three bytes
/// becomes four digits; a last group of one or two bytes becomes two or
/// three digits and `=` up to four.
pub open spec fn base64_standard(b: Seq<u8>) -> Seq<char>
    decreases b.len(),
{
    if b.len() == 0 {
        Seq::empty()
    } else {
        let x = b[0] as int;
        let y = if b.len() >= 2 { b[1] as int } else { 0 };
        let z = if b.len() >= 3 { b[2] as int } else { 0 };
        let first = base64_digit(x / 4);
        let second = base64_digit((x % 4) * 16 + y / 16);
        if b.len() == 1 {
            seq![first, second, '=', '=']
        } else if b.len() == 2 {
            seq![first, second, base64_digit((y % 16) * 4), '=']
        } else {
            seq![first, second, base64_digit((y % 16) * 4 + z / 64), base64_digit(z % 64)]
                + base64_standard(b.subrange(3, b.len() as int))
        }
    }
}

/// Relies on base64's `Engine::encode` with `general_purpose::STANDARD`:
/// padded encoding with the standard alphabet. The bound keeps
/// `encoded_len` from overflowing, where the crate panics.
#[verifier::external_body]
fn encode_base64(b: &[u8]) -> (r: String)
    requires
        b@.len() <= usize::MAX / 4,
    ensures
        r@ == base64_standard(b@),
{
    base64::Engine::encode(&base64::engine::general_purpose::STANDARD, b)
}

/// A track as the service describes it.
pub struct Track {
    pub name: String,
    pub artists: Vec<String>,
}

/// The player state that the service reports.
pub struct Playback {
    pub is_playing: bool,
    pub item: Option<Track>,
}

/// The outcome of asking for the player state.
pub enum ApiOutcome {
    /// The request failed.
    Failed,
    /// The service answered: `None` when it had no content.
    Answered(Option<Playback>),
}

/// `parts` joined with `sep` between each two.
pub open spec fn join(parts: Seq<Seq<char>>, sep: Seq<char>) -> Seq<char>
    decreases parts.len(),
{
    if parts.len() == 0 {
        Seq::empty()
    } else if parts.len() == 1 {
        parts[0]
    } else {
        join(parts.drop_last(), sep) + sep + parts.last()
    }
}

/// The characters of each string.
pub open spec fn names_of(v: Seq<String>) -> Seq<Seq<char>> {
    v.map_values(|a: String| a@)
}

/// `track by artists`, both lower-cased.
pub open spec fn track_text(name: Seq<char>, artists: Seq<Seq<char>>) -> Seq<char> {
    lower_of(name) + " by "@ + lower_of(join(artists, ", "@))
}

/// What a player state reads as in chat; `None` stands for no content.
pub open spec fn playback_text(p: Option<Playback>) -> Seq<char> {
    match p {
        None => fallback_text(),
        Some(pb) => if !pb.is_playing {
            fallback_text()
        } else {
            match pb.item {
                Some(t) => track_text(t.name@, names_of(t.artists@)),
                None => "unable to get track information"@,
            }
        },
    }
}

/// The artist names joined with `, `.
fn join_names(artists: &Vec<String>) -> (r: String)
    ensures
        r@ == join(names_of(artists@), ", "@),
{
    let mut r = String::new();
    let mut i: usize = 0;
    while i < artists.len()
        invariant
            i <= artists@.len(),
            r@ == join(names_of(artists@.subrange(0, i as int)), ", "@),
        decreases artists.len() - i,
    {
        let ghost before = names_of(artists@.subrange(0, i as int));
        let ghost after = names_of(artists@.subrange(0, i + 1));
        assert(after.drop_last() =~= before);
        if i > 0 {
            r.append(", ");
        }
        r.append(artists[i].as_str());
        proof {
            if i == 0 {
                assert(before =~= Seq::<Seq<char>>::empty());
                assert(r@ =~= after[0]);
            }
        }
        i = i + 1;
    }
    assert(artists@.subrange(0, i as int) =~= artists@);
    r
}

/// `track by artists`, lower-cased.
pub fn describe_track(track: &Track) -> (r: String)
    ensures
        r@ == track_text(track.name@, names_of(track.artists@)),
{
    let mut r = lowercase(track.name.as_str());
    r.append(" by ");
    let joined = join_names(&track.artists);
    let low = lowercase(joined.as_str());
    r.append(low.as_str());
    r
}

/// The chat text for a player state (`None`: the service had no content).
pub fn describe_playback(p: &Option<Playback>) -> (r: String)
    ensures
        r@ == playback_text(*p),
{
    match p {
        None => fallback(),
        Some(pb) => if !pb.is_playing {
            fallback()
        } else {
            match &pb.item {
                Some(t) => describe_track(t),
                None => String::from_str("unable to get track information"),
            }
        },
    }
}

/// The reply to a now-playing request.
pub fn now_playing_reply(outcome: &ApiOutcome) -> (r: String)
    ensures
        r@ == match outcome {
            ApiOutcome::Failed => "error connecting to spotify"@,
            ApiOutcome::Answered(p) => playback_text(*p),
        },
{
    match outcome {
        ApiOutcome::Failed => String::from_str("error connecting to spotify"),
        ApiOutcome::Answered(p) => describe_playback(p),
    }
}

/// The reply after a move in the queue: `lead` then the player state, or
/// `missing` when the state could not be read; the fallback if the move failed.
fn moved_reply(moved: bool, after: &ApiOutcome, lead: &str, missing: &str) -> (r: String)
    ensures
        r@ == if !moved {
            fallback_text()
        } else {
            lead@ + match after {
                ApiOutcome::Failed => missing@,
                ApiOutcome::Answered(p) => playback_text(*p),
            }
        },
{
    if !moved {
        return fallback();
    }
    let mut r = String::from_str(lead);
    match after {
        ApiOutcome::Failed => r.append(missing),
        ApiOutcome::Answered(p) => {
            let d = describe_playback(p);
            r.append(d.as_str());
        },
    }
    r
}

/// The reply to a skip: `moved` tells whether the skip request went
/// through, `after` is the player state read afterwards.
pub fn skip_reply(moved: bool, after: &ApiOutcome) -> (r: String)
    ensures
        r@ == if !moved {
            fallback_text()
        } else {
            "skipped to "@ + match after {
                ApiOutcome::Failed => "next track"@,
                ApiOutcome::Answered(p) => playback_text(*p),
            }
        },
{
    moved_reply(moved, after, "skipped to ", "next track")
}

/// The reply to a step back, as `skip_reply` is to a skip.
pub fn previous_reply(moved: bool, after: &ApiOutcome) -> (r: String)
    ensures
        r@ == if !moved {
            fallback_text()
        } else {
            "went back to "@ + match after {
                ApiOutcome::Failed => "previous track"@,
                ApiOutcome::Answered(p) => playback_text(*p),
            }
        },
{
    moved_reply(moved, after, "went back to ", "previous track")
}

/// The reply to queueing a track: the queued track, or the fallback when
/// the service failed.
pub fn queued_reply(queued: &Option<Track>) -> (r: String)
    ensures
        r@ == match queued {
            Some(t) => track_text(t.name@, names_of(t.artists@)) + " has been added to the queue :3"@,
            None => fallback_text(),
        },
{
    match queued {
        Some(t) => {
            let mut r = describe_track(t);
            r.append(" has been added to the queue :3");
            r
        },
        None => fallback(),
    }
}

/// The track id in a track link: what follows the first `/track/`, up to the
/// next `/track/` or `?`.
pub open spec fn track_id(url: Seq<char>) -> Option<Seq<char>> {
    match find(url, "/track/"@) {
        None => None,
        Some(i) => {
            let rest = url.subrange(i + 7, url.len() as int);
            let seg = match find(rest, "/track/"@) {
                Some(j) => rest.subrange(0, j),
                None => rest,
            };
            Some(
                match find(seg, "?"@) {
                    Some(q) => seg.subrange(0, q),
                    None => seg,
                },
            )
        },
    }
}

/// The track URI for a track link, if the link has a track id.
pub open spec fn track_uri_spec(url: Seq<char>) -> Option<Seq<char>> {
    match track_id(url) {
        Some(id) => Some("spotify:track:"@ + id),
        None => None,
    }
}

/// The track URI (`spotify:track:<id>`) that a track link names.
pub fn track_uri(url: &str) -> (r: Option<String>)
    ensures
        match r {
            Some(s) => track_uri_spec(url@) == Some(s@),
            None => track_uri_spec(url@) is None,
        },
{
    let v = chars_of(url);
    let n = v.len();
    let marker = chars_of("/track/");
    proof {
        reveal_strlit("/track/");
        reveal_strlit("?");
        assert(v@.subrange(0, n as int) =~= v@);
    }
    let i = match find_in(&v, &marker, 0, n) {
        None => {
            return None;
        },
        Some(i) => i,
    };
    let start = i + 7;
    let seg_end = match find_in(&v, &marker, start, n) {
        Some(j) => j,
        None => n,
    };
    let id_end = match find_in(&v, &chars_of("?"), start, seg_end) {
        Some(q) => q,
        None => seg_end,
    };
    proof {
        let rest = v@.subrange(start as int, n as int);
        lemma_find_subrange(v@, "/track/"@, start as int, n as int, 0);
        let seg = v@.subrange(start as int, seg_end as int);
        assert(seg =~= match find(rest, "/track/"@) {
            Some(j) => rest.subrange(0, j),
            None => rest,
        });
        lemma_find_subrange(v@, "?"@, start as int, seg_end as int, 0);
        assert(v@.subrange(start as int, id_end as int) =~= match find(seg, "?"@) {
            Some(q) => seg.subrange(0, q),
            None => seg,
        });
    }
    let mut r = String::from_str("spotify:track:");
    let id = substring(url, start, id_end);
    r.append(id.as_str());
    Some(r)
}

/// Access to the music service: its credentials.
#[derive(Clone)]
pub struct SpotifyService {
    pub config: SpotifyConfig,
}

impl SpotifyService {
    /// A service that uses the given credentials.
    pub fn new(config: SpotifyConfig) -> (r: SpotifyService)
        ensures
            r.config == config,
    {
        SpotifyService { config }
    }

    /// The `Authorization` header value of a token request: `Basic` and the
    /// base64 of `client_id:client_secret`; `None` only for credentials too
    /// long to encode.
    pub fn basic_authorization(&self) -> (r: Option<String>)
        ensures
            r matches Some(s) ==> s@ == "Basic "@ + base64_standard(
                vstd::utf8::encode_utf8(
                    self.config.client_id@ + ":"@ + self.config.client_secret@,
                ),
            ),
            r is None ==> vstd::utf8::encode_utf8(
                self.config.client_id@ + ":"@ + self.config.client_secret@,
            ).len() > usize::MAX / 4,
    {
        let mut pair = String::from_str(self.config.client_id.as_str());
        pair.append(":");
        pair.append(self.config.client_secret.as_str());
        let bytes = pair.as_str().as_bytes();
        if bytes.len() > usize::MAX / 4 {
            return None;
        }
        let encoded = encode_base64(bytes);
        let mut r = String::from_str("Basic ");
        r.append(encoded.as_str());
        Some(r)
    }

    /// The request that queues the track a link names; `None` when the link
    /// names no track.
    pub fn add_track_from_url(&self, url: &str) -> (r: Option<ApiCall>)
        ensures
            match r {
                Some(ApiCall::Enqueue(u)) => track_uri_spec(url@) == Some(u@),
                Some(_) => false,
                None => track_uri_spec(url@) is None,
            },
    {
        match track_uri(url) {
            Some(u) => Some(ApiCall::Enqueue(u)),
            None => None,
        }
    }

    /// The form body of a token request.
    pub fn token_request_body(&self) -> (r: String)
        ensures
            r@ == "grant_type=refresh_token&refresh_token="@ + self.config.refresh_token@,
    {
        let mut r = String::from_str("grant_type=refresh_token&refresh_token=");
        r.append(self.config.refresh_token.as_str());
        r
    }
}

} // verus!
