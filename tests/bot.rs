use twitch_bot::commands::{ApiCall, Command, CommandRegistry, SimpleCommand, Step};
use twitch_bot::config::{CommandsConfig, Config, SpotifyConfig, TwitchConfig};
use twitch_bot::message::TwitchMessage;
use twitch_bot::session::{Action, SessionState, TwitchBot};
use twitch_bot::spotify::{
    describe_playback, describe_track, now_playing_reply, previous_reply, queued_reply, skip_reply,
    track_uri, ApiOutcome, Playback, SpotifyService, Track,
};
use twitch_bot::text::replace_text;

const FALLBACK: &str = "😭😂✌️";
const REWARD_FALLBACK: &str =
    "\u{11f}\u{178}\u{2dc}\u{ad}\u{11f}\u{178}\u{2dc}\u{201a}\u{e2}\u{153}\u{152}\u{ef}\u{b8}";

fn config(simple: Vec<(&str, &str)>) -> Config {
    Config {
        twitch: TwitchConfig {
            username: "botname".to_string(),
            channel: "bar".to_string(),
            oauth_token: "oauth:abc".to_string(),
        },
        spotify: SpotifyConfig {
            client_id: "id".to_string(),
            client_secret: "secret".to_string(),
            refresh_token: "refresh".to_string(),
            reward_id: "reward-1".to_string(),
        },
        commands: CommandsConfig {
            simple: simple
                .into_iter()
                .map(|(a, b)| (a.to_string(), b.to_string()))
                .collect(),
        },
    }
}

fn running_bot(simple: Vec<(&str, &str)>) -> TwitchBot {
    let mut bot = TwitchBot::new(config(simple));
    let _ = bot.connect();
    bot
}

fn viewer(text: &str) -> TwitchMessage {
    TwitchMessage {
        username: "viewer".to_string(),
        message: text.to_string(),
        channel: "bar".to_string(),
        is_moderator: false,
        is_broadcaster: false,
        is_vip: false,
        custom_reward_id: None,
    }
}

fn track(name: &str, artists: &[&str]) -> Track {
    Track {
        name: name.to_string(),
        artists: artists.iter().map(|a| a.to_string()).collect(),
    }
}

#[test]
fn parse_round_trip_moderator_line() {
    let raw = "@badges=moderator/1;display-name=Foo :foo!foo@foo.tmi.twitch.tv PRIVMSG #bar :!skip";
    let m = TwitchMessage::parse(raw, "bar").expect("chat line");
    assert_eq!(m.username, "foo");
    assert_eq!(m.channel, "bar");
    assert!(m.is_moderator);
    assert!(!m.is_vip);
    assert!(!m.is_broadcaster);
    assert_eq!(m.message, "!skip");
    assert_eq!(m.custom_reward_id, None);
}

#[test]
fn parse_rejects_lines_without_marker() {
    assert!(TwitchMessage::parse("PING :tmi.twitch.tv", "bar").is_none());
    assert!(TwitchMessage::parse(":foo!foo@foo JOIN #bar", "bar").is_none());
    assert!(TwitchMessage::parse("", "bar").is_none());
}

#[test]
fn parse_rejects_short_or_unterminated_frames() {
    assert!(TwitchMessage::parse(":foo PRIVMSG #bar", "bar").is_none());
    assert!(TwitchMessage::parse(":foo!x PRIVMSG #bar hello there", "bar").is_none());
    assert!(TwitchMessage::parse("@badges=vip/1 PRIVMSG", "bar").is_none());
    assert!(TwitchMessage::parse("@badges=vip/1;PRIVMSG", "bar").is_none());
}

#[test]
fn parse_without_tags() {
    let m = TwitchMessage::parse(":alice!alice@host PRIVMSG #bar :hello world", "bar").unwrap();
    assert_eq!(m.username, "alice");
    assert_eq!(m.message, "hello world");
    assert!(!m.is_moderator && !m.is_vip && !m.is_broadcaster);
    assert_eq!(m.custom_reward_id, None);
}

#[test]
fn parse_vip_badge_and_substring_semantics() {
    let m = TwitchMessage::parse("@badges=vip/1,sub/3 :a!a@h PRIVMSG #bar :hi", "bar").unwrap();
    assert!(m.is_vip);
    assert!(!m.is_moderator);
    let p = TwitchMessage::parse("@badges=promoderator/1 :a!a@h PRIVMSG #bar :hi", "bar").unwrap();
    assert!(p.is_moderator);
}

#[test]
fn parse_broadcaster_is_case_insensitive_and_forces_moderator() {
    let m = TwitchMessage::parse("@badges= :Bar!bar@h PRIVMSG #bar :hi", "BAR").unwrap();
    assert!(m.is_broadcaster);
    assert!(m.is_moderator);
    assert_eq!(m.username, "Bar");
}

#[test]
fn parse_reward_id_only_when_non_empty() {
    let m = TwitchMessage::parse("@custom-reward-id=abc :a!a@h PRIVMSG #bar :x", "bar").unwrap();
    assert_eq!(m.custom_reward_id, Some("abc".to_string()));
    let e = TwitchMessage::parse("@custom-reward-id= :a!a@h PRIVMSG #bar :x", "bar").unwrap();
    assert_eq!(e.custom_reward_id, None);
}

#[test]
fn parse_keeps_empty_text() {
    let m = TwitchMessage::parse(":a!a@h PRIVMSG #bar :", "bar").unwrap();
    assert_eq!(m.message, "");
}

#[test]
fn permissions_follow_roles() {
    let mut m = viewer("hi");
    assert!(!m.has_permissions());
    m.is_vip = true;
    assert!(m.has_permissions());
    m.is_vip = false;
    m.is_moderator = true;
    assert!(m.has_permissions());
    m.is_moderator = false;
    m.is_broadcaster = true;
    assert!(m.has_permissions());
}

#[test]
fn registry_lookup_is_exact() {
    let cfg = config(vec![("discord", "join us")]);
    let registry = CommandRegistry::new(&cfg);
    let np = registry.resolve("np");
    assert!(np.is_some());
    assert_eq!(np, registry.resolve("spotify"));
    assert_eq!(registry.resolve("NP"), None);
    assert_eq!(registry.resolve("sk"), None);
    assert_eq!(registry.resolve("next"), registry.resolve("skip"));
    assert_eq!(registry.resolve("back"), registry.resolve("prev"));
    assert!(registry.resolve("discord").is_some());
}

#[test]
fn registry_later_registration_wins() {
    let cfg = config(vec![("np", "custom"), ("hi", "one"), ("hi", "two")]);
    let registry = CommandRegistry::new(&cfg);
    match registry.execute("np", &viewer("!np")) {
        Step::Reply(Some(t)) => assert_eq!(t, "custom"),
        _ => panic!("expected the fixed response"),
    }
    match registry.execute("hi", &viewer("!hi")) {
        Step::Reply(Some(t)) => assert_eq!(t, "two"),
        _ => panic!("expected the fixed response"),
    }
    assert_ne!(registry.resolve("np"), registry.resolve("spotify"));
}

#[test]
fn registry_unknown_key_gives_no_reply() {
    let registry = CommandRegistry::new(&config(vec![]));
    assert!(matches!(registry.execute("nope", &viewer("!nope")), Step::Reply(None)));
}

#[test]
fn simple_command_answers_its_text() {
    let c = Command::Simple(SimpleCommand::new("hello".to_string(), "hi there".to_string()));
    assert_eq!(c.name(), "hello");
    assert!(c.aliases().is_empty());
    match c.execute(&viewer("!hello")) {
        Step::Reply(Some(t)) => assert_eq!(t, "hi there"),
        _ => panic!("expected the fixed response"),
    }
}

#[test]
fn unprivileged_skip_is_denied_without_call() {
    let registry = CommandRegistry::new(&config(vec![]));
    for key in ["skip", "next", "prev", "previous", "back", "play"] {
        match registry.execute(key, &viewer("!skip")) {
            Step::Reply(Some(t)) => assert_eq!(t, FALLBACK),
            _ => panic!("expected the denial reply"),
        }
    }
}

#[test]
fn privileged_commands_call_the_service() {
    let registry = CommandRegistry::new(&config(vec![]));
    let mut m = viewer("!play https://open.spotify.com/track/abc123?si=x");
    m.is_moderator = true;
    match registry.execute("play", &m) {
        Step::Call(ApiCall::Enqueue(u)) => assert_eq!(u, "spotify:track:abc123"),
        _ => panic!("expected an enqueue call"),
    }
    assert!(matches!(registry.execute("skip", &m), Step::Call(ApiCall::Skip)));
    assert!(matches!(registry.execute("back", &m), Step::Call(ApiCall::Previous)));
    assert!(matches!(registry.execute("song", &viewer("!song")), Step::Call(ApiCall::CurrentlyPlaying)));
    let mut bare = viewer("!play");
    bare.is_vip = true;
    match registry.execute("play", &bare) {
        Step::Reply(Some(t)) => assert_eq!(t, FALLBACK),
        _ => panic!("expected the fallback reply"),
    }
    let mut nolink = viewer("!play something");
    nolink.is_vip = true;
    assert!(matches!(registry.execute("play", &nolink), Step::Reply(None)));
}

#[test]
fn track_uri_from_links() {
    assert_eq!(
        track_uri("https://open.spotify.com/track/4uLU6hMCjMI75M1A2tKUQC?si=abc"),
        Some("spotify:track:4uLU6hMCjMI75M1A2tKUQC".to_string())
    );
    assert_eq!(track_uri("x/track/a/track/b"), Some("spotify:track:a".to_string()));
    assert_eq!(track_uri("no link here"), None);
}

#[test]
fn track_and_playback_text() {
    let t = track("Song NAME", &["Alpha", "BETA"]);
    assert_eq!(describe_track(&t), "song name by alpha, beta");
    assert_eq!(describe_track(&track("X", &[])), "x by ");
    assert_eq!(describe_playback(&None), FALLBACK);
    let paused = Playback { is_playing: false, item: Some(track("A", &["B"])) };
    assert_eq!(describe_playback(&Some(paused)), FALLBACK);
    let empty = Playback { is_playing: true, item: None };
    assert_eq!(describe_playback(&Some(empty)), "unable to get track information");
}

#[test]
fn service_replies() {
    assert_eq!(now_playing_reply(&ApiOutcome::Failed), "error connecting to spotify");
    let playing = || ApiOutcome::Answered(Some(Playback { is_playing: true, item: Some(track("A", &["B"])) }));
    assert_eq!(now_playing_reply(&playing()), "a by b");
    assert_eq!(skip_reply(true, &playing()), "skipped to a by b");
    assert_eq!(skip_reply(true, &ApiOutcome::Failed), "skipped to next track");
    assert_eq!(skip_reply(false, &playing()), FALLBACK);
    assert_eq!(previous_reply(true, &playing()), "went back to a by b");
    assert_eq!(previous_reply(true, &ApiOutcome::Failed), "went back to previous track");
    assert_eq!(previous_reply(false, &ApiOutcome::Failed), FALLBACK);
    assert_eq!(queued_reply(&Some(track("Q", &["R", "S"]))), "q by r, s has been added to the queue :3");
    assert_eq!(queued_reply(&None), FALLBACK);
}

#[test]
fn token_request_parts() {
    let service = SpotifyService::new(config(vec![]).spotify);
    assert_eq!(service.basic_authorization(), Some("Basic aWQ6c2VjcmV0".to_string()));
    assert_eq!(service.token_request_body(), "grant_type=refresh_token&refresh_token=refresh");
}

#[test]
fn replace_text_replaces_every_occurrence() {
    assert_eq!(replace_text("PING PING", "PING", "PONG"), "PONG PONG");
    assert_eq!(replace_text("abc", "", "x"), "abc");
    assert_eq!(replace_text("aaa", "aa", "b"), "ba");
}

#[test]
fn connect_sends_login_and_join() {
    let mut bot = TwitchBot::new(config(vec![]));
    assert_eq!(bot.state(), SessionState::Disconnected);
    let frames = bot.connect();
    assert_eq!(
        frames,
        vec![
            "PASS oauth:abc".to_string(),
            "NICK botname".to_string(),
            "CAP REQ :twitch.tv/membership twitch.tv/tags twitch.tv/commands".to_string(),
            "JOIN #bar".to_string(),
        ]
    );
    assert_eq!(bot.state(), SessionState::Running);
    bot.close();
    assert_eq!(bot.state(), SessionState::Closed);
}

#[test]
fn keepalive_answers_pong() {
    let mut bot = running_bot(vec![]);
    match bot.handle_message("PING :tmi.twitch.tv") {
        Action::Send(f) => assert_eq!(f, "PONG :tmi.twitch.tv"),
        _ => panic!("expected a pong"),
    }
    assert_eq!(bot.state(), SessionState::Running);
}

#[test]
fn login_failure_closes_session() {
    let mut bot = running_bot(vec![]);
    let a = bot.handle_message(":tmi.twitch.tv NOTICE * :Login authentication failed");
    assert!(matches!(a, Action::AuthFailed));
    assert_eq!(bot.state(), SessionState::Closed);
}

#[test]
fn unauthorized_skip_line_gets_denial() {
    let mut bot = running_bot(vec![]);
    match bot.handle_message(":viewer!viewer@h PRIVMSG #bar :!skip") {
        Action::Send(f) => assert_eq!(f, format!("PRIVMSG #bar :{}", FALLBACK)),
        _ => panic!("expected the denial reply"),
    }
}

#[test]
fn moderator_skip_line_calls_service() {
    let mut bot = running_bot(vec![]);
    let raw = "@badges=moderator/1;display-name=Foo :foo!foo@foo.tmi.twitch.tv PRIVMSG #bar :!skip";
    assert!(matches!(bot.handle_message(raw), Action::Call(ApiCall::Skip)));
}

#[test]
fn simple_command_line_replies() {
    let mut bot = running_bot(vec![("discord", "join us")]);
    match bot.handle_message(":a!a@h PRIVMSG #bar :!discord now") {
        Action::Send(f) => assert_eq!(f, "PRIVMSG #bar :join us"),
        _ => panic!("expected a reply"),
    }
    assert!(matches!(bot.handle_message(":a!a@h PRIVMSG #bar :!unknown"), Action::Nothing));
    assert!(matches!(bot.handle_message(":a!a@h PRIVMSG #bar :plain chat"), Action::Nothing));
    assert!(matches!(bot.handle_message(":a!a@h JOIN #bar"), Action::Nothing));
}

#[test]
fn reward_without_link_gets_fallback() {
    let mut bot = running_bot(vec![]);
    let raw = "@custom-reward-id=reward-1 :a!a@h PRIVMSG #bar :!skip please";
    match bot.handle_message(raw) {
        Action::Send(f) => assert_eq!(f, format!("PRIVMSG #bar :{}", REWARD_FALLBACK)),
        _ => panic!("expected the fallback reply"),
    }
}

#[test]
fn reward_with_link_queues_track() {
    let mut bot = running_bot(vec![]);
    let raw = "@custom-reward-id=reward-1 :a!a@h PRIVMSG #bar :https://open.spotify.com/track/xyz?si=1";
    match bot.handle_message(raw) {
        Action::Call(ApiCall::Enqueue(u)) => assert_eq!(u, "spotify:track:xyz"),
        _ => panic!("expected an enqueue call"),
    }
    let other = "@custom-reward-id=other :a!a@h PRIVMSG #bar :no link";
    assert!(matches!(bot.handle_message(other), Action::Nothing));
}

#[test]
fn send_message_frames_text() {
    let bot = TwitchBot::new(config(vec![]));
    assert_eq!(bot.send_message("hello"), "PRIVMSG #bar :hello");
}

#[test]
fn reward_fallback_is_its_own_literal() {
    let mut bot = running_bot(vec![]);
    let raw = "@custom-reward-id=reward-1 :a!a@h PRIVMSG #bar :hello";
    match bot.handle_message(raw) {
        Action::Send(f) => {
            assert_eq!(f, "PRIVMSG #bar :\u{11f}\u{178}\u{2dc}\u{ad}\u{11f}\u{178}\u{2dc}\u{201a}\u{e2}\u{153}\u{152}\u{ef}\u{b8}");
            assert_ne!(f, format!("PRIVMSG #bar :{}", FALLBACK));
        }
        _ => panic!("expected the reward fallback reply"),
    }
}

#[test]
fn base64_padding_cases() {
    let one = SpotifyService::new(SpotifyConfig {
        client_id: "M".to_string(),
        client_secret: String::new(),
        refresh_token: String::new(),
        reward_id: String::new(),
    });
    assert_eq!(one.basic_authorization(), Some("Basic TTo=".to_string()));
    let two = SpotifyService::new(SpotifyConfig {
        client_id: String::new(),
        client_secret: "a".to_string(),
        refresh_token: String::new(),
        reward_id: String::new(),
    });
    assert_eq!(two.basic_authorization(), Some("Basic OmE=".to_string()));
}
