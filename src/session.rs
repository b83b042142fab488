//! The session driver's decisions: the frames it sends on connecting, and
//! what it does with each received line.
use crate::commands::{ApiCall, CommandRegistry, Step, StepView};
use crate::config::Config;
use crate::message::{parse_spec, TwitchMessage};
use crate::spotify::track_uri_spec;
use crate::text::{
    chars_of, contains, contains_in, matches_at, occurs_at, replace_all, replace_text, substring,
    word_bounds, words,
};
use vstd::prelude::*;
use vstd::string::StringExecFns;

verus! {

/// Where the session stands.
#[derive(PartialEq, Eq, Structural, Clone, Copy, Debug)]
pub enum SessionState {
    Disconnected,
    Authenticating,
    Joined,
    Running,
    Closed,
}

/// What the driver does after a received line.
pub enum Action {
    /// Nothing to send.
    Nothing,
    /// Send this raw frame.
    Send(String),
    /// Make this music service request; its answer gives the reply.
    Call(ApiCall),
    /// Login was refused: the session is over, with an authentication error.
    AuthFailed,
}

/// The content of an `Action`.
pub enum ActionView {
    Nothing,
    Send(Seq<char>),
    Call(StepView),
    AuthFailed,
}

impl View for Action {
    type V = ActionView;

    open spec fn view(&self) -> ActionView {
        match self {
            Action::Nothing => ActionView::Nothing,
            Action::Send(s) => ActionView::Send(s@),
            Action::Call(c) => ActionView::Call(Step::Call(*c)@),
            Action::AuthFailed => ActionView::AuthFailed,
        }
    }
}

/// The frame that says `text` in `channel`.
pub open spec fn privmsg(channel: Seq<char>, text: Seq<char>) -> Seq<char> {
    "PRIVMSG #"@ + channel + " :"@ + text
}

/// The command key of a message text: the first word after one leading `!`.
pub open spec fn command_key(text: Seq<char>) -> Seq<char> {
    let ws = words(text.drop_first());
    if ws.len() > 0 {
        ws[0]
    } else {
        Seq::empty()
    }
}

/// The action for a command step.
pub open spec fn step_action(channel: Seq<char>, step: StepView) -> ActionView {
    match step {
        StepView::Reply(Some(t)) => ActionView::Send(privmsg(channel, t)),
        StepView::Reply(None) => ActionView::Nothing,
        _ => ActionView::Call(step),
    }
}

/// The reply to a redeemed reward whose message holds no track link.
pub open spec fn reward_fallback_text() -> Seq<char> {
    "\u{11f}\u{178}\u{2dc}\u{ad}\u{11f}\u{178}\u{2dc}\u{201a}\u{e2}\u{153}\u{152}\u{ef}\u{b8}"@
}

/// The reply to a redeemed reward whose message holds no track link.
pub fn reward_fallback() -> (r: String)
    ensures
        r@ == reward_fallback_text(),
{
    String::from_str("\u{11f}\u{178}\u{2dc}\u{ad}\u{11f}\u{178}\u{2dc}\u{201a}\u{e2}\u{153}\u{152}\u{ef}\u{b8}")
}

/// The action for a redeemed reward: queue the linked track, or answer the
/// reward fallback text when the message holds no track link.
pub open spec fn reward_action(channel: Seq<char>, text: Seq<char>) -> ActionView {
    if contains(text, "open.spotify.com/track/"@) {
        match track_uri_spec(text) {
            Some(u) => ActionView::Call(StepView::Enqueue(u)),
            None => ActionView::Nothing,
        }
    } else {
        ActionView::Send(privmsg(channel, reward_fallback_text()))
    }
}

/// A ping is answered with the matching pong and dispatches nothing.
pub proof fn lemma_ping_answered(bot: TwitchBot, raw: Seq<char>)
    requires
        occurs_at(raw, "PING"@, 0),
        !contains(raw, "Login authentication failed"@),
    ensures
        bot.line_action(raw) == ActionView::Send(replace_all(raw, "PING"@, "PONG"@)),
{
}

/// A refused login ends the session, whatever else the line holds.
pub proof fn lemma_auth_failure_fatal(bot: TwitchBot, raw: Seq<char>)
    requires
        contains(raw, "Login authentication failed"@),
    ensures
        bot.line_action(raw) == ActionView::AuthFailed,
{
}

/// A redeemed reward whose text holds no track link gets the reward
/// fallback reply, queues nothing and runs no command.
pub proof fn lemma_reward_without_link(bot: TwitchBot, raw: Seq<char>)
    requires
        !contains(raw, "Login authentication failed"@),
        !occurs_at(raw, "PING"@, 0),
        parse_spec(raw, bot.channel()) matches Some(m) && m.custom_reward_id == Some(bot.reward_id())
            && !contains(m.message, "open.spotify.com/track/"@),
    ensures
        bot.line_action(raw) == ActionView::Send(privmsg(bot.channel(), reward_fallback_text())),
{
}

/// The bot: its settings, its commands and where its session stands.
pub struct TwitchBot {
    config: Config,
    state: SessionState,
    commands: CommandRegistry,
}

impl TwitchBot {
    /// Where the session stands.
    pub closed spec fn state_spec(&self) -> SessionState {
        self.state
    }

    /// The configured channel.
    pub closed spec fn channel(&self) -> Seq<char> {
        self.config.twitch.channel@
    }

    /// The chat password.
    pub closed spec fn oauth_token(&self) -> Seq<char> {
        self.config.twitch.oauth_token@
    }

    /// The chat nick.
    pub closed spec fn username(&self) -> Seq<char> {
        self.config.twitch.username@
    }

    /// The reward that queues a track.
    pub closed spec fn reward_id(&self) -> Seq<char> {
        self.config.spotify.reward_id@
    }

    /// The registered commands.
    pub closed spec fn registry(&self) -> CommandRegistry {
        self.commands
    }

    /// The command registry is well formed.
    pub closed spec fn wf(&self) -> bool {
        self.commands.wf()
    }

    /// What the bot does with a received line.
    pub open spec fn line_action(&self, raw: Seq<char>) -> ActionView {
        if contains(raw, "Login authentication failed"@) {
            ActionView::AuthFailed
        } else if occurs_at(raw, "PING"@, 0) {
            ActionView::Send(replace_all(raw, "PING"@, "PONG"@))
        } else {
            match parse_spec(raw, self.channel()) {
                None => ActionView::Nothing,
                Some(m) => if m.custom_reward_id == Some(self.reward_id()) {
                    reward_action(self.channel(), m.message)
                } else if m.message.len() > 0 && m.message[0] == '!' {
                    step_action(
                        self.channel(),
                        self.registry().execute_spec(command_key(m.message), m),
                    )
                } else {
                    ActionView::Nothing
                },
            }
        }
    }

    /// A disconnected bot with its commands registered.
    pub fn new(config: Config) -> (r: TwitchBot)
        ensures
            r.wf(),
            r.state_spec() == SessionState::Disconnected,
            r.channel() == config.twitch.channel@,
            r.reward_id() == config.spotify.reward_id@,
            r.oauth_token() == config.twitch.oauth_token@,
            r.username() == config.twitch.username@,
            r.registry().key_lists() == crate::commands::builtin_key_lists()
                + crate::commands::simple_key_lists(config.commands.simple@),
    {
        let commands = CommandRegistry::new(&config);
        TwitchBot { config, state: SessionState::Disconnected, commands }
    }

    /// Where the session stands.
    pub fn state(&self) -> (r: SessionState)
        ensures
            r == self.state_spec(),
    {
        self.state
    }

    /// Once the transport is up: the login frames (password, nick,
    /// capability request) and the join frame, in order; the session then
    /// runs without waiting for the join to be confirmed.
    pub fn connect(&mut self) -> (r: Vec<String>)
        requires
            old(self).state_spec() == SessionState::Disconnected,
        ensures
            final(self).state_spec() == SessionState::Running,
            final(self).wf() == old(self).wf(),
            final(self).channel() == old(self).channel(),
            final(self).reward_id() == old(self).reward_id(),
            final(self).registry() == old(self).registry(),
            r@.len() == 4,
            r@[0]@ == "PASS "@ + old(self).oauth_token(),
            r@[1]@ == "NICK "@ + old(self).username(),
            r@[2]@ == "CAP REQ :twitch.tv/membership twitch.tv/tags twitch.tv/commands"@,
            r@[3]@ == "JOIN #"@ + old(self).channel(),
    {
        self.state = SessionState::Authenticating;
        let mut frames: Vec<String> = Vec::new();
        let mut pass = String::from_str("PASS ");
        pass.append(self.config.twitch.oauth_token.as_str());
        frames.push(pass);
        let mut nick = String::from_str("NICK ");
        nick.append(self.config.twitch.username.as_str());
        frames.push(nick);
        frames.push(String::from_str("CAP REQ :twitch.tv/membership twitch.tv/tags twitch.tv/commands"));
        let mut join = String::from_str("JOIN #");
        join.append(self.config.twitch.channel.as_str());
        frames.push(join);
        self.state = SessionState::Joined;
        self.state = SessionState::Running;
        frames
    }

    /// The transport closed or failed: the session is over.
    pub fn close(&mut self)
        ensures
            final(self).state_spec() == SessionState::Closed,
    {
        self.state = SessionState::Closed;
    }

    /// The frame that says `message` in the bot's channel.
    pub fn send_message(&self, message: &str) -> (r: String)
        ensures
            r@ == privmsg(self.channel(), message@),
    {
        let mut r = String::from_str("PRIVMSG #");
        r.append(self.config.twitch.channel.as_str());
        r.append(" :");
        r.append(message);
        r
    }

    /// The command key of a message text that starts with `!`.
    fn command_name(text: &str) -> (r: String)
        requires
            text@.len() > 0,
        ensures
            r@ == command_key(text@),
    {
        let v = chars_of(text);
        let bounds = word_bounds(&v, 1, v.len());
        assert(v@.subrange(1, v@.len() as int) =~= text@.drop_first());
        if bounds.len() > 0 {
            let (a, b) = bounds[0];
            substring(text, a, b)
        } else {
            String::new()
        }
    }

    /// The action for a command step.
    fn step_to_action(&self, step: Step) -> (r: Action)
        ensures
            r@ == step_action(self.channel(), step@),
    {
        match step {
            Step::Reply(Some(t)) => Action::Send(self.send_message(t.as_str())),
            Step::Reply(None) => Action::Nothing,
            Step::Call(c) => Action::Call(c),
        }
    }

    /// The action for a redeemed reward.
    fn reward(&self, text: &str) -> (r: Action)
        ensures
            r@ == reward_action(self.channel(), text@),
    {
        let v = chars_of(text);
        assert(v@.subrange(0, v@.len() as int) =~= text@);
        if contains_in(&v, &chars_of("open.spotify.com/track/"), 0, v.len()) {
            match self.commands.handle_spotify_reward(text) {
                Some(call) => Action::Call(call),
                None => Action::Nothing,
            }
        } else {
            let f = reward_fallback();
            Action::Send(self.send_message(f.as_str()))
        }
    }

    /// Decides what to do with one received line: end the session on a
    /// refused login, answer a ping, route a redeemed reward, or run a
    /// command.
    pub fn handle_message(&mut self, raw_message: &str) -> (r: Action)
        requires
            old(self).wf(),
            old(self).state_spec() == SessionState::Running,
        ensures
            r@ == old(self).line_action(raw_message@),
            final(self).wf(),
            final(self).channel() == old(self).channel(),
            final(self).reward_id() == old(self).reward_id(),
            final(self).registry() == old(self).registry(),
            final(self).state_spec() == if r is AuthFailed {
                SessionState::Closed
            } else {
                SessionState::Running
            },
    {
        let v = chars_of(raw_message);
        let n = v.len();
        assert(v@.subrange(0, n as int) =~= raw_message@);
        if contains_in(&v, &chars_of("Login authentication failed"), 0, n) {
            self.state = SessionState::Closed;
            return Action::AuthFailed;
        }
        if matches_at(&v, 0, &chars_of("PING")) {
            return Action::Send(replace_text(raw_message, "PING", "PONG"));
        }
        let parsed = TwitchMessage::parse(raw_message, self.config.twitch.channel.as_str());
        match parsed {
            None => Action::Nothing,
            Some(m) => {
                let rewarded = match &m.custom_reward_id {
                    Some(id) => *id == self.config.spotify.reward_id,
                    None => false,
                };
                if rewarded {
                    self.reward(m.message.as_str())
                } else {
                    let text = m.message.as_str();
                    let tv = chars_of(text);
                    if tv.len() > 0 && tv[0] == '!' {
                        let key = Self::command_name(text);
                        let step = self.commands.execute(key.as_str(), &m);
                        self.step_to_action(step)
                    } else {
                        Action::Nothing
                    }
                }
            },
        }
    }
}

} // verus!
