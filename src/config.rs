//! Settings of the bot, fixed once loaded.
use vstd::prelude::*;

verus! {

/// All settings.
pub struct Config {
    pub twitch: TwitchConfig,
    pub spotify: SpotifyConfig,
    pub commands: CommandsConfig,
}

/// Chat identity and the channel to join.
pub struct TwitchConfig {
    pub username: String,
    pub channel: String,
    pub oauth_token: String,
}

/// Music service credentials and the reward that queues a track.
#[derive(Clone)]
pub struct SpotifyConfig {
    pub client_id: String,
    pub client_secret: String,
    pub refresh_token: String,
    pub reward_id: String,
}

/// Commands that answer with a fixed text: (name, response) pairs, in the
/// order in which they are registered.
pub struct CommandsConfig {
    pub simple: Vec<(String, String)>,
}

} // verus!
