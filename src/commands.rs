//! Commands, the registry that resolves them by key, and what running one
//! decides.
use crate::config::Config;
use crate::message::{MessageView, TwitchMessage};
use crate::spotify::{fallback, fallback_text, track_uri, track_uri_spec, SpotifyService};
use crate::text::{chars_of, substring, word_bounds, words};
use vstd::prelude::*;
use vstd::string::StringExecFns;

verus! {

/// A request to the music service that a command needs answered.
pub enum ApiCall {
    CurrentlyPlaying,
    Skip,
    Previous,
    /// Queue the track with this URI.
    Enqueue(String),
}

/// What running a command decides: a reply (`None`: say nothing), or a call
/// to the music service whose answer makes the reply.
pub enum Step {
    Reply(Option<String>),
    Call(ApiCall),
}

/// The content of a `Step`.
pub enum StepView {
    Reply(Option<Seq<char>>),
    CurrentlyPlaying,
    Skip,
    Previous,
    Enqueue(Seq<char>),
}

impl View for Step {
    type V = StepView;

    open spec fn view(&self) -> StepView {
        match self {
            Step::Reply(Some(s)) => StepView::Reply(Some(s@)),
            Step::Reply(None) => StepView::Reply(None),
            Step::Call(ApiCall::CurrentlyPlaying) => StepView::CurrentlyPlaying,
            Step::Call(ApiCall::Skip) => StepView::Skip,
            Step::Call(ApiCall::Previous) => StepView::Previous,
            Step::Call(ApiCall::Enqueue(u)) => StepView::Enqueue(u@),
        }
    }
}

/// A command that always answers with the same text.
pub struct SimpleCommand {
    name: String,
    response: String,
}

impl SimpleCommand {
    pub fn new(name: String, response: String) -> (r: SimpleCommand)
        ensures
            r.name_view() == name@,
            r.response_view() == response@,
    {
        SimpleCommand { name, response }
    }

    /// The command's key.
    pub closed spec fn name_view(&self) -> Seq<char> {
        self.name@
    }

    /// The fixed response.
    pub closed spec fn response_view(&self) -> Seq<char> {
        self.response@
    }
}

/// Tells what is playing.
pub struct SpotifyCommand {
    pub service: SpotifyService,
}

/// Queues the track that a link names; privileged.
pub struct PlayCommand {
    pub service: SpotifyService,
}

/// Skips to the next track; privileged.
pub struct SkipCommand {
    pub service: SpotifyService,
}

/// Goes back to the previous track; privileged.
pub struct PrevCommand {
    pub service: SpotifyService,
}

impl SpotifyCommand {
    pub fn new(service: SpotifyService) -> (r: SpotifyCommand)
        ensures
            r.service == service,
    {
        SpotifyCommand { service }
    }
}

impl PlayCommand {
    pub fn new(service: SpotifyService) -> (r: PlayCommand)
        ensures
            r.service == service,
    {
        PlayCommand { service }
    }
}

impl SkipCommand {
    pub fn new(service: SpotifyService) -> (r: SkipCommand)
        ensures
            r.service == service,
    {
        SkipCommand { service }
    }
}

impl PrevCommand {
    pub fn new(service: SpotifyService) -> (r: PrevCommand)
        ensures
            r.service == service,
    {
        PrevCommand { service }
    }
}

/// A registered command: one of the handler kinds.
pub enum Command {
    Simple(SimpleCommand),
    Spotify(SpotifyCommand),
    Play(PlayCommand),
    Skip(SkipCommand),
    Prev(PrevCommand),
}

/// The sender has moderator, VIP or broadcaster rights.
pub open spec fn elevated(m: MessageView) -> bool {
    m.is_moderator || m.is_vip || m.is_broadcaster
}

impl Command {
    /// The key the command is registered under.
    pub open spec fn name_spec(&self) -> Seq<char> {
        match self {
            Command::Simple(c) => c.name_view(),
            Command::Spotify(_) => "spotify"@,
            Command::Play(_) => "play"@,
            Command::Skip(_) => "skip"@,
            Command::Prev(_) => "prev"@,
        }
    }

    /// The further keys the command is registered under.
    pub open spec fn aliases_spec(&self) -> Seq<Seq<char>> {
        match self {
            Command::Spotify(_) => seq!["song"@, "music"@, "np"@, "nowplaying"@],
            Command::Skip(_) => seq!["next"@],
            Command::Prev(_) => seq!["previous"@, "back"@],
            _ => Seq::empty(),
        }
    }

    /// All keys of the command: its name, then its aliases.
    pub open spec fn keys(&self) -> Seq<Seq<char>> {
        seq![self.name_spec()] + self.aliases_spec()
    }

    /// What the command decides for a message.
    pub open spec fn execute_spec(&self, m: MessageView) -> StepView {
        match self {
            Command::Simple(c) => StepView::Reply(Some(c.response_view())),
            Command::Spotify(_) => StepView::CurrentlyPlaying,
            Command::Play(_) => if !elevated(m) || words(m.message).len() < 2 {
                StepView::Reply(Some(fallback_text()))
            } else {
                match track_uri_spec(words(m.message)[1]) {
                    Some(u) => StepView::Enqueue(u),
                    None => StepView::Reply(None),
                }
            },
            Command::Skip(_) => if !elevated(m) {
                StepView::Reply(Some(fallback_text()))
            } else {
                StepView::Skip
            },
            Command::Prev(_) => if !elevated(m) {
                StepView::Reply(Some(fallback_text()))
            } else {
                StepView::Previous
            },
        }
    }

    pub fn name(&self) -> (r: String)
        ensures
            r@ == self.name_spec(),
    {
        match self {
            Command::Simple(c) => c.name.clone(),
            Command::Spotify(_) => String::from_str("spotify"),
            Command::Play(_) => String::from_str("play"),
            Command::Skip(_) => String::from_str("skip"),
            Command::Prev(_) => String::from_str("prev"),
        }
    }

    pub fn aliases(&self) -> (r: Vec<String>)
        ensures
            r@.map_values(|s: String| s@) == self.aliases_spec(),
    {
        let mut r: Vec<String> = Vec::new();
        match self {
            Command::Spotify(_) => {
                r.push(String::from_str("song"));
                r.push(String::from_str("music"));
                r.push(String::from_str("np"));
                r.push(String::from_str("nowplaying"));
            },
            Command::Skip(_) => {
                r.push(String::from_str("next"));
            },
            Command::Prev(_) => {
                r.push(String::from_str("previous"));
                r.push(String::from_str("back"));
            },
            _ => {},
        }
        assert(r@.map_values(|s: String| s@) =~= self.aliases_spec());
        r
    }

    /// Runs the command for a message; privileged commands answer the
    /// fallback text to senders without rights, before any service call.
    pub fn execute(&self, message: &TwitchMessage) -> (r: Step)
        ensures
            r@ == self.execute_spec(message@),
    {
        match self {
            Command::Simple(c) => Step::Reply(Some(c.response.clone())),
            Command::Spotify(_) => Step::Call(ApiCall::CurrentlyPlaying),
            Command::Play(_) => {
                if !message.has_permissions() {
                    return Step::Reply(Some(fallback()));
                }
                let text = message.message.as_str();
                let v = chars_of(text);
                let bounds = word_bounds(&v, 0, v.len());
                assert(v@.subrange(0, v@.len() as int) =~= message.message@);
                if bounds.len() < 2 {
                    return Step::Reply(Some(fallback()));
                }
                let (a, b) = bounds[1];
                let link = substring(text, a, b);
                match track_uri(link.as_str()) {
                    Some(u) => Step::Call(ApiCall::Enqueue(u)),
                    None => Step::Reply(None),
                }
            },
            Command::Skip(_) => {
                if !message.has_permissions() {
                    return Step::Reply(Some(fallback()));
                }
                Step::Call(ApiCall::Skip)
            },
            Command::Prev(_) => {
                if !message.has_permissions() {
                    return Step::Reply(Some(fallback()));
                }
                Step::Call(ApiCall::Previous)
            },
        }
    }
}

/// The command that `key` resolves to among commands registered in order
/// with the given key lists: the last one that has the key.
pub open spec fn resolve_spec(keys: Seq<Seq<Seq<char>>>, key: Seq<char>) -> Option<int>
    decreases keys.len(),
{
    if keys.len() == 0 {
        None
    } else if keys.last().contains(key) {
        Some(keys.len() - 1)
    } else {
        resolve_spec(keys.drop_last(), key)
    }
}

/// Looking up in an entry list with one more entry at its end.
pub proof fn lemma_lookup_push(entries: Seq<(Seq<char>, int)>, k: Seq<char>, key: Seq<char>, idx: int)
    ensures
        entry_lookup(entries.push((key, idx)), k) == if k == key {
            Some(idx)
        } else {
            entry_lookup(entries, k)
        },
{
    assert(entries.push((key, idx)).drop_last() =~= entries);
}

/// A key list with one more key at its end.
pub proof fn lemma_contains_push(s: Seq<Seq<char>>, x: Seq<char>, k: Seq<char>)
    ensures
        s.push(x).contains(k) == (s.contains(k) || x == k),
{
    if s.push(x).contains(k) && x != k {
        let m = choose|m: int| 0 <= m < s.push(x).len() && #[trigger] s.push(x)[m] == k;
        assert(s[m] == k);
    }
    if s.contains(k) {
        let m = choose|m: int| 0 <= m < s.len() && #[trigger] s[m] == k;
        assert(s.push(x)[m] == k);
    }
    if x == k {
        assert(s.push(x)[s.len() as int] == k);
    }
}

/// A resolved command is one of those registered.
pub proof fn lemma_resolve_bound(keys: Seq<Seq<Seq<char>>>, key: Seq<char>)
    ensures
        resolve_spec(keys, key) matches Some(i) ==> 0 <= i < keys.len(),
    decreases keys.len(),
{
    if keys.len() > 0 && !keys.last().contains(key) {
        lemma_resolve_bound(keys.drop_last(), key);
    }
}

/// `c` is a fixed-response command made from the (name, response) pair `p`.
pub open spec fn is_simple(c: Command, p: (String, String)) -> bool {
    match c {
        Command::Simple(s) => s.name_view() == p.0@ && s.response_view() == p.1@,
        _ => false,
    }
}

/// A privileged command run by a sender without rights answers the
/// fallback text and asks nothing of the music service.
pub proof fn lemma_unprivileged_denied(c: Command, m: MessageView)
    requires
        c is Play || c is Skip || c is Prev,
        !elevated(m),
    ensures
        c.execute_spec(m) == StepView::Reply(Some(fallback_text())),
{
}

/// Once a command is registered, each of its keys resolves to it.
pub proof fn lemma_registered_keys_resolve(
    lists: Seq<Seq<Seq<char>>>,
    keys: Seq<Seq<char>>,
    k: Seq<char>,
)
    requires
        keys.contains(k),
    ensures
        resolve_spec(lists.push(keys), k) == Some(lists.len() as int),
{
    assert(lists.push(keys).last() == keys);
}

/// Lookup is exact: a key resolves only if some registered command has that
/// very key, and then to such a command.
pub proof fn lemma_resolve_exact(lists: Seq<Seq<Seq<char>>>, k: Seq<char>)
    ensures
        resolve_spec(lists, k) matches Some(i) ==> 0 <= i < lists.len() && lists[i].contains(k),
        (forall|i: int| 0 <= i < lists.len() ==> !(#[trigger] lists[i]).contains(k)) ==> resolve_spec(
            lists,
            k,
        ) is None,
    decreases lists.len(),
{
    if lists.len() > 0 && !lists.last().contains(k) {
        lemma_resolve_exact(lists.drop_last(), k);
        if resolve_spec(lists, k) is None {
        } else {
            let i = resolve_spec(lists, k)->0;
            assert(lists.drop_last()[i] == lists[i]);
        }
        if forall|i: int| 0 <= i < lists.len() ==> !(#[trigger] lists[i]).contains(k) {
            assert forall|i: int| 0 <= i < lists.drop_last().len() implies !(
            #[trigger] lists.drop_last()[i]).contains(k) by {
                assert(lists.drop_last()[i] == lists[i]);
            }
        }
    }
}

/// The key lists of the music commands, in order of registration.
pub open spec fn builtin_key_lists() -> Seq<Seq<Seq<char>>> {
    seq![
        seq!["spotify"@, "song"@, "music"@, "np"@, "nowplaying"@],
        seq!["play"@],
        seq!["skip"@, "next"@],
        seq!["prev"@, "previous"@, "back"@],
    ]
}

/// The key lists of fixed-response commands made from (name, response) pairs.
pub open spec fn simple_key_lists(pairs: Seq<(String, String)>) -> Seq<Seq<Seq<char>>> {
    pairs.map_values(|p: (String, String)| seq![p.0@])
}

/// The command an entry list gives a key: that of its last entry with the key.
pub open spec fn entry_lookup(entries: Seq<(Seq<char>, int)>, key: Seq<char>) -> Option<int>
    decreases entries.len(),
{
    if entries.len() == 0 {
        None
    } else if entries.last().0 == key {
        Some(entries.last().1)
    } else {
        entry_lookup(entries.drop_last(), key)
    }
}

/// Maps command keys to commands. A later registration under a key
/// overrides an earlier one.
pub struct CommandRegistry {
    entries: Vec<(String, usize)>,
    commands: Vec<Command>,
    pub spotify_service: SpotifyService,
}

impl CommandRegistry {
    /// The (key, command index) entries, in order of insertion.
    pub closed spec fn entries_view(&self) -> Seq<(Seq<char>, int)> {
        self.entries@.map_values(|e: (String, usize)| (e.0@, e.1 as int))
    }

    /// The registered commands, in order of registration.
    pub closed spec fn commands_view(&self) -> Seq<Command> {
        self.commands@
    }

    /// The key lists of the registered commands, in order of registration.
    pub open spec fn key_lists(&self) -> Seq<Seq<Seq<char>>> {
        self.commands_view().map_values(|c: Command| c.keys())
    }

    /// Each key resolves to the last registered command that has it.
    pub closed spec fn wf(&self) -> bool {
        forall|k: Seq<char>| #[trigger]
            entry_lookup(self.entries_view(), k) == resolve_spec(self.key_lists(), k)
    }

    /// A registry with nothing registered.
    pub fn empty(service: SpotifyService) -> (r: CommandRegistry)
        ensures
            r.wf(),
            r.commands_view().len() == 0,
    {
        let r = CommandRegistry { entries: Vec::new(), commands: Vec::new(), spotify_service: service };
        assert(r.entries_view() =~= Seq::<(Seq<char>, int)>::empty());
        r
    }

    /// Registers a command under its name and each of its aliases.
    pub fn register(&mut self, command: Command)
        requires
            old(self).wf(),
        ensures
            final(self).wf(),
            final(self).commands_view() == old(self).commands_view().push(command),
            final(self).key_lists() == old(self).key_lists().push(command.keys()),
    {
        let idx = self.commands.len();
        let name = command.name();
        let aliases = command.aliases();
        let ghost keys = command.keys();
        let ghost base = self.entries_view();
        let ghost old_lists = self.key_lists();
        self.entries.push((name, idx));
        proof {
            assert(keys[0] == command.name_spec());
            assert(self.entries_view() =~= base.push((keys[0], idx as int)));
            assert(keys.subrange(0, 1) =~= seq![keys[0]]);
            assert forall|k: Seq<char>| #[trigger]
                entry_lookup(self.entries_view(), k) == if keys.subrange(0, 1).contains(k) {
                    Some(idx as int)
                } else {
                    entry_lookup(base, k)
                } by {
                assert(self.entries_view().drop_last() =~= base);
                if k == keys[0] {
                    assert(keys.subrange(0, 1)[0] == k);
                }
            }
        }
        let mut i: usize = 0;
        while i < aliases.len()
            invariant
                i <= aliases@.len(),
                self.commands@ == old(self).commands@,
                idx == old(self).commands@.len(),
                aliases@.map_values(|s: String| s@) == command.aliases_spec(),
                keys == command.keys(),
                keys.len() == aliases@.len() + 1,
                forall|k: Seq<char>| #[trigger]
                    entry_lookup(self.entries_view(), k) == if keys.subrange(0, i + 1).contains(k) {
                        Some(idx as int)
                    } else {
                        entry_lookup(base, k)
                    },
            decreases aliases.len() - i,
        {
            let ghost before = self.entries_view();
            let alias = aliases[i].clone();
            proof {
                assert(aliases@.map_values(|s: String| s@)[i as int] == aliases@[i as int]@);
                assert(keys[i + 1] == command.aliases_spec()[i as int]);
            }
            self.entries.push((alias, idx));
            proof {
                assert(self.entries_view() =~= before.push((keys[i + 1], idx as int)));
                let grown = keys.subrange(0, i + 2);
                assert(grown =~= keys.subrange(0, i + 1).push(keys[i + 1]));
                assert forall|k: Seq<char>| #[trigger]
                    entry_lookup(self.entries_view(), k) == if grown.contains(k) {
                        Some(idx as int)
                    } else {
                        entry_lookup(base, k)
                    } by {
                    lemma_lookup_push(before, k, keys[i + 1], idx as int);
                    lemma_contains_push(keys.subrange(0, i + 1), keys[i + 1], k);
                    assert(entry_lookup(before, k) == if keys.subrange(0, i + 1).contains(k) {
                        Some(idx as int)
                    } else {
                        entry_lookup(base, k)
                    });
                }
            }
            i = i + 1;
        }
        assert(keys.subrange(0, i + 1) =~= keys);
        let ghost done = self.entries_view();
        assert(forall|k: Seq<char>| #[trigger]
            entry_lookup(done, k) == if keys.contains(k) {
                Some(idx as int)
            } else {
                entry_lookup(base, k)
            });
        let ghost old_commands = self.commands@;
        self.commands.push(command);
        proof {
            assert(self.commands@ == old_commands.push(command));
            assert(self.entries_view() == done);
            assert forall|j: int| 0 <= j < self.key_lists().len() implies #[trigger] self.key_lists()[j]
                == old_lists.push(keys)[j] by {
                if j < old_lists.len() {
                    assert(self.commands@[j] == old_commands[j]);
                }
            }
            assert(self.key_lists() =~= old_lists.push(keys));
            assert(old_lists.len() == idx);
            assert forall|k: Seq<char>| #[trigger]
                entry_lookup(self.entries_view(), k) == resolve_spec(self.key_lists(), k) by {
                assert(self.key_lists().drop_last() =~= old_lists);
                assert(self.key_lists().last() == keys);
                assert(entry_lookup(base, k) == resolve_spec(old_lists, k));
                assert(entry_lookup(self.entries_view(), k) == if keys.contains(k) {
                    Some(idx as int)
                } else {
                    entry_lookup(base, k)
                });
            }
        }
    }

    /// Registers the music commands: now-playing, play, skip and previous.
    pub fn register_spotify_commands(&mut self, service: &SpotifyService)
        requires
            old(self).wf(),
        ensures
            final(self).wf(),
            final(self).key_lists() == old(self).key_lists() + builtin_key_lists(),
            final(self).commands_view().len() == old(self).commands_view().len() + 4,
            forall|j: int|
                0 <= j < old(self).commands_view().len() ==> #[trigger] final(self).commands_view()[j]
                    == old(self).commands_view()[j],
            final(self).commands_view()[old(self).commands_view().len() as int] is Spotify,
            final(self).commands_view()[old(self).commands_view().len() + 1int] is Play,
            final(self).commands_view()[old(self).commands_view().len() + 2int] is Skip,
            final(self).commands_view()[old(self).commands_view().len() + 3int] is Prev,
    {
        let ghost start = self.key_lists();
        let spotify = Command::Spotify(SpotifyCommand::new(service.clone()));
        let play = Command::Play(PlayCommand::new(service.clone()));
        let skip = Command::Skip(SkipCommand::new(service.clone()));
        let prev = Command::Prev(PrevCommand::new(service.clone()));
        proof {
            assert(spotify.keys() =~= builtin_key_lists()[0]);
            assert(play.keys() =~= builtin_key_lists()[1]);
            assert(skip.keys() =~= builtin_key_lists()[2]);
            assert(prev.keys() =~= builtin_key_lists()[3]);
        }
        self.register(spotify);
        self.register(play);
        self.register(skip);
        self.register(prev);
        assert(self.key_lists() =~= start + builtin_key_lists());
    }

    /// Registers one fixed-response command per configured (name, response)
    /// pair, in order.
    pub fn register_simple_commands(&mut self, config: &Config)
        requires
            old(self).wf(),
        ensures
            final(self).wf(),
            final(self).key_lists() == old(self).key_lists() + simple_key_lists(config.commands.simple@),
            final(self).commands_view().len() == old(self).commands_view().len()
                + config.commands.simple@.len(),
            forall|j: int|
                0 <= j < old(self).commands_view().len() ==> #[trigger] final(self).commands_view()[j]
                    == old(self).commands_view()[j],
            forall|j: int|
                0 <= j < config.commands.simple@.len() ==> is_simple(#[trigger] final(self).commands_view()[old(
                    self,
                ).commands_view().len() + j], config.commands.simple@[j]),
    {
        let ghost start = self.key_lists();
        let ghost first = self.commands_view();
        let pairs = &config.commands.simple;
        let mut i: usize = 0;
        while i < pairs.len()
            invariant
                i <= pairs@.len(),
                self.wf(),
                self.key_lists() == start + simple_key_lists(pairs@.subrange(0, i as int)),
                self.commands_view().len() == first.len() + i,
                forall|j: int| 0 <= j < first.len() ==> #[trigger] self.commands_view()[j] == first[j],
                forall|j: int|
                    0 <= j < i ==> is_simple(#[trigger] self.commands_view()[first.len() + j], pairs@[j]),
            decreases pairs.len() - i,
        {
            let ghost before = self.commands_view();
            let name = pairs[i].0.clone();
            let response = pairs[i].1.clone();
            let cmd = Command::Simple(SimpleCommand::new(name, response));
            self.register(cmd);
            assert(simple_key_lists(pairs@.subrange(0, i + 1)) =~= simple_key_lists(
                pairs@.subrange(0, i as int),
            ).push(seq![pairs@[i as int].0@]));
            assert(self.commands_view()[first.len() + i] == cmd);
            assert(forall|j: int| 0 <= j < first.len() ==> #[trigger] self.commands_view()[j] == before[j]);
            assert forall|j: int| 0 <= j < i + 1 implies is_simple(#[trigger] self.commands_view()[first.len()
                + j], pairs@[j]) by {
                if j < i {
                    assert(self.commands_view()[first.len() + j] == before[first.len() + j]);
                }
            }
            i = i + 1;
        }
        assert(pairs@.subrange(0, i as int) =~= pairs@);
    }

    /// A registry with the music commands, then the configured fixed-response
    /// commands.
    pub fn new(config: &Config) -> (r: CommandRegistry)
        ensures
            r.wf(),
            r.key_lists() == builtin_key_lists() + simple_key_lists(config.commands.simple@),
            r.commands_view().len() == 4 + config.commands.simple@.len(),
            r.commands_view()[0] is Spotify,
            r.commands_view()[1] is Play,
            r.commands_view()[2] is Skip,
            r.commands_view()[3] is Prev,
            forall|j: int|
                0 <= j < config.commands.simple@.len() ==> is_simple(#[trigger] r.commands_view()[4 + j], config.commands.simple@[j]),
    {
        let service = SpotifyService::new(config.spotify.clone());
        let mut r = CommandRegistry::empty(service.clone());
        r.register_spotify_commands(&service);
        r.register_simple_commands(config);
        assert(Seq::<Seq<Seq<char>>>::empty() + builtin_key_lists() =~= builtin_key_lists());
        r
    }

    /// The index of the command that `key` resolves to: exact,
    /// case-sensitive match, the latest registration winning.
    pub fn resolve(&self, key: &str) -> (r: Option<usize>)
        requires
            self.wf(),
        ensures
            match r {
                Some(i) => resolve_spec(self.key_lists(), key@) == Some(i as int) && i
                    < self.commands_view().len(),
                None => resolve_spec(self.key_lists(), key@) is None,
            },
    {
        let k = String::from_str(key);
        let mut j: usize = self.entries.len();
        proof {
            lemma_resolve_bound(self.key_lists(), key@);
            assert(self.entries_view().subrange(0, j as int) =~= self.entries_view());
        }
        while j > 0
            invariant
                j <= self.entries@.len(),
                self.wf(),
                k@ == key@,
                resolve_spec(self.key_lists(), key@) matches Some(i) ==> 0 <= i < self.commands_view().len(),
                entry_lookup(self.entries_view(), key@) == entry_lookup(
                    self.entries_view().subrange(0, j as int),
                    key@,
                ),
            decreases j,
        {
            let ghost pre = self.entries_view().subrange(0, j as int);
            assert(pre.drop_last() =~= self.entries_view().subrange(0, j - 1));
            assert(pre.last() == (self.entries@[j - 1].0@, self.entries@[j - 1].1 as int));
            if self.entries[j - 1].0 == k {
                return Some(self.entries[j - 1].1);
            }
            j = j - 1;
        }
        None
    }

    /// What running the command that `key` resolves to decides; nothing
    /// to say for an unknown key.
    pub open spec fn execute_spec(&self, key: Seq<char>, m: MessageView) -> StepView {
        match resolve_spec(self.key_lists(), key) {
            Some(i) => self.commands_view()[i].execute_spec(m),
            None => StepView::Reply(None),
        }
    }

    /// The request for a redeemed reward's message: queue the track it
    /// links; `None` when it links none.
    pub fn handle_spotify_reward(&self, message: &str) -> (r: Option<ApiCall>)
        ensures
            match r {
                Some(ApiCall::Enqueue(u)) => track_uri_spec(message@) == Some(u@),
                Some(_) => false,
                None => track_uri_spec(message@) is None,
            },
    {
        self.spotify_service.add_track_from_url(message)
    }

    /// The registered command at `i`.
    pub fn command(&self, i: usize) -> (r: &Command)
        requires
            i < self.commands_view().len(),
        ensures
            *r == self.commands_view()[i as int],
    {
        &self.commands[i]
    }

    /// Runs the command that `command_name` resolves to; an unknown key
    /// gives no reply.
    pub fn execute(&self, command_name: &str, message: &TwitchMessage) -> (r: Step)
        requires
            self.wf(),
        ensures
            r@ == self.execute_spec(command_name@, message@),
    {
        match self.resolve(command_name) {
            Some(i) => self.commands[i].execute(message),
            None => Step::Reply(None),
        }
    }
}

} // verus!
