//! What the bot's IPC server keeps for its dashboard clients: the channels
//! they watch, how many are connected, and what the bot reported about
//! itself; and the answers it gives to status and guild requests.
//!
//! The sockets and tasks around it belong to the program that runs the
//! server; every decision they take is made here.

use vstd::prelude::*;
use std::collections::HashSet;
use vstd::std_specs::iter::IteratorSpec;
use crate::ipc::{
    channel_location, locate_channel, AttachmentInfo, ChannelHistorySummary, ChannelInfo, DisplayMessage, ErrorInfo,
    GuildInfo, TuiCommand,
};
use crate::text::{append_str, chars_of, parse_u64, parse_u64_chars, str_eq, string_of};

verus! {

broadcast use vstd::std_specs::hash::group_hash_axioms;

/// Most dashboard clients connected at once.
pub const MAX_CLIENTS: usize = 10;

/// Two guild records hold the same values.
pub open spec fn same_guild(a: GuildInfo, b: GuildInfo) -> bool {
    &&& a.id == b.id
    &&& a.name == b.name
    &&& a.channels@ == b.channels@
    &&& a.member_count == b.member_count
}

/// `v` holds copies of the guilds `s`, one for one.
pub open spec fn same_guilds(v: Seq<GuildInfo>, s: Seq<GuildInfo>) -> bool {
    v.len() == s.len() && forall|k: int| 0 <= k < v.len() ==> same_guild(#[trigger] v[k], s[k])
}

fn copy_channels(v: &Vec<ChannelInfo>) -> (r: Vec<ChannelInfo>)
    ensures
        r@ == v@,
{
    let mut r: Vec<ChannelInfo> = Vec::new();
    let mut i: usize = 0;
    while i < v.len()
        invariant
            i <= v@.len(),
            r@ == v@.take(i as int),
        decreases v@.len() - i,
    {
        let c = &v[i];
        r.push(ChannelInfo { id: c.id, name: c.name.clone(), channel_type: c.channel_type });
        i = i + 1;
        assert(r@ =~= v@.take(i as int));
    }
    assert(v@.take(v@.len() as int) =~= v@);
    r
}

fn copy_guilds(v: &Vec<GuildInfo>) -> (r: Vec<GuildInfo>)
    ensures
        same_guilds(r@, v@),
{
    let mut r: Vec<GuildInfo> = Vec::new();
    let mut i: usize = 0;
    while i < v.len()
        invariant
            i <= v@.len(),
            r@.len() == i,
            forall|k: int| 0 <= k < i ==> same_guild(#[trigger] r@[k], v@[k]),
        decreases v@.len() - i,
    {
        let g = &v[i];
        r.push(GuildInfo {
            id: g.id,
            name: g.name.clone(),
            channels: copy_channels(&g.channels),
            member_count: g.member_count,
        });
        i = i + 1;
    }
    r
}

/// What `chrono::NaiveDateTime::parse_from_str(s, "%Y-%m-%d %H:%M:%S")`
/// gives for `s` (the form SQLite stores), read as UTC, in milliseconds since
/// the Unix epoch; `None` when `s` does not parse.
pub uninterp spec fn sql_datetime_millis(s: Seq<char>) -> Option<i64>;

/// `chrono::NaiveDateTime::parse_from_str` with the SQLite datetime format,
/// taken as UTC. Its result is named by `sql_datetime_millis`; nothing more is
/// claimed of it.
#[verifier::external_body]
fn parse_sql_datetime(s: &str) -> (r: Option<i64>)
    ensures
        r == sql_datetime_millis(s@),
{
    match chrono::NaiveDateTime::parse_from_str(s, "%Y-%m-%d %H:%M:%S") {
        Ok(dt) => Some(dt.and_utc().timestamp_millis()),
        Err(_) => None,
    }
}

/// A stored datetime in milliseconds, or `fallback` (the current time) when
/// it does not parse.
pub fn sql_time_or(s: &str, fallback: i64) -> (t: i64)
    ensures
        t == match sql_datetime_millis(s@) {
            Some(v) => v,
            None => fallback,
        },
{
    match parse_sql_datetime(s) {
        Some(v) => v,
        None => fallback,
    }
}

/// A stored date (`YYYY-MM-DD`) as the midnight that starts it, in
/// milliseconds; `None` when it does not parse.
pub fn sql_date(s: &str) -> (t: Option<i64>)
    ensures
        t == sql_datetime_millis(s@ + " 00:00:00"@),
{
    let mut v: Vec<char> = Vec::new();
    append_str(&mut v, s);
    append_str(&mut v, " 00:00:00");
    let full = string_of(v.as_slice());
    parse_sql_datetime(full.as_str())
}

/// A message of the stored conversation history as the dashboard shows it:
/// the author is the stored user id, by the cached user name when there is
/// one; replies of the bot are those of role `assistant`; a time that does
/// not parse is shown as `now_ms`.
pub fn history_message(
    user_id: &str,
    content: String,
    timestamp: &str,
    role: &str,
    cached_name: Option<String>,
    now_ms: i64,
) -> (m: DisplayMessage)
    ensures
        m.id == 0,
        m.author_id == match parse_u64(user_id@) {
            Some(v) => v,
            None => 0,
        },
        m.author_name@ == match cached_name {
            Some(n) => n@,
            None => user_id@,
        },
        m.author_discriminator@ == "0000"@,
        m.content == content,
        m.timestamp == match sql_datetime_millis(timestamp@) {
            Some(v) => v,
            None => now_ms,
        },
        m.is_bot == (role@ == "assistant"@),
        m.attachments@.len() == 0,
        m.embeds_count == 0,
{
    let ids = chars_of(user_id);
    let author_id = match parse_u64_chars(ids.as_slice()) {
        Some(v) => v,
        None => 0,
    };
    let author_name = match cached_name {
        Some(n) => n,
        None => user_id.to_owned(),
    };
    let attachments: Vec<AttachmentInfo> = Vec::new();
    DisplayMessage {
        id: 0,
        author_id,
        author_name,
        author_discriminator: "0000".to_owned(),
        content,
        timestamp: sql_time_or(timestamp, now_ms),
        is_bot: str_eq(role, "assistant"),
        attachments,
        embeds_count: 0,
    }
}

/// An error log entry as the dashboard shows it; a time that does not parse
/// is shown as `now_ms`.
pub fn error_entry(
    id: i64,
    error_type: String,
    error_message: String,
    stack_trace: Option<String>,
    user_id: Option<String>,
    channel_id: Option<String>,
    command: Option<String>,
    timestamp: &str,
    now_ms: i64,
) -> (e: ErrorInfo)
    ensures
        e == (ErrorInfo {
            id,
            error_type,
            error_message,
            stack_trace,
            user_id,
            channel_id,
            command,
            timestamp: match sql_datetime_millis(timestamp@) {
                Some(v) => v,
                None => now_ms,
            },
        }),
{
    ErrorInfo {
        id,
        error_type,
        error_message,
        stack_trace,
        user_id,
        channel_id,
        command,
        timestamp: sql_time_or(timestamp, now_ms),
    }
}

/// A channel found in the cached guilds has its guild's name too; an unknown
/// one has neither.
proof fn lemma_location_found(guilds: Seq<GuildInfo>, channel_id: u64)
    ensures
        channel_location(guilds, channel_id).1 is Some <==> channel_location(guilds, channel_id).2 is Some,
    decreases guilds.len(),
{
    if guilds.len() > 0 {
        lemma_location_found(guilds.drop_first(), channel_id);
    }
}

/// A stored id in text, as a number: 0 when it is not one.
pub open spec fn id_or_zero(s: Seq<char>) -> u64 {
    match parse_u64(s) {
        Some(v) => v,
        None => 0,
    }
}

/// A channel with stored history as the dashboard lists it. Its names and
/// guild come from the cached guilds when the channel is found there;
/// otherwise it has no names and keeps the stored guild id, if that is a
/// number. A last activity that does not parse is left out.
pub fn history_summary(
    guilds: &Vec<GuildInfo>,
    channel_id: &str,
    guild_id: Option<&str>,
    message_count: u64,
    last_activity: Option<&str>,
) -> (s: ChannelHistorySummary)
    ensures
        s.channel_id == id_or_zero(channel_id@),
        match channel_location(guilds@, id_or_zero(channel_id@)).1 {
            Some(g) => {
                &&& s.guild_id == Some(g)
                &&& s.channel_name matches Some(n) && n@ == channel_location(guilds@, id_or_zero(channel_id@)).0
                &&& s.guild_name matches Some(n) && Some(n@) == channel_location(guilds@, id_or_zero(channel_id@)).2
            },
            None => {
                &&& s.guild_id == match guild_id {
                    Some(t) => parse_u64(t@),
                    None => None,
                }
                &&& s.channel_name is None
                &&& s.guild_name is None
            },
        },
        s.message_count == message_count,
        s.last_activity == match last_activity {
            Some(t) => sql_datetime_millis(t@),
            None => None,
        },
{
    let cs = chars_of(channel_id);
    let id = match parse_u64_chars(cs.as_slice()) {
        Some(v) => v,
        None => 0,
    };
    let loc = locate_channel(guilds, id);
    proof {
        lemma_location_found(guilds@, id);
    }
    let (channel_name, found_guild, guild_name) = match loc.1 {
        Some(g) => (Some(loc.0), Some(g), loc.2),
        None => {
            let stored = match guild_id {
                Some(t) => {
                    let ts = chars_of(t);
                    parse_u64_chars(ts.as_slice())
                },
                None => None,
            };
            (None, stored, None)
        },
    };
    ChannelHistorySummary {
        channel_id: id,
        channel_name,
        guild_id: found_guild,
        guild_name,
        message_count,
        last_activity: match last_activity {
            Some(t) => parse_sql_datetime(t),
            None => None,
        },
    }
}

/// The stored on/off state of feature `id`: the first entry for it.
pub open spec fn stored_state(stored: Seq<(String, bool)>, id: Seq<char>) -> Option<bool>
    decreases stored.len(),
{
    if stored.len() == 0 {
        None
    } else if stored[0].0@ == id {
        Some(stored[0].1)
    } else {
        stored_state(stored.drop_first(), id)
    }
}

fn stored_state_of(stored: &Vec<(String, bool)>, id: &str) -> (r: Option<bool>)
    ensures
        r == stored_state(stored@, id@),
{
    let mut i: usize = 0;
    assert(stored@.skip(0) =~= stored@);
    while i < stored.len()
        invariant
            i <= stored@.len(),
            stored_state(stored@, id@) == stored_state(stored@.skip(i as int), id@),
        decreases stored@.len() - i,
    {
        assert(stored@.skip(i as int)[0] == stored@[i as int]);
        assert(stored@.skip(i as int).drop_first() =~= stored@.skip(i + 1));
        if str_eq(stored[i].0.as_str(), id) {
            return Some(stored[i].1);
        }
        i = i + 1;
    }
    None
}

/// The feature states the dashboard is sent: every toggleable feature, in
/// order, with its stored state, or on when none is stored (with no database,
/// `stored` is empty and every feature is on).
pub fn feature_states(toggleable: &Vec<String>, stored: &Vec<(String, bool)>) -> (r: Vec<(String, bool)>)
    ensures
        r@.len() == toggleable@.len(),
        forall|i: int| 0 <= i < r@.len() ==> (#[trigger] r@[i]).0@ == toggleable@[i]@ && r@[i].1 == match stored_state(
            stored@,
            toggleable@[i]@,
        ) {
            Some(b) => b,
            None => true,
        },
{
    let mut r: Vec<(String, bool)> = Vec::new();
    let mut i: usize = 0;
    while i < toggleable.len()
        invariant
            i <= toggleable@.len(),
            r@.len() == i,
            forall|k: int| 0 <= k < i ==> (#[trigger] r@[k]).0@ == toggleable@[k]@ && r@[k].1 == match stored_state(
                stored@,
                toggleable@[k]@,
            ) {
                Some(b) => b,
                None => true,
            },
        decreases toggleable@.len() - i,
    {
        let on = match stored_state_of(stored, toggleable[i].as_str()) {
            Some(b) => b,
            None => true,
        };
        r.push((toggleable[i].clone(), on));
        i = i + 1;
    }
    r
}

/// The answer to a status request.
#[derive(Debug, Clone, Copy, PartialEq, Eq, Structural)]
pub struct StatusReport {
    pub connected: bool,
    pub uptime_seconds: u64,
    pub guild_count: usize,
    pub active_sessions: usize,
}

/// The answer to a guild request: the guilds, and who the bot is.
#[derive(Debug, Clone)]
pub struct ReadyReport {
    pub guilds: Vec<GuildInfo>,
    pub bot_user_id: u64,
    pub bot_username: String,
}

/// The state the IPC server shares between its client connections.
pub struct IpcServer {
    watched_channels: HashSet<u64>,
    client_count: usize,
    guilds: Vec<GuildInfo>,
    bot_user_id: Option<u64>,
    bot_username: Option<String>,
    active_sessions: usize,
}

impl IpcServer {
    /// The channels whose messages are sent on to the clients.
    pub closed spec fn watched(&self) -> Set<u64> {
        self.watched_channels@
    }

    /// The number of connected clients.
    pub closed spec fn clients(&self) -> nat {
        self.client_count as nat
    }

    /// The guilds the bot reported.
    pub closed spec fn guild_list(&self) -> Seq<GuildInfo> {
        self.guilds@
    }

    /// The bot's user id, once reported.
    pub closed spec fn bot_id(&self) -> Option<u64> {
        self.bot_user_id
    }

    /// The bot's user name, once reported.
    pub closed spec fn bot_name(&self) -> Option<String> {
        self.bot_username
    }

    /// The number of active conversation sessions reported.
    pub closed spec fn sessions(&self) -> nat {
        self.active_sessions as nat
    }

    /// No more clients are connected than allowed.
    pub closed spec fn wf(&self) -> bool {
        self.client_count <= MAX_CLIENTS
    }

    /// A server with no clients, no watched channels and nothing reported yet.
    pub fn new() -> (s: Self)
        ensures
            s.wf(),
            s.watched() == Set::<u64>::empty(),
            s.clients() == 0,
            s.guild_list().len() == 0,
            s.bot_id() is None,
            s.bot_name() is None,
            s.sessions() == 0,
    {
        let s = IpcServer {
            watched_channels: HashSet::new(),
            client_count: 0,
            guilds: Vec::new(),
            bot_user_id: None,
            bot_username: None,
            active_sessions: 0,
        };
        s
    }

    /// A client asks to connect: it is let in, and counted, unless
    /// `MAX_CLIENTS` are connected already.
    pub fn admit_client(&mut self) -> (admitted: bool)
        requires
            old(self).wf(),
        ensures
            final(self).wf(),
            admitted == (old(self).clients() < MAX_CLIENTS),
            final(self).clients() == if admitted {
                old(self).clients() + 1
            } else {
                old(self).clients()
            },
            final(self).watched() == old(self).watched(),
            final(self).guild_list() == old(self).guild_list(),
            final(self).bot_id() == old(self).bot_id(),
            final(self).bot_name() == old(self).bot_name(),
            final(self).sessions() == old(self).sessions(),
    {
        if self.client_count >= MAX_CLIENTS {
            false
        } else {
            self.client_count = self.client_count + 1;
            true
        }
    }

    /// A connected client went away.
    pub fn release_client(&mut self)
        requires
            old(self).wf(),
            old(self).clients() > 0,
        ensures
            final(self).wf(),
            final(self).clients() == old(self).clients() - 1,
            final(self).watched() == old(self).watched(),
            final(self).guild_list() == old(self).guild_list(),
            final(self).bot_id() == old(self).bot_id(),
            final(self).bot_name() == old(self).bot_name(),
            final(self).sessions() == old(self).sessions(),
    {
        self.client_count = self.client_count - 1;
    }

    /// The number of connected clients.
    pub fn client_count(&self) -> (n: usize)
        ensures
            n == self.clients(),
    {
        self.client_count
    }

    /// Whether messages of `channel_id` are sent on to the clients.
    pub fn is_channel_watched(&self, channel_id: u64) -> (b: bool)
        ensures
            b == self.watched().contains(channel_id),
    {
        self.watched_channels.contains(&channel_id)
    }

    /// Starts sending on the messages of `channel_id`.
    pub fn add_watched_channel(&mut self, channel_id: u64)
        requires
            old(self).wf(),
        ensures
            final(self).wf(),
            final(self).watched() == old(self).watched().insert(channel_id),
            final(self).clients() == old(self).clients(),
            final(self).guild_list() == old(self).guild_list(),
            final(self).bot_id() == old(self).bot_id(),
            final(self).bot_name() == old(self).bot_name(),
            final(self).sessions() == old(self).sessions(),
    {
        self.watched_channels.insert(channel_id);
    }

    /// Stops sending on the messages of `channel_id`.
    pub fn remove_watched_channel(&mut self, channel_id: u64)
        requires
            old(self).wf(),
        ensures
            final(self).wf(),
            final(self).watched() == old(self).watched().remove(channel_id),
            final(self).clients() == old(self).clients(),
            final(self).guild_list() == old(self).guild_list(),
            final(self).bot_id() == old(self).bot_id(),
            final(self).bot_name() == old(self).bot_name(),
            final(self).sessions() == old(self).sessions(),
    {
        self.watched_channels.remove(&channel_id);
    }

    /// The watched channels, each once, in the set's own order.
    pub fn get_watched_channels(&self) -> (v: Vec<u64>)
        requires
            self.wf(),
        ensures
            v@.to_set() == self.watched(),
            v@.no_duplicates(),
    {
        let ghost keys = vstd::std_specs::hash::spec_hash_keys_iter(&self.watched_channels).remaining();
        let mut v: Vec<u64> = Vec::new();
        for x in it: self.watched_channels.iter()
            invariant
                it.seq() == keys,
                v@ == keys.unref().take(it.index()),
        {
            v.push(*x);
            assert(v@ =~= keys.unref().take(it.index() + 1));
        }
        assert(v@ =~= keys.unref());
        v
    }

    /// What a client's command changes here before it goes on to the bot:
    /// watching and unwatching a channel. Every other command leaves the
    /// server as it is.
    pub fn track_command(&mut self, cmd: &TuiCommand)
        requires
            old(self).wf(),
        ensures
            final(self).wf(),
            final(self).watched() == match cmd {
                TuiCommand::WatchChannel { channel_id } => old(self).watched().insert(*channel_id),
                TuiCommand::UnwatchChannel { channel_id } => old(self).watched().remove(*channel_id),
                _ => old(self).watched(),
            },
            final(self).clients() == old(self).clients(),
            final(self).guild_list() == old(self).guild_list(),
            final(self).bot_id() == old(self).bot_id(),
            final(self).bot_name() == old(self).bot_name(),
            final(self).sessions() == old(self).sessions(),
    {
        match cmd {
            TuiCommand::WatchChannel { channel_id } => self.add_watched_channel(*channel_id),
            TuiCommand::UnwatchChannel { channel_id } => self.remove_watched_channel(*channel_id),
            _ => {},
        }
    }

    /// Whether an event goes out to the clients: a new message only when its
    /// channel is watched (`message_channel` is its channel), every other
    /// event (`None`) always.
    pub fn broadcast_allowed(&self, message_channel: Option<u64>) -> (b: bool)
        ensures
            b == match message_channel {
                Some(c) => self.watched().contains(c),
                None => true,
            },
    {
        match message_channel {
            Some(c) => self.is_channel_watched(c),
            None => true,
        }
    }

    /// Records the guilds the bot is in.
    pub fn set_guilds(&mut self, guilds: Vec<GuildInfo>)
        requires
            old(self).wf(),
        ensures
            final(self).wf(),
            final(self).guild_list() == guilds@,
            final(self).watched() == old(self).watched(),
            final(self).clients() == old(self).clients(),
            final(self).bot_id() == old(self).bot_id(),
            final(self).bot_name() == old(self).bot_name(),
            final(self).sessions() == old(self).sessions(),
    {
        self.guilds = guilds;
    }

    /// Copies of the recorded guilds.
    pub fn get_guilds(&self) -> (g: Vec<GuildInfo>)
        ensures
            same_guilds(g@, self.guild_list()),
    {
        copy_guilds(&self.guilds)
    }

    /// Records who the bot is.
    pub fn set_bot_info(&mut self, user_id: u64, username: String)
        requires
            old(self).wf(),
        ensures
            final(self).wf(),
            final(self).bot_id() == Some(user_id),
            final(self).bot_name() == Some(username),
            final(self).watched() == old(self).watched(),
            final(self).clients() == old(self).clients(),
            final(self).guild_list() == old(self).guild_list(),
            final(self).sessions() == old(self).sessions(),
    {
        self.bot_user_id = Some(user_id);
        self.bot_username = Some(username);
    }

    /// The bot's user id, once reported.
    pub fn get_bot_user_id(&self) -> (r: Option<u64>)
        ensures
            r == self.bot_id(),
    {
        self.bot_user_id
    }

    /// The bot's user name, once reported.
    pub fn get_bot_username(&self) -> (r: Option<String>)
        ensures
            r == self.bot_name(),
    {
        match &self.bot_username {
            Some(n) => Some(n.clone()),
            None => None,
        }
    }

    /// Records the number of active conversation sessions.
    pub fn set_active_sessions(&mut self, count: usize)
        requires
            old(self).wf(),
        ensures
            final(self).wf(),
            final(self).sessions() == count,
            final(self).watched() == old(self).watched(),
            final(self).clients() == old(self).clients(),
            final(self).guild_list() == old(self).guild_list(),
            final(self).bot_id() == old(self).bot_id(),
            final(self).bot_name() == old(self).bot_name(),
    {
        self.active_sessions = count;
    }

    /// The number of active conversation sessions.
    pub fn get_active_sessions(&self) -> (n: usize)
        ensures
            n == self.sessions(),
    {
        self.active_sessions
    }

    /// The answer to a status request, after `uptime_seconds` of running:
    /// connected, with the guild and session counts.
    pub fn status_report(&self, uptime_seconds: u64) -> (r: StatusReport)
        ensures
            r.connected,
            r.uptime_seconds == uptime_seconds,
            r.guild_count == self.guild_list().len(),
            r.active_sessions == self.sessions(),
    {
        StatusReport {
            connected: true,
            uptime_seconds,
            guild_count: self.guilds.len(),
            active_sessions: self.active_sessions,
        }
    }

    /// The answer to a guild request: the guilds, the bot's id (0 before it
    /// is known) and its name ("Unknown" before it is known).
    pub fn ready_report(&self) -> (r: ReadyReport)
        ensures
            same_guilds(r.guilds@, self.guild_list()),
            r.bot_user_id == match self.bot_id() {
                Some(id) => id,
                None => 0,
            },
            r.bot_username@ == match self.bot_name() {
                Some(n) => n@,
                None => "Unknown"@,
            },
    {
        let name = match &self.bot_username {
            Some(n) => n.clone(),
            None => "Unknown".to_owned(),
        };
        ReadyReport {
            guilds: copy_guilds(&self.guilds),
            bot_user_id: match self.bot_user_id {
                Some(id) => id,
                None => 0,
            },
            bot_username: name,
        }
    }
}

/// Law: the server never lets in more than `MAX_CLIENTS` clients: a full
/// server refuses the next one and keeps its count.
pub proof fn lemma_clients_bounded(s: IpcServer)
    requires
        s.wf(),
    ensures
        s.clients() <= MAX_CLIENTS,
{
}

} // verus!
