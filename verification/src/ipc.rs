//! The bot <-> dashboard protocol: message framing, the commands the
//! dashboard sends, the guild and channel data the bot reports, and the
//! replies the bot gives to commands.
//!
//! A frame is a 4-byte big-endian length followed by that many bytes of
//! payload; frames over 10 MiB are refused.

use vstd::prelude::*;
use crate::text::{append_decimal, append_str, dec, string_of};

pub mod server;

verus! {

/// A message as the dashboard shows it. `timestamp` is in milliseconds since
/// the Unix epoch (UTC).
#[derive(Debug, Clone)]
pub struct DisplayMessage {
    pub id: u64,
    pub author_id: u64,
    pub author_name: String,
    pub author_discriminator: String,
    pub content: String,
    pub timestamp: i64,
    pub is_bot: bool,
    pub attachments: Vec<AttachmentInfo>,
    pub embeds_count: usize,
}

/// An error log entry. `timestamp` is in milliseconds since the Unix epoch (UTC).
#[derive(Debug, Clone)]
pub struct ErrorInfo {
    pub id: i64,
    pub error_type: String,
    pub error_message: String,
    pub stack_trace: Option<String>,
    pub user_id: Option<String>,
    pub channel_id: Option<String>,
    pub command: Option<String>,
    pub timestamp: i64,
}

/// A channel that has conversation history in the database, with the names
/// the bot's cache gives it. `last_activity` is in milliseconds since the Unix
/// epoch (UTC).
#[derive(Debug, Clone)]
pub struct ChannelHistorySummary {
    pub channel_id: u64,
    pub channel_name: Option<String>,
    pub guild_id: Option<u64>,
    pub guild_name: Option<String>,
    pub message_count: u64,
    pub last_activity: Option<i64>,
}

/// Attachment metadata.
#[derive(Debug, Clone)]
pub struct AttachmentInfo {
    pub filename: String,
    pub size: u64,
    pub url: String,
}

/// Guild information for the Ready event.
#[derive(Debug, Clone)]
pub struct GuildInfo {
    pub id: u64,
    pub name: String,
    pub channels: Vec<ChannelInfo>,
    pub member_count: Option<u64>,
}

/// Channel information.
#[derive(Debug, Clone)]
pub struct ChannelInfo {
    pub id: u64,
    pub name: String,
    pub channel_type: ChannelType,
}

/// Channel type.
#[derive(Debug, Clone, Copy, PartialEq, Eq, Structural)]
pub enum ChannelType {
    Text,
    Voice,
    Category,
    News,
    Thread,
    Forum,
    Other,
}

/// Commands sent from the dashboard to the bot.
#[derive(Debug, Clone)]
pub enum TuiCommand {
    /// Send a message to a channel
    SendMessage { request_id: String, channel_id: u64, content: String },
    /// Start watching a channel for messages
    WatchChannel { channel_id: u64 },
    /// Stop watching a channel
    UnwatchChannel { channel_id: u64 },
    /// Toggle a feature on/off
    SetFeature { request_id: String, feature: String, enabled: bool, guild_id: Option<u64> },
    /// Set a channel's persona
    SetChannelPersona { request_id: String, guild_id: u64, channel_id: u64, persona: String },
    /// Set a guild setting
    SetGuildSetting { request_id: String, guild_id: u64, key: String, value: String },
    /// Request current status
    GetStatus,
    /// Request guild list
    GetGuilds,
    /// Request channel messages (history)
    GetChannelHistory { channel_id: u64, limit: u32 },
    /// Request usage statistics (None = all time)
    GetUsageStats { period_days: Option<u32> },
    /// Request system metrics
    GetSystemMetrics,
    /// Heartbeat response
    Pong { timestamp: i64 },
    /// Request channel information
    GetChannelInfo { channel_id: u64 },
    /// Request historical metrics (time-series data)
    GetHistoricalMetrics { metric_type: String, hours: u32 },
    /// Request user list with stats
    GetUserList { limit: u32 },
    /// Request detailed user statistics
    GetUserDetails { user_id: String },
    /// Request recent errors
    GetRecentErrors { limit: u32 },
    /// Request DM sessions for a user
    GetDmSessions { user_id: String, limit: u32 },
    /// Request feature states (enabled/disabled) for a guild
    GetFeatureStates { guild_id: Option<u64> },
}

/// The largest payload a frame may announce.
pub const MAX_FRAME_BYTES: usize = 10485760;

/// The four big-endian bytes of `n`.
pub open spec fn be_bytes(n: nat) -> Seq<u8> {
    seq![
        ((n / 16777216) % 256) as u8,
        ((n / 65536) % 256) as u8,
        ((n / 256) % 256) as u8,
        (n % 256) as u8,
    ]
}

/// The number that four big-endian bytes hold.
pub open spec fn be_value(b: Seq<u8>) -> nat {
    (b[0] as nat) * 16777216 + (b[1] as nat) * 65536 + (b[2] as nat) * 256 + (b[3] as nat)
}

/// The frame of `payload`: its length (modulo 2^32, as a `u32`) then the bytes.
pub open spec fn frame(payload: Seq<u8>) -> Seq<u8> {
    be_bytes(payload.len() % 4294967296) + payload
}

/// Why a frame cannot be read.
#[derive(Debug, Clone, PartialEq, Eq, Structural)]
pub enum FrameError {
    /// Fewer bytes than the frame needs.
    Incomplete,
    /// The announced length is over the limit; it is carried along.
    TooLarge(u32),
}

/// The message a refused frame is reported with.
pub open spec fn frame_error_text(e: FrameError) -> Seq<char> {
    match e {
        FrameError::Incomplete => "failed to fill whole buffer"@,
        FrameError::TooLarge(n) => "Message too large: "@ + dec(n as nat) + " bytes"@,
    }
}

impl FrameError {
    /// The error message.
    pub fn message(&self) -> (s: String)
        ensures
            s@ == frame_error_text(*self),
    {
        match self {
            FrameError::Incomplete => "failed to fill whole buffer".to_owned(),
            FrameError::TooLarge(n) => {
                let mut v: Vec<char> = Vec::new();
                append_str(&mut v, "Message too large: ");
                append_decimal(&mut v, *n as u64);
                append_str(&mut v, " bytes");
                string_of(v.as_slice())
            },
        }
    }
}

/// What reading a frame from `buf` gives: the payload and the bytes used,
/// or why it cannot be read.
pub open spec fn read_frame(buf: Seq<u8>) -> Result<(Seq<u8>, nat), FrameError> {
    if buf.len() < 4 {
        Err(FrameError::Incomplete)
    } else if be_value(buf.take(4)) > MAX_FRAME_BYTES {
        Err(FrameError::TooLarge(be_value(buf.take(4)) as u32))
    } else if buf.len() < 4 + be_value(buf.take(4)) {
        Err(FrameError::Incomplete)
    } else {
        Ok((buf.subrange(4, 4 + be_value(buf.take(4)) as int), 4 + be_value(buf.take(4))))
    }
}

/// Frames `payload`: its length as a big-endian `u32`, then the payload.
pub fn encode_frame(payload: &[u8]) -> (out: Vec<u8>)
    ensures
        out@ == frame(payload@),
{
    let len = payload.len();
    let n: u64 = (len as u64) % 4294967296;
    let mut out: Vec<u8> = Vec::new();
    out.push(((n / 16777216) % 256) as u8);
    out.push(((n / 65536) % 256) as u8);
    out.push(((n / 256) % 256) as u8);
    out.push((n % 256) as u8);
    let mut i: usize = 0;
    while i < len
        invariant
            len == payload@.len(),
            i <= len,
            out@ == be_bytes(len as nat % 4294967296) + payload@.take(i as int),
        decreases len - i,
    {
        out.push(payload[i]);
        assert(payload@.take(i + 1) =~= payload@.take(i as int).push(payload@[i as int]));
        i = i + 1;
    }
    assert(payload@.take(len as int) =~= payload@);
    out
}

/// Reads one frame from the front of `buf`: the payload and the number of
/// bytes the frame took.
pub fn decode_frame(buf: &[u8]) -> (r: Result<(Vec<u8>, usize), FrameError>)
    ensures
        match r {
            Ok((p, used)) => read_frame(buf@) == Ok::<(Seq<u8>, nat), FrameError>((p@, used as nat)),
            Err(e) => read_frame(buf@) == Err::<(Seq<u8>, nat), FrameError>(e),
        },
{
    if buf.len() < 4 {
        return Err(FrameError::Incomplete);
    }
    let len: u64 = (buf[0] as u64) * 16777216 + (buf[1] as u64) * 65536 + (buf[2] as u64) * 256 + (buf[3] as u64);
    assert(len == be_value(buf@.take(4)));
    if len > MAX_FRAME_BYTES as u64 {
        return Err(FrameError::TooLarge(len as u32));
    }
    let n = len as usize;
    if buf.len() - 4 < n {
        return Err(FrameError::Incomplete);
    }
    let payload = crate::text::copy_bytes(buf, 4, 4 + n);
    Ok((payload, 4 + n))
}

/// Law: a frame reads back as its payload, using all of its bytes, for every
/// payload within the limit.
pub proof fn lemma_frame_round_trip(payload: Seq<u8>, rest: Seq<u8>)
    requires
        payload.len() <= MAX_FRAME_BYTES,
    ensures
        read_frame(frame(payload) + rest) == Ok::<(Seq<u8>, nat), FrameError>((payload, 4 + payload.len())),
{
    let n = payload.len();
    let buf = frame(payload) + rest;
    assert(n % 4294967296 == n);
    assert(buf.take(4) =~= be_bytes(n));
    assert(be_value(be_bytes(n)) == n) by (nonlinear_arith)
        requires
            n <= 10485760,
    {
        assert(n / 16777216 == 0);
    }
    assert(buf.subrange(4, 4 + n as int) =~= payload);
}

/// Where a channel is, from the cached guilds: its name, guild id and guild
/// name; an unknown channel is named by its id.
pub open spec fn channel_location(guilds: Seq<GuildInfo>, channel_id: u64) -> (Seq<char>, Option<u64>, Option<Seq<char>>)
    decreases guilds.len(),
{
    if guilds.len() == 0 {
        (dec(channel_id as nat), None, None)
    } else {
        match first_channel(guilds[0].channels@, channel_id) {
            Some(c) => (c.name@, Some(guilds[0].id), Some(guilds[0].name@)),
            None => channel_location(guilds.drop_first(), channel_id),
        }
    }
}

/// The first channel of `channels` with id `channel_id`.
pub open spec fn first_channel(channels: Seq<ChannelInfo>, channel_id: u64) -> Option<ChannelInfo>
    decreases channels.len(),
{
    if channels.len() == 0 {
        None
    } else if channels[0].id == channel_id {
        Some(channels[0])
    } else {
        first_channel(channels.drop_first(), channel_id)
    }
}

fn find_channel(channels: &Vec<ChannelInfo>, channel_id: u64) -> (r: Option<usize>)
    ensures
        match r {
            Some(i) => i < channels@.len() && first_channel(channels@, channel_id) == Some(channels@[i as int]),
            None => first_channel(channels@, channel_id) is None,
        },
{
    let mut i: usize = 0;
    assert(channels@.skip(0) =~= channels@);
    while i < channels.len()
        invariant
            i <= channels@.len(),
            first_channel(channels@, channel_id) == first_channel(channels@.skip(i as int), channel_id),
        decreases channels@.len() - i,
    {
        assert(channels@.skip(i as int)[0] == channels@[i as int]);
        assert(channels@.skip(i as int).drop_first() =~= channels@.skip(i + 1));
        if channels[i].id == channel_id {
            return Some(i);
        }
        i = i + 1;
    }
    None
}

/// Looks a channel up in the cached guilds: (name, guild id, guild name).
pub fn locate_channel(guilds: &Vec<GuildInfo>, channel_id: u64) -> (r: (String, Option<u64>, Option<String>))
    ensures
        (r.0@, r.1, match r.2 {
            Some(n) => Some(n@),
            None => None,
        }) == channel_location(guilds@, channel_id),
{
    let mut g: usize = 0;
    assert(guilds@.skip(0) =~= guilds@);
    while g < guilds.len()
        invariant
            g <= guilds@.len(),
            channel_location(guilds@, channel_id) == channel_location(guilds@.skip(g as int), channel_id),
        decreases guilds@.len() - g,
    {
        assert(guilds@.skip(g as int)[0] == guilds@[g as int]);
        assert(guilds@.skip(g as int).drop_first() =~= guilds@.skip(g + 1));
        match find_channel(&guilds[g].channels, channel_id) {
            Some(c) => {
                return (guilds[g].channels[c].name.clone(), Some(guilds[g].id), Some(guilds[g].name.clone()));
            },
            None => {},
        }
        g = g + 1;
    }
    let mut v: Vec<char> = Vec::new();
    append_decimal(&mut v, channel_id);
    (string_of(v.as_slice()), None, None)
}

/// The reply to a command: whether it succeeded and what to tell the user.
#[derive(Debug, Clone)]
pub struct CommandReply {
    pub success: bool,
    pub message: String,
}

fn reply(success: bool, parts: &[&str]) -> (r: CommandReply)
    ensures
        r.success == success,
        r.message@ == concat_strs(parts@),
{
    let mut v: Vec<char> = Vec::new();
    let mut i: usize = 0;
    while i < parts.len()
        invariant
            i <= parts@.len(),
            v@ == concat_strs(parts@.take(i as int)),
        decreases parts@.len() - i,
    {
        append_str(&mut v, parts[i]);
        assert(parts@.take(i + 1).drop_last() =~= parts@.take(i as int));
        i = i + 1;
    }
    assert(parts@.take(parts@.len() as int) =~= parts@);
    CommandReply { success, message: string_of(v.as_slice()) }
}

/// The texts of `parts`, one after another.
pub open spec fn concat_strs(parts: Seq<&str>) -> Seq<char>
    decreases parts.len(),
{
    if parts.len() == 0 {
        Seq::empty()
    } else {
        concat_strs(parts.drop_last()) + parts.last()@
    }
}

/// The reply when the bot has no Discord connection yet.
pub fn http_missing_reply() -> (r: CommandReply)
    ensures
        !r.success,
        r.message@ == "HTTP client not configured - bot may not be ready"@,
{
    CommandReply { success: false, message: "HTTP client not configured - bot may not be ready".to_owned() }
}

/// The reply when the bot has no database.
pub fn database_missing_reply() -> (r: CommandReply)
    ensures
        !r.success,
        r.message@ == "Database not configured"@,
{
    CommandReply { success: false, message: "Database not configured".to_owned() }
}

/// The reply to sending a message: the new message's id, or the error.
pub fn send_message_reply(result: Result<u64, String>) -> (r: CommandReply)
    ensures
        match result {
            Ok(id) => r.success && r.message@ == "Message sent (id: "@ + dec(id as nat) + ")"@,
            Err(e) => !r.success && r.message@ == "Failed to send message: "@ + e@,
        },
{
    match result {
        Ok(id) => {
            let mut v: Vec<char> = Vec::new();
            append_str(&mut v, "Message sent (id: ");
            append_decimal(&mut v, id);
            append_str(&mut v, ")");
            CommandReply { success: true, message: string_of(v.as_slice()) }
        },
        Err(e) => {
            let r = reply(false, &["Failed to send message: ", e.as_str()]);
            proof {
                reveal_with_fuel(concat_strs, 3);
            }
            assert(r.message@ == "Failed to send message: "@ + e@);
            r
        },
    }
}

/// The reply to toggling a feature.
pub fn set_feature_reply(feature: &str, enabled: bool, result: Result<(), String>) -> (r: CommandReply)
    ensures
        match result {
            Ok(_) => r.success && r.message@ == "Feature '"@ + feature@ + "' "@ + (if enabled {
                "enabled"@
            } else {
                "disabled"@
            }),
            Err(e) => !r.success && r.message@ == "Failed to set feature: "@ + e@,
        },
{
    proof {
        reveal_with_fuel(concat_strs, 5);
    }
    match result {
        Ok(_) => {
            let state = if enabled {
                "enabled"
            } else {
                "disabled"
            };
            reply(true, &["Feature '", feature, "' ", state])
        },
        Err(e) => reply(false, &["Failed to set feature: ", e.as_str()]),
    }
}

/// The persona a channel is set to: none for an empty name.
pub fn channel_persona_choice(persona: &str) -> (r: Option<&str>)
    ensures
        persona@.len() == 0 ==> r is None,
        persona@.len() > 0 ==> r == Some(persona),
{
    proof {
        crate::text::lemma_utf8_len_at_least_len(persona@);
    }
    if crate::text::byte_len(persona) == 0 {
        None
    } else {
        proof {
            if persona@.len() == 0 {
                assert(persona@ =~= Seq::<char>::empty());
                assert(crate::text::utf8_len(persona@) == 0);
            }
        }
        Some(persona)
    }
}

/// The reply to setting a channel's persona.
pub fn channel_persona_reply(persona: &str, result: Result<(), String>) -> (r: CommandReply)
    ensures
        match result {
            Ok(_) => r.success && r.message@ == "Channel persona set to '"@ + persona@ + "'"@,
            Err(e) => !r.success && r.message@ == "Failed to set channel persona: "@ + e@,
        },
{
    proof {
        reveal_with_fuel(concat_strs, 4);
    }
    match result {
        Ok(_) => reply(true, &["Channel persona set to '", persona, "'"]),
        Err(e) => reply(false, &["Failed to set channel persona: ", e.as_str()]),
    }
}

/// The reply to changing a guild setting.
pub fn guild_setting_reply(key: &str, value: &str, result: Result<(), String>) -> (r: CommandReply)
    ensures
        match result {
            Ok(_) => r.success && r.message@ == "Setting '"@ + key@ + "' updated to '"@ + value@ + "'"@,
            Err(e) => !r.success && r.message@ == "Failed to set setting: "@ + e@,
        },
{
    proof {
        reveal_with_fuel(concat_strs, 6);
    }
    match result {
        Ok(_) => reply(true, &["Setting '", key, "' updated to '", value, "'"]),
        Err(e) => reply(false, &["Failed to set setting: ", e.as_str()]),
    }
}

} // verus!
