//! Usage accounting: the cost bucket of each API call, which price tier a
//! model or request falls in, and the disks the system report covers.
//!
//! Prices are whole thousandths of a dollar (per million tokens or
//! characters, per image, per second or per minute); the caller turns them
//! into amounts.

use vstd::prelude::*;
use crate::text::{chars_of, contains_seq, lowercase, starts_with, str_eq, to_lowercase};

verus! {

/// Categorizes API usage by the feature/purpose that triggered it.
#[derive(Debug, Clone, Copy, PartialEq, Eq, Structural)]
pub enum CostBucket {
    /// Generic /ask responses
    Ask,
    /// /introspect command
    Introspect,
    /// Conflict mediation
    Mediation,
    /// /debate turns
    Debate,
    /// /council responses
    Council,
    /// Scheduled reminders
    Reminder,
    /// CLI plugin responses
    Plugin,
    /// Whisper audio transcription
    Transcription,
    /// DALL-E image generation
    Imagine,
    /// Legacy data or unknown source
    Unknown,
}

impl CostBucket {
    /// The name stored in the database.
    pub open spec fn name(self) -> Seq<char> {
        match self {
            CostBucket::Ask => "ask"@,
            CostBucket::Introspect => "introspect"@,
            CostBucket::Mediation => "mediation"@,
            CostBucket::Debate => "debate"@,
            CostBucket::Council => "council"@,
            CostBucket::Reminder => "reminder"@,
            CostBucket::Plugin => "plugin"@,
            CostBucket::Transcription => "transcription"@,
            CostBucket::Imagine => "imagine"@,
            CostBucket::Unknown => "unknown"@,
        }
    }

    /// Get the string representation for database storage.
    pub fn as_str(&self) -> (s: &'static str)
        ensures
            s@ == self.name(),
    {
        match self {
            CostBucket::Ask => "ask",
            CostBucket::Introspect => "introspect",
            CostBucket::Mediation => "mediation",
            CostBucket::Debate => "debate",
            CostBucket::Council => "council",
            CostBucket::Reminder => "reminder",
            CostBucket::Plugin => "plugin",
            CostBucket::Transcription => "transcription",
            CostBucket::Imagine => "imagine",
            CostBucket::Unknown => "unknown",
        }
    }
}

/// The chat model families that are priced apart.
#[derive(Debug, Clone, Copy, PartialEq, Eq, Structural)]
pub enum ChatModel {
    Gpt52Pro,
    Gpt52,
    Gpt51,
    Gpt5Pro,
    Gpt5Nano,
    Gpt5Mini,
    Gpt5,
    Gpt41Nano,
    Gpt41Mini,
    Gpt41,
    Gpt4oMini,
    Gpt4o,
    O4MiniDeepResearch,
    O4Mini,
    O3DeepResearch,
    O3Pro,
    O3Mini,
    O3,
    O1Pro,
    O1Mini,
    O1,
    Gpt4Turbo,
    Gpt4Large,
    Gpt4,
    Gpt35Turbo,
}

/// The price family of a (lower-cased) model name: the first family whose
/// marker the name contains, more specific markers first; unknown models
/// are priced as GPT-3.5 Turbo.
pub open spec fn chat_model(m: Seq<char>) -> ChatModel {
    if contains_seq(m, "gpt-5.2-pro"@) {
        ChatModel::Gpt52Pro
    } else if contains_seq(m, "gpt-5.2"@) {
        ChatModel::Gpt52
    } else if contains_seq(m, "gpt-5.1"@) {
        ChatModel::Gpt51
    } else if contains_seq(m, "gpt-5-pro"@) {
        ChatModel::Gpt5Pro
    } else if contains_seq(m, "gpt-5-nano"@) {
        ChatModel::Gpt5Nano
    } else if contains_seq(m, "gpt-5-mini"@) {
        ChatModel::Gpt5Mini
    } else if contains_seq(m, "gpt-5"@) {
        ChatModel::Gpt5
    } else if contains_seq(m, "gpt-4.1-nano"@) {
        ChatModel::Gpt41Nano
    } else if contains_seq(m, "gpt-4.1-mini"@) {
        ChatModel::Gpt41Mini
    } else if contains_seq(m, "gpt-4.1"@) {
        ChatModel::Gpt41
    } else if contains_seq(m, "gpt-4o-mini"@) {
        ChatModel::Gpt4oMini
    } else if contains_seq(m, "gpt-4o"@) {
        ChatModel::Gpt4o
    } else if contains_seq(m, "o4-mini-deep-research"@) {
        ChatModel::O4MiniDeepResearch
    } else if contains_seq(m, "o4-mini"@) {
        ChatModel::O4Mini
    } else if contains_seq(m, "o3-deep-research"@) {
        ChatModel::O3DeepResearch
    } else if contains_seq(m, "o3-pro"@) {
        ChatModel::O3Pro
    } else if contains_seq(m, "o3-mini"@) {
        ChatModel::O3Mini
    } else if contains_seq(m, "o3"@) {
        ChatModel::O3
    } else if contains_seq(m, "o1-pro"@) {
        ChatModel::O1Pro
    } else if contains_seq(m, "o1-mini"@) {
        ChatModel::O1Mini
    } else if contains_seq(m, "o1"@) {
        ChatModel::O1
    } else if contains_seq(m, "gpt-4-turbo"@) {
        ChatModel::Gpt4Turbo
    } else if contains_seq(m, "gpt-4-32k"@) {
        ChatModel::Gpt4Large
    } else if contains_seq(m, "gpt-4"@) {
        ChatModel::Gpt4
    } else {
        ChatModel::Gpt35Turbo
    }
}

impl ChatModel {
    /// Input and output prices, in thousandths of a dollar per million tokens.
    pub open spec fn rates(self) -> (u64, u64) {
        match self {
            ChatModel::Gpt52Pro => (21000, 168000),
            ChatModel::Gpt52 => (1750, 14000),
            ChatModel::Gpt51 => (1250, 10000),
            ChatModel::Gpt5Pro => (15000, 120000),
            ChatModel::Gpt5Nano => (50, 400),
            ChatModel::Gpt5Mini => (250, 2000),
            ChatModel::Gpt5 => (1250, 10000),
            ChatModel::Gpt41Nano => (100, 400),
            ChatModel::Gpt41Mini => (400, 1600),
            ChatModel::Gpt41 => (2000, 8000),
            ChatModel::Gpt4oMini => (150, 600),
            ChatModel::Gpt4o => (2500, 10000),
            ChatModel::O4MiniDeepResearch => (2000, 8000),
            ChatModel::O4Mini => (1100, 4400),
            ChatModel::O3DeepResearch => (10000, 40000),
            ChatModel::O3Pro => (20000, 80000),
            ChatModel::O3Mini => (1100, 4400),
            ChatModel::O3 => (2000, 8000),
            ChatModel::O1Pro => (150000, 600000),
            ChatModel::O1Mini => (1100, 4400),
            ChatModel::O1 => (15000, 60000),
            ChatModel::Gpt4Turbo => (10000, 30000),
            ChatModel::Gpt4Large => (60000, 120000),
            ChatModel::Gpt4 => (30000, 60000),
            ChatModel::Gpt35Turbo => (500, 1500),
        }
    }

    /// Input and output prices, in thousandths of a dollar per million tokens.
    pub fn milli_per_million(&self) -> (r: (u64, u64))
        ensures
            r == self.rates(),
    {
        match self {
            ChatModel::Gpt52Pro => (21000, 168000),
            ChatModel::Gpt52 => (1750, 14000),
            ChatModel::Gpt51 => (1250, 10000),
            ChatModel::Gpt5Pro => (15000, 120000),
            ChatModel::Gpt5Nano => (50, 400),
            ChatModel::Gpt5Mini => (250, 2000),
            ChatModel::Gpt5 => (1250, 10000),
            ChatModel::Gpt41Nano => (100, 400),
            ChatModel::Gpt41Mini => (400, 1600),
            ChatModel::Gpt41 => (2000, 8000),
            ChatModel::Gpt4oMini => (150, 600),
            ChatModel::Gpt4o => (2500, 10000),
            ChatModel::O4MiniDeepResearch => (2000, 8000),
            ChatModel::O4Mini => (1100, 4400),
            ChatModel::O3DeepResearch => (10000, 40000),
            ChatModel::O3Pro => (20000, 80000),
            ChatModel::O3Mini => (1100, 4400),
            ChatModel::O3 => (2000, 8000),
            ChatModel::O1Pro => (150000, 600000),
            ChatModel::O1Mini => (1100, 4400),
            ChatModel::O1 => (15000, 60000),
            ChatModel::Gpt4Turbo => (10000, 30000),
            ChatModel::Gpt4Large => (60000, 120000),
            ChatModel::Gpt4 => (30000, 60000),
            ChatModel::Gpt35Turbo => (500, 1500),
        }
    }
}

fn has(s: &[char], p: &str) -> (b: bool)
    ensures
        b == contains_seq(s@, p@),
{
    let pc = chars_of(p);
    crate::text::contains_chars(s, pc.as_slice())
}

/// The price family of a model name, in any case.
pub fn chat_model_of(model: &str) -> (m: ChatModel)
    ensures
        m == chat_model(lowercase(model@)),
{
    let lower = to_lowercase(model);
    let s = chars_of(lower.as_str());
    let m = s.as_slice();
    if has(m, "gpt-5.2-pro") {
        ChatModel::Gpt52Pro
    } else if has(m, "gpt-5.2") {
        ChatModel::Gpt52
    } else if has(m, "gpt-5.1") {
        ChatModel::Gpt51
    } else if has(m, "gpt-5-pro") {
        ChatModel::Gpt5Pro
    } else if has(m, "gpt-5-nano") {
        ChatModel::Gpt5Nano
    } else if has(m, "gpt-5-mini") {
        ChatModel::Gpt5Mini
    } else if has(m, "gpt-5") {
        ChatModel::Gpt5
    } else if has(m, "gpt-4.1-nano") {
        ChatModel::Gpt41Nano
    } else if has(m, "gpt-4.1-mini") {
        ChatModel::Gpt41Mini
    } else if has(m, "gpt-4.1") {
        ChatModel::Gpt41
    } else if has(m, "gpt-4o-mini") {
        ChatModel::Gpt4oMini
    } else if has(m, "gpt-4o") {
        ChatModel::Gpt4o
    } else if has(m, "o4-mini-deep-research") {
        ChatModel::O4MiniDeepResearch
    } else if has(m, "o4-mini") {
        ChatModel::O4Mini
    } else if has(m, "o3-deep-research") {
        ChatModel::O3DeepResearch
    } else if has(m, "o3-pro") {
        ChatModel::O3Pro
    } else if has(m, "o3-mini") {
        ChatModel::O3Mini
    } else if has(m, "o3") {
        ChatModel::O3
    } else if has(m, "o1-pro") {
        ChatModel::O1Pro
    } else if has(m, "o1-mini") {
        ChatModel::O1Mini
    } else if has(m, "o1") {
        ChatModel::O1
    } else if has(m, "gpt-4-turbo") {
        ChatModel::Gpt4Turbo
    } else if has(m, "gpt-4-32k") {
        ChatModel::Gpt4Large
    } else if has(m, "gpt-4") {
        ChatModel::Gpt4
    } else {
        ChatModel::Gpt35Turbo
    }
}

/// Whisper's price, in thousandths of a dollar per minute of audio.
pub const WHISPER_MILLI_PER_MINUTE: u64 = 6;

/// The DALL-E 3 price of one image, in thousandths of a dollar: wide sizes
/// (1792 pixels on a side) and HD quality cost more.
pub open spec fn dalle_milli(size: Seq<char>, quality: Seq<char>) -> u64 {
    let wide = contains_seq(size, "1792"@) || contains_seq(size, "1024x1792"@);
    let hd = lowercase(quality) == "hd"@;
    if !wide && !hd {
        40
    } else if !wide && hd {
        80
    } else if wide && !hd {
        80
    } else {
        120
    }
}

/// The DALL-E 3 price of one image of `size` and `quality`.
pub fn dalle_image_milli(size: &str, quality: &str) -> (p: u64)
    ensures
        p == dalle_milli(size@, quality@),
{
    let s = chars_of(size);
    let wide = has(s.as_slice(), "1792") || has(s.as_slice(), "1024x1792");
    let q = to_lowercase(quality);
    let hd = str_eq(q.as_str(), "hd");
    if !wide && !hd {
        40
    } else if !wide && hd {
        80
    } else if wide && !hd {
        80
    } else {
        120
    }
}

/// The GPT Image 1.5 price of one image, in thousandths of a dollar: by
/// quality (low, medium, high; anything else is medium) and whether the
/// size is wide (1536 pixels on a side).
pub open spec fn gpt_image_milli(size: Seq<char>, quality: Seq<char>) -> u64 {
    let wide = contains_seq(size, "1536"@);
    let q = lowercase(quality);
    if q == "low"@ {
        if wide { 13 } else { 9 }
    } else if q == "high"@ {
        if wide { 200 } else { 133 }
    } else if wide {
        50
    } else {
        34
    }
}

/// The GPT Image 1.5 price of one image of `size` and `quality`.
pub fn gpt_image_price_milli(size: &str, quality: &str) -> (p: u64)
    ensures
        p == gpt_image_milli(size@, quality@),
{
    let s = chars_of(size);
    let wide = has(s.as_slice(), "1536");
    let q = to_lowercase(quality);
    if str_eq(q.as_str(), "low") {
        if wide { 13 } else { 9 }
    } else if str_eq(q.as_str(), "high") {
        if wide { 200 } else { 133 }
    } else if wide {
        50
    } else {
        34
    }
}

/// The text-to-speech price, in thousandths of a dollar per million characters.
pub fn tts_milli_per_million(hd: bool) -> (p: u64)
    ensures
        p == if hd { 30000u64 } else { 15000u64 },
{
    if hd {
        30000
    } else {
        15000
    }
}

/// The embedding price, in thousandths of a dollar per million tokens:
/// text-embedding-3-small, -3-large, else ada-002.
pub open spec fn embedding_milli(model: Seq<char>) -> u64 {
    let m = lowercase(model);
    if contains_seq(m, "text-embedding-3-small"@) {
        20
    } else if contains_seq(m, "text-embedding-3-large"@) {
        130
    } else {
        100
    }
}

/// The embedding price of `model`.
pub fn embedding_milli_per_million(model: &str) -> (p: u64)
    ensures
        p == embedding_milli(model@),
{
    let lower = to_lowercase(model);
    let s = chars_of(lower.as_str());
    if has(s.as_slice(), "text-embedding-3-small") {
        20
    } else if has(s.as_slice(), "text-embedding-3-large") {
        130
    } else {
        100
    }
}

/// The Sora price, in thousandths of a dollar per second of video: pro
/// models cost more, the more so at 1024 pixels.
pub open spec fn sora_milli(model: Seq<char>, resolution: Seq<char>) -> u64 {
    if contains_seq(lowercase(model), "pro"@) {
        if contains_seq(resolution, "1024"@) { 500 } else { 300 }
    } else {
        100
    }
}

/// The Sora price per second for `model` at `resolution`.
pub fn sora_milli_per_second(model: &str, resolution: &str) -> (p: u64)
    ensures
        p == sora_milli(model@, resolution@),
{
    let lower = to_lowercase(model);
    let m = chars_of(lower.as_str());
    if has(m.as_slice(), "pro") {
        let r = chars_of(resolution);
        if has(r.as_slice(), "1024") { 500 } else { 300 }
    } else {
        100
    }
}

/// Information about a disk/mount point.
#[derive(Debug, Clone)]
pub struct DiskInfo {
    pub mount: String,
    pub total: u64,
    pub used: u64,
}

/// The system report covers the root, /home and /var mounts.
pub open spec fn reported_mount(mount: Seq<char>) -> bool {
    mount == "/"@ || starts_with(mount, "/home"@) || starts_with(mount, "/var"@)
}

/// Whether the system report covers a mount point.
pub fn is_reported_mount(mount: &str) -> (b: bool)
    ensures
        b == reported_mount(mount@),
{
    let m = chars_of(mount);
    let home = chars_of("/home");
    let var = chars_of("/var");
    str_eq(mount, "/") || crate::text::starts_with_chars(m.as_slice(), home.as_slice())
        || crate::text::starts_with_chars(m.as_slice(), var.as_slice())
}

impl DiskInfo {
    /// A disk's report: used space is what is not available (never below 0).
    pub fn from_space(mount: String, total: u64, available: u64) -> (d: DiskInfo)
        ensures
            d.mount@ == mount@,
            d.total == total,
            d.used == if total >= available {
                (total - available) as u64
            } else {
                0
            },
    {
        DiskInfo { mount, total, used: total.saturating_sub(available) }
    }
}

/// A name that holds `p` holds every prefix of `p`.
proof fn lemma_contains_prefix(s: Seq<char>, p: Seq<char>, n: int)
    requires
        contains_seq(s, p),
        0 <= n <= p.len(),
    ensures
        contains_seq(s, p.take(n)),
{
    let i = choose|i: int| crate::text::occurs_at(s, p, i);
    assert(s.subrange(i, i + n) =~= p.take(n)) by {
        assert forall|j: int| 0 <= j < n implies s.subrange(i, i + n)[j] == p.take(n)[j] by {
            assert(s.subrange(i, i + p.len())[j] == p[j]);
        }
    }
    assert(crate::text::occurs_at(s, p.take(n), i));
}

/// Law: a model name is priced by its most specific marker. A name that holds
/// `gpt-4.1-mini` is priced as GPT-4.1 mini (400 and 1600 thousandths of a
/// dollar per million input and output tokens), not as GPT-4.1, unless it
/// also names GPT-5 or GPT-4.1 nano; likewise the nano, GPT-4o mini and
/// GPT-5 mini and nano names are kept apart from their larger families.
pub proof fn lemma_most_specific_marker(m: Seq<char>)
    ensures
        contains_seq(m, "gpt-4.1-mini"@) && !contains_seq(m, "gpt-5"@) && !contains_seq(m, "gpt-4.1-nano"@) ==> chat_model(m)
            == ChatModel::Gpt41Mini && chat_model(m).rates() == (400u64, 1600u64),
        contains_seq(m, "gpt-4.1-nano"@) && !contains_seq(m, "gpt-5"@) ==> chat_model(m) == ChatModel::Gpt41Nano
            && chat_model(m).rates() == (100u64, 400u64),
        contains_seq(m, "gpt-4.1"@) && !contains_seq(m, "gpt-5"@) && !contains_seq(m, "gpt-4.1-mini"@) && !contains_seq(
            m,
            "gpt-4.1-nano"@,
        ) ==> chat_model(m) == ChatModel::Gpt41 && chat_model(m).rates() == (2000u64, 8000u64),
        contains_seq(m, "gpt-4o-mini"@) && !contains_seq(m, "gpt-5"@) && !contains_seq(m, "gpt-4.1"@) ==> chat_model(m)
            == ChatModel::Gpt4oMini && chat_model(m).rates() == (150u64, 600u64),
        contains_seq(m, "gpt-5-mini"@) && !contains_seq(m, "gpt-5."@) && !contains_seq(m, "gpt-5-pro"@)
            && !contains_seq(m, "gpt-5-nano"@) ==> chat_model(m) == ChatModel::Gpt5Mini && chat_model(m).rates() == (
            250u64,
            2000u64,
        ),
        contains_seq(m, "gpt-5-nano"@) && !contains_seq(m, "gpt-5."@) && !contains_seq(m, "gpt-5-pro"@) ==> chat_model(m)
            == ChatModel::Gpt5Nano && chat_model(m).rates() == (50u64, 400u64),
{
    reveal_strlit("gpt-5.2-pro");
    reveal_strlit("gpt-5.2");
    reveal_strlit("gpt-5.1");
    reveal_strlit("gpt-5-pro");
    reveal_strlit("gpt-5-nano");
    reveal_strlit("gpt-5-mini");
    reveal_strlit("gpt-5.");
    reveal_strlit("gpt-5");
    reveal_strlit("gpt-4.1-nano");
    reveal_strlit("gpt-4.1-mini");
    reveal_strlit("gpt-4.1");
    reveal_strlit("gpt-4o-mini");
    assert("gpt-5.2-pro"@.take(5) =~= "gpt-5"@);
    assert("gpt-5.2"@.take(5) =~= "gpt-5"@);
    assert("gpt-5.1"@.take(5) =~= "gpt-5"@);
    assert("gpt-5-pro"@.take(5) =~= "gpt-5"@);
    assert("gpt-5-nano"@.take(5) =~= "gpt-5"@);
    assert("gpt-5-mini"@.take(5) =~= "gpt-5"@);
    assert("gpt-5.2-pro"@.take(6) =~= "gpt-5."@);
    assert("gpt-5.2"@.take(6) =~= "gpt-5."@);
    assert("gpt-5.1"@.take(6) =~= "gpt-5."@);
    assert("gpt-4.1-mini"@.take(7) =~= "gpt-4.1"@);
    assert("gpt-4.1-nano"@.take(7) =~= "gpt-4.1"@);
    if contains_seq(m, "gpt-5.2-pro"@) {
        lemma_contains_prefix(m, "gpt-5.2-pro"@, 5);
        lemma_contains_prefix(m, "gpt-5.2-pro"@, 6);
    }
    if contains_seq(m, "gpt-5.2"@) {
        lemma_contains_prefix(m, "gpt-5.2"@, 5);
        lemma_contains_prefix(m, "gpt-5.2"@, 6);
    }
    if contains_seq(m, "gpt-5.1"@) {
        lemma_contains_prefix(m, "gpt-5.1"@, 5);
        lemma_contains_prefix(m, "gpt-5.1"@, 6);
    }
    if contains_seq(m, "gpt-5-pro"@) {
        lemma_contains_prefix(m, "gpt-5-pro"@, 5);
    }
    if contains_seq(m, "gpt-5-nano"@) {
        lemma_contains_prefix(m, "gpt-5-nano"@, 5);
    }
    if contains_seq(m, "gpt-5-mini"@) {
        lemma_contains_prefix(m, "gpt-5-mini"@, 5);
    }
    if contains_seq(m, "gpt-4.1-mini"@) {
        lemma_contains_prefix(m, "gpt-4.1-mini"@, 7);
    }
    if contains_seq(m, "gpt-4.1-nano"@) {
        lemma_contains_prefix(m, "gpt-4.1-nano"@, 7);
    }
}

/// A name without `p` holds no text that begins with `p`.
proof fn lemma_absent_extension(s: Seq<char>, p: Seq<char>, q: Seq<char>)
    requires
        !contains_seq(s, p),
        p.len() <= q.len(),
        q.take(p.len() as int) =~= p,
    ensures
        !contains_seq(s, q),
{
    if contains_seq(s, q) {
        lemma_contains_prefix(s, q, p.len() as int);
    }
}

/// Law: every price family is reached, each by its own marker, whatever else
/// the name holds beyond the markers listed with it: for each family, a name
/// that holds its marker and none of the listed more specific or earlier
/// markers is priced by that family, and a name with none of the GPT-5,
/// GPT-4, o4-mini, o3 or o1 markers is priced as GPT-3.5 Turbo.
pub proof fn lemma_every_family_reached(m: Seq<char>)
    ensures
        contains_seq(m, "gpt-5.2-pro"@) ==> chat_model(m) == ChatModel::Gpt52Pro,
        contains_seq(m, "gpt-5.2"@) && !contains_seq(m, "gpt-5.2-pro"@) ==> chat_model(m) == ChatModel::Gpt52,
        contains_seq(m, "gpt-5.1"@) && !contains_seq(m, "gpt-5.2"@) ==> chat_model(m) == ChatModel::Gpt51,
        contains_seq(m, "gpt-5-pro"@) && !contains_seq(m, "gpt-5."@) ==> chat_model(m) == ChatModel::Gpt5Pro,
        contains_seq(m, "gpt-5"@) && !contains_seq(m, "gpt-5."@) && !contains_seq(m, "gpt-5-pro"@) && !contains_seq(
            m,
            "gpt-5-nano"@,
        ) && !contains_seq(m, "gpt-5-mini"@) ==> chat_model(m) == ChatModel::Gpt5,
        contains_seq(m, "gpt-4o"@) && !contains_seq(m, "gpt-5"@) && !contains_seq(m, "gpt-4.1"@) && !contains_seq(
            m,
            "gpt-4o-mini"@,
        ) ==> chat_model(m) == ChatModel::Gpt4o,
        contains_seq(m, "o4-mini-deep-research"@) && !contains_seq(m, "gpt-5"@) && !contains_seq(m, "gpt-4.1"@)
            && !contains_seq(m, "gpt-4o"@) ==> chat_model(m) == ChatModel::O4MiniDeepResearch,
        contains_seq(m, "o4-mini"@) && !contains_seq(m, "gpt-5"@) && !contains_seq(m, "gpt-4.1"@) && !contains_seq(
            m,
            "gpt-4o"@,
        ) && !contains_seq(m, "o4-mini-deep-research"@) ==> chat_model(m) == ChatModel::O4Mini,
        contains_seq(m, "o3-deep-research"@) && !contains_seq(m, "gpt-5"@) && !contains_seq(m, "gpt-4.1"@)
            && !contains_seq(m, "gpt-4o"@) && !contains_seq(m, "o4-mini"@) ==> chat_model(m) == ChatModel::O3DeepResearch,
        contains_seq(m, "o3-pro"@) && !contains_seq(m, "gpt-5"@) && !contains_seq(m, "gpt-4.1"@) && !contains_seq(
            m,
            "gpt-4o"@,
        ) && !contains_seq(m, "o4-mini"@) && !contains_seq(m, "o3-deep-research"@) ==> chat_model(m) == ChatModel::O3Pro,
        contains_seq(m, "o3-mini"@) && !contains_seq(m, "gpt-5"@) && !contains_seq(m, "gpt-4.1"@) && !contains_seq(
            m,
            "gpt-4o"@,
        ) && !contains_seq(m, "o4-mini"@) && !contains_seq(m, "o3-deep-research"@) && !contains_seq(m, "o3-pro"@)
            ==> chat_model(m) == ChatModel::O3Mini,
        contains_seq(m, "o3"@) && !contains_seq(m, "gpt-5"@) && !contains_seq(m, "gpt-4.1"@) && !contains_seq(m, "gpt-4o"@)
            && !contains_seq(m, "o4-mini"@) && !contains_seq(m, "o3-deep-research"@) && !contains_seq(m, "o3-pro"@)
            && !contains_seq(m, "o3-mini"@) ==> chat_model(m) == ChatModel::O3,
        contains_seq(m, "o1-pro"@) && !contains_seq(m, "gpt-5"@) && !contains_seq(m, "gpt-4.1"@) && !contains_seq(
            m,
            "gpt-4o"@,
        ) && !contains_seq(m, "o4-mini"@) && !contains_seq(m, "o3"@) ==> chat_model(m) == ChatModel::O1Pro,
        contains_seq(m, "o1-mini"@) && !contains_seq(m, "gpt-5"@) && !contains_seq(m, "gpt-4.1"@) && !contains_seq(
            m,
            "gpt-4o"@,
        ) && !contains_seq(m, "o4-mini"@) && !contains_seq(m, "o3"@) && !contains_seq(m, "o1-pro"@) ==> chat_model(m)
            == ChatModel::O1Mini,
        contains_seq(m, "o1"@) && !contains_seq(m, "gpt-5"@) && !contains_seq(m, "gpt-4.1"@) && !contains_seq(m, "gpt-4o"@)
            && !contains_seq(m, "o4-mini"@) && !contains_seq(m, "o3"@) && !contains_seq(m, "o1-pro"@) && !contains_seq(
            m,
            "o1-mini"@,
        ) ==> chat_model(m) == ChatModel::O1,
        contains_seq(m, "gpt-4-turbo"@) && !contains_seq(m, "gpt-5"@) && !contains_seq(m, "gpt-4.1"@) && !contains_seq(
            m,
            "gpt-4o"@,
        ) && !contains_seq(m, "o4-mini"@) && !contains_seq(m, "o3"@) && !contains_seq(m, "o1"@) ==> chat_model(m)
            == ChatModel::Gpt4Turbo,
        contains_seq(m, "gpt-4-32k"@) && !contains_seq(m, "gpt-5"@) && !contains_seq(m, "gpt-4.1"@) && !contains_seq(
            m,
            "gpt-4o"@,
        ) && !contains_seq(m, "o4-mini"@) && !contains_seq(m, "o3"@) && !contains_seq(m, "o1"@) && !contains_seq(
            m,
            "gpt-4-turbo"@,
        ) ==> chat_model(m) == ChatModel::Gpt4Large,
        contains_seq(m, "gpt-4"@) && !contains_seq(m, "gpt-5"@) && !contains_seq(m, "gpt-4.1"@) && !contains_seq(
            m,
            "gpt-4o"@,
        ) && !contains_seq(m, "o4-mini"@) && !contains_seq(m, "o3"@) && !contains_seq(m, "o1"@) && !contains_seq(
            m,
            "gpt-4-turbo"@,
        ) && !contains_seq(m, "gpt-4-32k"@) ==> chat_model(m) == ChatModel::Gpt4,
        !contains_seq(m, "gpt-5"@) && !contains_seq(m, "gpt-4"@) && !contains_seq(m, "o4-mini"@) && !contains_seq(
            m,
            "o3"@,
        ) && !contains_seq(m, "o1"@) ==> chat_model(m) == ChatModel::Gpt35Turbo,
{
    reveal_strlit("gpt-5.2-pro");
    reveal_strlit("gpt-5.2");
    reveal_strlit("gpt-5.1");
    reveal_strlit("gpt-5-pro");
    reveal_strlit("gpt-5-nano");
    reveal_strlit("gpt-5-mini");
    reveal_strlit("gpt-5.");
    reveal_strlit("gpt-5");
    reveal_strlit("gpt-4.1-nano");
    reveal_strlit("gpt-4.1-mini");
    reveal_strlit("gpt-4.1");
    reveal_strlit("gpt-4o-mini");
    reveal_strlit("gpt-4o");
    reveal_strlit("o4-mini-deep-research");
    reveal_strlit("o4-mini");
    reveal_strlit("o3-deep-research");
    reveal_strlit("o3-pro");
    reveal_strlit("o3-mini");
    reveal_strlit("o3");
    reveal_strlit("o1-pro");
    reveal_strlit("o1-mini");
    reveal_strlit("o1");
    reveal_strlit("gpt-4-turbo");
    reveal_strlit("gpt-4-32k");
    reveal_strlit("gpt-4");
    let g5 = "gpt-5"@;
    let g5d = "gpt-5."@;
    let g41 = "gpt-4.1"@;
    let g4o = "gpt-4o"@;
    let g4 = "gpt-4"@;
    let o4 = "o4-mini"@;
    let o3 = "o3"@;
    let o1 = "o1"@;
    if !contains_seq(m, g5) {
        lemma_absent_extension(m, g5, "gpt-5.2-pro"@);
        lemma_absent_extension(m, g5, "gpt-5.2"@);
        lemma_absent_extension(m, g5, "gpt-5.1"@);
        lemma_absent_extension(m, g5, "gpt-5-pro"@);
        lemma_absent_extension(m, g5, "gpt-5-nano"@);
        lemma_absent_extension(m, g5, "gpt-5-mini"@);
    }
    if !contains_seq(m, g5d) {
        lemma_absent_extension(m, g5d, "gpt-5.2-pro"@);
        lemma_absent_extension(m, g5d, "gpt-5.2"@);
        lemma_absent_extension(m, g5d, "gpt-5.1"@);
    }
    if !contains_seq(m, "gpt-5.2"@) {
        lemma_absent_extension(m, "gpt-5.2"@, "gpt-5.2-pro"@);
    }
    if !contains_seq(m, g41) {
        lemma_absent_extension(m, g41, "gpt-4.1-nano"@);
        lemma_absent_extension(m, g41, "gpt-4.1-mini"@);
    }
    if !contains_seq(m, g4o) {
        lemma_absent_extension(m, g4o, "gpt-4o-mini"@);
    }
    if !contains_seq(m, g4) {
        lemma_absent_extension(m, g4, "gpt-4.1"@);
        lemma_absent_extension(m, g4, "gpt-4.1-nano"@);
        lemma_absent_extension(m, g4, "gpt-4.1-mini"@);
        lemma_absent_extension(m, g4, "gpt-4o"@);
        lemma_absent_extension(m, g4, "gpt-4o-mini"@);
        lemma_absent_extension(m, g4, "gpt-4-turbo"@);
        lemma_absent_extension(m, g4, "gpt-4-32k"@);
    }
    if !contains_seq(m, o4) {
        lemma_absent_extension(m, o4, "o4-mini-deep-research"@);
    }
    if !contains_seq(m, o3) {
        lemma_absent_extension(m, o3, "o3-deep-research"@);
        lemma_absent_extension(m, o3, "o3-pro"@);
        lemma_absent_extension(m, o3, "o3-mini"@);
    }
    if !contains_seq(m, o1) {
        lemma_absent_extension(m, o1, "o1-pro"@);
        lemma_absent_extension(m, o1, "o1-mini"@);
    }
}

} // verus!
