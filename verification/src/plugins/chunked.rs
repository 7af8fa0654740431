//! The decisions of a chunked transcription: the options a user gives, the
//! bookkeeping as chunks succeed or fail, when summaries and partial
//! transcripts are posted, and the text of what is posted.

use vstd::prelude::*;
use std::collections::HashMap;
use crate::format::word_count_text;
use crate::plugins::manager::{lookup_param, param_value};
use crate::plugins::output::{truncate_ok, truncate_str, truncated, OutputFormat};
use crate::text::{
    append_chars, append_decimal, append_str, chars_of, dec, joined, lower_eq, parse_u64, parse_u64_chars,
    str_eq, string_of,
};

verus! {

/// The options of a chunked transcription.
#[derive(Debug)]
pub struct ChunkedOptions {
    /// each, periodic, all or none
    pub summaries: String,
    /// Chunks between periodic summaries (2 to 20)
    pub summary_interval: u32,
    /// Chunks between partial transcript files (0 = never)
    pub transcript_file_interval: usize,
    /// Extra instructions for every summary
    pub custom_prompt: Option<String>,
    /// Length of a chunk, in seconds (60 to 1800)
    pub chunk_duration_secs: u64,
    /// How transcripts are posted
    pub output_format: OutputFormat,
    /// A summary follows each chunk
    pub generate_per_chunk: bool,
    /// Summaries of several chunks follow at intervals
    pub generate_cumulative: bool,
}

/// `s.parse::<u32>()`.
pub open spec fn parse_u32(s: Seq<char>) -> Option<u32> {
    match parse_u64(s) {
        Some(n) => if n <= u32::MAX {
            Some(n as u32)
        } else {
            None
        },
        None => None,
    }
}

/// `s.parse::<usize>()`.
pub open spec fn parse_usize(s: Seq<char>) -> Option<usize> {
    match parse_u64(s) {
        Some(n) => if n <= usize::MAX {
            Some(n as usize)
        } else {
            None
        },
        None => None,
    }
}

/// `n` kept within `lo..=hi` (`n.max(lo).min(hi)`).
pub open spec fn clamp(n: int, lo: int, hi: int) -> int {
    let m = if n < lo {
        lo
    } else {
        n
    };
    if m > hi {
        hi
    } else {
        m
    }
}

/// The summary style (default `each`).
pub open spec fn summaries_of(v: Option<Seq<char>>) -> Seq<char> {
    match v {
        Some(s) => s,
        None => "each"@,
    }
}

/// The summary interval: the number given, else 5, kept within 2..=20.
pub open spec fn interval_of(v: Option<Seq<char>>) -> u32 {
    clamp(
        match v {
            Some(s) => match parse_u32(s) {
                Some(n) => n as int,
                None => 5,
            },
            None => 5,
        },
        2,
        20,
    ) as u32
}

/// The partial transcript interval: the number given, else 0.
pub open spec fn file_interval_of(v: Option<Seq<char>>) -> usize {
    match v {
        Some(s) => match parse_usize(s) {
            Some(n) => n,
            None => 0,
        },
        None => 0,
    }
}

/// The chunk length in seconds: the minutes given times 60 (wrapping as
/// `u64` arithmetic does in a release build), else the configured default,
/// kept within 60..=1800.
pub open spec fn chunk_secs_of(v: Option<Seq<char>>, default_secs: u64) -> u64 {
    clamp(
        match v {
            Some(s) => match parse_u64(s) {
                Some(m) => ((m as nat * 60) % 0x1_0000_0000_0000_0000) as int,
                None => default_secs as int,
            },
            None => default_secs as int,
        },
        60,
        1800,
    ) as u64
}

/// The output format named (default `Auto`).
pub open spec fn format_of(v: Option<Seq<char>>) -> OutputFormat {
    match v {
        Some(s) => if lower_eq(s, seq!['t', 'e', 'x', 't']) {
            OutputFormat::Text
        } else if lower_eq(s, seq!['f', 'i', 'l', 'e', 's']) {
            OutputFormat::Files
        } else {
            OutputFormat::Auto
        },
        None => OutputFormat::Auto,
    }
}

fn view_of(o: &Option<String>) -> (r: Option<&str>)
    ensures
        match o {
            Some(s) => r matches Some(x) && x@ == s@,
            None => r is None,
        },
{
    match o {
        Some(s) => Some(s.as_str()),
        None => None,
    }
}

/// The view of an optional borrowed string.
pub open spec fn ref_view(o: Option<&str>) -> Option<Seq<char>> {
    match o {
        Some(s) => Some(s@),
        None => None,
    }
}

fn parse_opt_u64(v: Option<&str>) -> (r: Option<u64>)
    ensures
        r == match v {
            Some(s) => parse_u64(s@),
            None => None,
        },
{
    match v {
        Some(s) => {
            let cs = chars_of(s);
            parse_u64_chars(cs.as_slice())
        },
        None => None,
    }
}

impl ChunkedOptions {
    /// The options from the values given for `summaries`, `summary_interval`,
    /// `transcript_file_interval`, `custom_prompt`, `chunk_duration` (minutes)
    /// and `output_format`.
    pub fn from_values(
        summaries: Option<&str>,
        summary_interval: Option<&str>,
        transcript_file_interval: Option<&str>,
        custom_prompt: Option<&str>,
        chunk_duration: Option<&str>,
        output_format: Option<&str>,
        default_chunk_secs: u64,
    ) -> (o: Self)
        ensures
            o.summaries@ == summaries_of(ref_view(summaries)),
            o.summary_interval == interval_of(ref_view(summary_interval)),
            o.transcript_file_interval == file_interval_of(ref_view(transcript_file_interval)),
            match custom_prompt {
                Some(c) => o.custom_prompt matches Some(p) && p@ == c@,
                None => o.custom_prompt is None,
            },
            o.chunk_duration_secs == chunk_secs_of(ref_view(chunk_duration), default_chunk_secs),
            o.output_format == format_of(ref_view(output_format)),
            o.generate_per_chunk == (o.summaries@ == "each"@ || o.summaries@ == "all"@),
            o.generate_cumulative == (o.summaries@ == "periodic"@ || o.summaries@ == "all"@),
    {
        let summaries_s = match summaries {
            Some(s) => s.to_owned(),
            None => "each".to_owned(),
        };
        let interval: u32 = match parse_opt_u64(summary_interval) {
            Some(n) => if n <= u32::MAX as u64 {
                n as u32
            } else {
                5
            },
            None => 5,
        };
        let interval = if interval < 2 {
            2
        } else {
            interval
        };
        let interval = if interval > 20 {
            20
        } else {
            interval
        };
        let file_interval: usize = match parse_opt_u64(transcript_file_interval) {
            Some(n) => if n <= usize::MAX as u64 {
                n as usize
            } else {
                0
            },
            None => 0,
        };
        let secs: u64 = match parse_opt_u64(chunk_duration) {
            Some(m) => m.wrapping_mul(60),
            None => default_chunk_secs,
        };
        let secs = if secs < 60 {
            60
        } else {
            secs
        };
        let secs = if secs > 1800 {
            1800
        } else {
            secs
        };
        let format = match output_format {
            Some(s) => OutputFormat::from_str(s),
            None => OutputFormat::Auto,
        };
        let per_chunk = str_eq(summaries_s.as_str(), "each") || str_eq(summaries_s.as_str(), "all");
        let cumulative = str_eq(summaries_s.as_str(), "periodic") || str_eq(summaries_s.as_str(), "all");
        ChunkedOptions {
            summaries: summaries_s,
            summary_interval: interval,
            transcript_file_interval: file_interval,
            custom_prompt: match custom_prompt {
                Some(c) => Some(c.to_owned()),
                None => None,
            },
            chunk_duration_secs: secs,
            output_format: format,
            generate_per_chunk: per_chunk,
            generate_cumulative: cumulative,
        }
    }

    /// The options from a command's parameters.
    pub fn from_params(params: &HashMap<String, String>, default_chunk_secs: u64) -> (o: Self)
        ensures
            exists|v: (Option<Seq<char>>, Option<Seq<char>>, Option<Seq<char>>, Option<Seq<char>>, Option<Seq<char>>, Option<Seq<char>>)|
                {
                    &&& #[trigger] param_value(params@, "summaries"@, v.0)
                    &&& param_value(params@, "summary_interval"@, v.1)
                    &&& param_value(params@, "transcript_file_interval"@, v.2)
                    &&& param_value(params@, "custom_prompt"@, v.3)
                    &&& param_value(params@, "chunk_duration"@, v.4)
                    &&& param_value(params@, "output_format"@, v.5)
                    &&& o.summaries@ == summaries_of(v.0)
                    &&& o.summary_interval == interval_of(v.1)
                    &&& o.transcript_file_interval == file_interval_of(v.2)
                    &&& (match o.custom_prompt {
                        Some(p) => Some(p@),
                        None => None,
                    }) == v.3
                    &&& o.chunk_duration_secs == chunk_secs_of(v.4, default_chunk_secs)
                    &&& o.output_format == format_of(v.5)
                    &&& o.generate_per_chunk == (o.summaries@ == "each"@ || o.summaries@ == "all"@)
                    &&& o.generate_cumulative == (o.summaries@ == "periodic"@ || o.summaries@ == "all"@)
                },
    {
        let a = lookup_param(params, "summaries");
        let b = lookup_param(params, "summary_interval");
        let c = lookup_param(params, "transcript_file_interval");
        let d = lookup_param(params, "custom_prompt");
        let e = lookup_param(params, "chunk_duration");
        let f = lookup_param(params, "output_format");
        let o = Self::from_values(
            view_of(&a),
            view_of(&b),
            view_of(&c),
            view_of(&d),
            view_of(&e),
            view_of(&f),
            default_chunk_secs,
        );
        proof {
            let v = (
                match a {
                    Some(s) => Some(s@),
                    None => None::<Seq<char>>,
                },
                match b {
                    Some(s) => Some(s@),
                    None => None::<Seq<char>>,
                },
                match c {
                    Some(s) => Some(s@),
                    None => None::<Seq<char>>,
                },
                match d {
                    Some(s) => Some(s@),
                    None => None::<Seq<char>>,
                },
                match e {
                    Some(s) => Some(s@),
                    None => None::<Seq<char>>,
                },
                match f {
                    Some(s) => Some(s@),
                    None => None::<Seq<char>>,
                },
            );
            assert(param_value(params@, "summaries"@, v.0));
        }
        o
    }
}

/// The bookkeeping of a chunked transcription: chunks handled, the combined
/// transcript, the summaries gathered, and the summaries already covered by a
/// periodic summary.
pub struct ChunkRun {
    total: usize,
    processed: usize,
    completed: usize,
    failed: usize,
    combined: Vec<char>,
    summaries: Vec<String>,
    last_summary: usize,
}

/// A chunk's part of the combined transcript.
pub open spec fn part_text(chunk_num: nat, total: nat, text: Seq<char>) -> Seq<char> {
    "--- Part "@ + dec(chunk_num) + "/"@ + dec(total) + " ---\n"@ + text
}

/// The views of some strings.
pub open spec fn texts(v: Seq<String>) -> Seq<Seq<char>> {
    v.map_values(|s: String| s@)
}

impl ChunkRun {
    pub closed spec fn total(&self) -> usize {
        self.total
    }

    pub closed spec fn processed(&self) -> usize {
        self.processed
    }

    pub closed spec fn completed(&self) -> usize {
        self.completed
    }

    pub closed spec fn failed(&self) -> usize {
        self.failed
    }

    /// The combined transcript so far.
    pub closed spec fn combined(&self) -> Seq<char> {
        self.combined@
    }

    /// The summaries gathered so far.
    pub closed spec fn summaries(&self) -> Seq<Seq<char>> {
        texts(self.summaries@)
    }

    /// How many summaries a periodic summary already covers.
    pub closed spec fn covered(&self) -> usize {
        self.last_summary
    }

    /// Every handled chunk is counted once; no more chunks are handled than
    /// there are; periodic summaries cover only gathered summaries.
    pub closed spec fn wf(&self) -> bool {
        &&& self.completed + self.failed == self.processed
        &&& self.processed <= self.total
        &&& self.last_summary <= self.summaries@.len()
    }

    /// A run over `total` chunks.
    pub fn new(total: usize) -> (r: Self)
        ensures
            r.wf(),
            r.total() == total,
            r.processed() == 0,
            r.completed() == 0,
            r.failed() == 0,
            r.combined().len() == 0,
            r.summaries().len() == 0,
            r.covered() == 0,
    {
        ChunkRun {
            total,
            processed: 0,
            completed: 0,
            failed: 0,
            combined: Vec::new(),
            summaries: Vec::new(),
            last_summary: 0,
        }
    }

    /// The number of the next chunk, counted from 1.
    pub fn next_chunk(&self) -> (n: usize)
        requires
            self.wf(),
            self.processed() < self.total(),
        ensures
            n == self.processed() + 1,
    {
        self.processed + 1
    }

    /// Records a transcribed chunk: its part is appended to the combined
    /// transcript, after a blank line when there is text before it.
    pub fn chunk_succeeded(&mut self, text: &str)
        requires
            old(self).wf(),
            old(self).processed() < old(self).total(),
        ensures
            final(self).wf(),
            final(self).total() == old(self).total(),
            final(self).processed() == old(self).processed() + 1,
            final(self).completed() == old(self).completed() + 1,
            final(self).failed() == old(self).failed(),
            final(self).combined() == old(self).combined() + (if old(self).combined().len() > 0 {
                "\n\n"@
            } else {
                Seq::<char>::empty()
            }) + part_text((old(self).processed() + 1) as nat, old(self).total() as nat, text@),
            final(self).summaries() == old(self).summaries(),
            final(self).covered() == old(self).covered(),
    {
        let n = self.processed + 1;
        let ghost before = self.combined@;
        if self.combined.len() > 0 {
            append_str(&mut self.combined, "\n\n");
        } else {
            assert(before + Seq::<char>::empty() =~= before);
        }
        append_str(&mut self.combined, "--- Part ");
        append_decimal(&mut self.combined, n as u64);
        append_str(&mut self.combined, "/");
        append_decimal(&mut self.combined, self.total as u64);
        append_str(&mut self.combined, " ---\n");
        append_str(&mut self.combined, text);
        self.processed = n;
        self.completed = self.completed + 1;
    }

    /// Records a chunk that could not be transcribed.
    pub fn chunk_failed(&mut self)
        requires
            old(self).wf(),
            old(self).processed() < old(self).total(),
        ensures
            final(self).wf(),
            final(self).total() == old(self).total(),
            final(self).processed() == old(self).processed() + 1,
            final(self).completed() == old(self).completed(),
            final(self).failed() == old(self).failed() + 1,
            final(self).combined() == old(self).combined(),
            final(self).summaries() == old(self).summaries(),
            final(self).covered() == old(self).covered(),
    {
        self.processed = self.processed + 1;
        self.failed = self.failed + 1;
    }

    /// Gathers the summary of a chunk.
    pub fn add_summary(&mut self, summary: String)
        requires
            old(self).wf(),
        ensures
            final(self).wf(),
            final(self).summaries() == old(self).summaries().push(summary@),
            final(self).covered() == old(self).covered(),
            final(self).processed() == old(self).processed(),
            final(self).completed() == old(self).completed(),
            final(self).failed() == old(self).failed(),
            final(self).total() == old(self).total(),
            final(self).combined() == old(self).combined(),
    {
        let ghost before = self.summaries@;
        self.summaries.push(summary);
        assert(texts(self.summaries@) =~= texts(before).push(self.summaries@.last()@));
    }

    /// Whether a periodic summary is due after chunk `chunk_num`: periodic
    /// summaries are on, more than one summary is gathered, and the chunk
    /// number is a multiple of the interval.
    pub fn window_due(&self, chunk_num: usize, interval: u32, cumulative: bool) -> (b: bool)
        requires
            interval > 0,
        ensures
            b == (cumulative && self.summaries().len() > 1 && (chunk_num as u32) % interval == 0),
    {
        cumulative && self.summaries.len() > 1 && (chunk_num as u32) % interval == 0
    }

    /// The summaries not yet covered by a periodic summary, joined by a rule,
    /// with the part number the window starts at.
    pub fn window(&self) -> (r: (usize, String))
        requires
            self.wf(),
            self.covered() < usize::MAX,
        ensures
            r.0 == self.covered() + 1,
            r.1@ == joined(self.summaries().skip(self.covered() as int), "\n\n---\n\n"@),
    {
        let s = join_from(&self.summaries, self.last_summary, "\n\n---\n\n");
        (self.last_summary + 1, s)
    }

    /// Marks every gathered summary covered by the periodic summary just posted.
    pub fn window_posted(&mut self)
        requires
            old(self).wf(),
        ensures
            final(self).wf(),
            final(self).covered() == old(self).summaries().len(),
            final(self).summaries() == old(self).summaries(),
            final(self).processed() == old(self).processed(),
            final(self).completed() == old(self).completed(),
            final(self).failed() == old(self).failed(),
            final(self).total() == old(self).total(),
            final(self).combined() == old(self).combined(),
    {
        self.last_summary = self.summaries.len();
    }

    /// All gathered summaries, joined by a rule.
    pub fn all_summaries(&self) -> (s: String)
        ensures
            s@ == joined(self.summaries(), "\n\n---\n\n"@),
    {
        let s = join_from(&self.summaries, 0, "\n\n---\n\n");
        assert(self.summaries().skip(0) =~= self.summaries());
        s
    }

    /// The combined transcript.
    pub fn combined_transcript(&self) -> (s: String)
        ensures
            s@ == self.combined(),
    {
        string_of(self.combined.as_slice())
    }

    /// The counts (completed, failed).
    pub fn counts(&self) -> (c: (usize, usize))
        ensures
            c == (self.completed(), self.failed()),
    {
        (self.completed, self.failed)
    }
}

/// Law: a chunked run counts every handled chunk once, as a success or a
/// failure, and periodic summaries never cover more than was gathered.
pub proof fn lemma_chunk_counts(r: ChunkRun)
    requires
        r.wf(),
    ensures
        r.completed() + r.failed() == r.processed(),
        r.processed() <= r.total(),
        r.covered() <= r.summaries().len(),
{
}

fn join_from(v: &Vec<String>, from: usize, sep: &str) -> (s: String)
    requires
        from <= v@.len(),
    ensures
        s@ == joined(texts(v@).skip(from as int), sep@),
{
    let mut out: Vec<char> = Vec::new();
    let mut i: usize = from;
    assert(texts(v@).skip(from as int).take(0) =~= Seq::<Seq<char>>::empty());
    while i < v.len()
        invariant
            from <= i <= v@.len(),
            out@ == joined(texts(v@).skip(from as int).take(i - from), sep@),
        decreases v@.len() - i,
    {
        let ghost t = texts(v@).skip(from as int);
        assert(t.take(i + 1 - from).drop_last() =~= t.take(i - from));
        assert(t.take(i + 1 - from).last() == v@[i as int]@);
        if i > from {
            append_str(&mut out, sep);
        }
        append_str(&mut out, v[i].as_str());
        i = i + 1;
    }
    assert(texts(v@).skip(from as int).take(v@.len() - from) =~= texts(v@).skip(from as int));
    string_of(out.as_slice())
}

/// A prompt with the user's extra instructions appended, if any.
pub fn with_custom_instructions(base: &str, custom: Option<&str>) -> (s: String)
    ensures
        match custom {
            Some(c) => s@ == base@ + "\n\nAdditional instructions: "@ + c@,
            None => s@ == base@,
        },
{
    let mut v: Vec<char> = Vec::new();
    append_str(&mut v, base);
    match custom {
        Some(c) => {
            append_str(&mut v, "\n\nAdditional instructions: ");
            append_str(&mut v, c);
        },
        None => {},
    }
    string_of(v.as_slice())
}

/// The prompt of a periodic summary of parts `start`..=`end`.
pub open spec fn window_template_text(start: nat, end: nat) -> Seq<char> {
    "Summarize what was covered in parts "@ + dec(start) + "-"@ + dec(end)
        + " of this video transcript. Be conversational - capture the main topics and key points discussed. No formal structure or conclusions needed.\n\nSection summaries:\n${output}"@
}

/// The prompt of a periodic summary of parts `start`..=`end`.
pub fn window_template(start: usize, end: usize, custom: Option<&str>) -> (s: String)
    ensures
        match custom {
            Some(c) => s@ == window_template_text(start as nat, end as nat) + "\n\nAdditional instructions: "@ + c@,
            None => s@ == window_template_text(start as nat, end as nat),
        },
{
    let mut v: Vec<char> = Vec::new();
    append_str(&mut v, "Summarize what was covered in parts ");
    append_decimal(&mut v, start as u64);
    append_str(&mut v, "-");
    append_decimal(&mut v, end as u64);
    append_str(&mut v, " of this video transcript. Be conversational - capture the main topics and key points discussed. No formal structure or conclusions needed.\n\nSection summaries:\n${output}");
    let base = string_of(v.as_slice());
    with_custom_instructions(base.as_str(), custom)
}

/// The prompt of the overall summary.
pub open spec fn overall_template_text() -> Seq<char> {
    "Based on these section summaries from a longer video, provide a comprehensive overall summary that synthesizes the key themes, main points, and conclusions across all sections:\n\n${output}"@
}

/// The prompt of the overall summary, with the user's instructions.
pub fn overall_template(custom: Option<&str>) -> (s: String)
    ensures
        match custom {
            Some(c) => s@ == overall_template_text() + "\n\nAdditional instructions: "@ + c@,
            None => s@ == overall_template_text(),
        },
{
    with_custom_instructions(
        "Based on these section summaries from a longer video, provide a comprehensive overall summary that synthesizes the key themes, main points, and conclusions across all sections:\n\n${output}",
        custom,
    )
}

/// A chunk's transcript posted as text.
pub fn part_message(chunk_num: usize, total: usize, content: &str) -> (s: String)
    ensures
        s@ == "### \u{1F4DC} Part "@ + dec(chunk_num as nat) + "/"@ + dec(total as nat) + "\n\n>>> "@ + content@,
{
    let mut v: Vec<char> = Vec::new();
    append_str(&mut v, "### \u{1F4DC} Part ");
    append_decimal(&mut v, chunk_num as u64);
    append_str(&mut v, "/");
    append_decimal(&mut v, total as u64);
    append_str(&mut v, "\n\n>>> ");
    append_str(&mut v, content);
    string_of(v.as_slice())
}

/// The file name of a chunk's transcript: `part-{n}-of-{total}.txt`.
pub fn part_filename(chunk_num: usize, total: usize) -> (s: String)
    ensures
        s@ == "part-"@ + dec(chunk_num as nat) + "-of-"@ + dec(total as nat) + ".txt"@,
{
    let mut v: Vec<char> = Vec::new();
    append_str(&mut v, "part-");
    append_decimal(&mut v, chunk_num as u64);
    append_str(&mut v, "-of-");
    append_decimal(&mut v, total as u64);
    append_str(&mut v, ".txt");
    string_of(v.as_slice())
}

/// A chunk's summary message.
pub fn chunk_summary_message(chunk_num: usize, total: usize, summary: &str) -> (s: String)
    ensures
        s@ == "### \u{1F4A1} Summary (Part "@ + dec(chunk_num as nat) + "/"@ + dec(total as nat) + ")\n\n"@ + summary@,
{
    let mut v: Vec<char> = Vec::new();
    append_str(&mut v, "### \u{1F4A1} Summary (Part ");
    append_decimal(&mut v, chunk_num as u64);
    append_str(&mut v, "/");
    append_decimal(&mut v, total as u64);
    append_str(&mut v, ")\n\n");
    append_str(&mut v, summary);
    string_of(v.as_slice())
}

/// A periodic summary message.
pub fn window_summary_message(start: usize, end: usize, summary: &str) -> (s: String)
    ensures
        s@ == "### \u{1F4A1} Summary (Parts "@ + dec(start as nat) + "-"@ + dec(end as nat) + ")\n\n"@ + summary@,
{
    let mut v: Vec<char> = Vec::new();
    append_str(&mut v, "### \u{1F4A1} Summary (Parts ");
    append_decimal(&mut v, start as u64);
    append_str(&mut v, "-");
    append_decimal(&mut v, end as u64);
    append_str(&mut v, ")\n\n");
    append_str(&mut v, summary);
    string_of(v.as_slice())
}

/// Whether a partial transcript file is due after chunk `chunk_num`.
pub fn partial_due(chunk_num: usize, file_interval: usize) -> (b: bool)
    ensures
        b == (file_interval > 0 && chunk_num % file_interval == 0),
{
    file_interval > 0 && chunk_num % file_interval == 0
}

/// The file name of a partial transcript.
pub fn partial_filename(chunk_num: usize) -> (s: String)
    ensures
        s@ == "transcript_parts_1-"@ + dec(chunk_num as nat) + ".txt"@,
{
    let mut v: Vec<char> = Vec::new();
    append_str(&mut v, "transcript_parts_1-");
    append_decimal(&mut v, chunk_num as u64);
    append_str(&mut v, ".txt");
    string_of(v.as_slice())
}

/// The note that goes with a partial transcript.
pub fn partial_message(chunk_num: usize, words: usize) -> (s: String)
    ensures
        s@ == "\u{1F4DC} **Partial transcript** (parts 1-"@ + dec(chunk_num as nat) + ", "@ + dec(words as nat)
            + " words)"@,
{
    let mut v: Vec<char> = Vec::new();
    append_str(&mut v, "\u{1F4DC} **Partial transcript** (parts 1-");
    append_decimal(&mut v, chunk_num as u64);
    append_str(&mut v, ", ");
    append_decimal(&mut v, words as u64);
    append_str(&mut v, " words)");
    string_of(v.as_slice())
}

/// The error of a chunk that did not transcribe.
pub fn chunk_error(timed_out: bool, stderr: &str) -> (s: String)
    ensures
        timed_out ==> s@ == "Chunk timed out"@,
        !timed_out ==> s@ == stderr@,
{
    if timed_out {
        "Chunk timed out".to_owned()
    } else {
        stderr.to_owned()
    }
}

/// The closing statistics of a chunked transcription.
pub open spec fn completion_text(
    failed: nat,
    title: Seq<char>,
    short_id: Seq<char>,
    completed: nat,
    total: nat,
    words: nat,
    runtime: Seq<char>,
    url: Seq<char>,
) -> Seq<char> {
    "---\n\n## "@ + (if failed == 0 {
        "\u{1F4DD}"@
    } else {
        "\u{26A0}\u{FE0F}"@
    }) + " Transcription Complete: "@ + truncated(title, 60) + "\nJob: `"@ + short_id + "`\n\n**Stats:** "@
        + dec(completed) + "/"@ + dec(total) + " parts \u{2022} "@ + word_count_text(words) + " words \u{2022} **Runtime:** "@
        + runtime + "\n\n"@ + url
}

/// The closing statistics message.
pub fn completion_message(
    failed: usize,
    title: &str,
    short_id: &str,
    completed: usize,
    total: usize,
    words: usize,
    runtime: &str,
    url: &str,
) -> (s: String)
    requires
        truncate_ok(title@, 60),
    ensures
        s@ == completion_text(
            failed as nat,
            title@,
            short_id@,
            completed as nat,
            total as nat,
            words as nat,
            runtime@,
            url@,
        ),
{
    let mut v: Vec<char> = Vec::new();
    append_str(&mut v, "---\n\n## ");
    if failed == 0 {
        append_str(&mut v, "\u{1F4DD}");
    } else {
        append_str(&mut v, "\u{26A0}\u{FE0F}");
    }
    append_str(&mut v, " Transcription Complete: ");
    append_str(&mut v, truncate_str(title, 60).as_str());
    append_str(&mut v, "\nJob: `");
    append_str(&mut v, short_id);
    append_str(&mut v, "`\n\n**Stats:** ");
    append_decimal(&mut v, completed as u64);
    append_str(&mut v, "/");
    append_decimal(&mut v, total as u64);
    append_str(&mut v, " parts \u{2022} ");
    append_str(&mut v, crate::format::format_word_count(words).as_str());
    append_str(&mut v, " words \u{2022} **Runtime:** ");
    append_str(&mut v, runtime);
    append_str(&mut v, "\n\n");
    append_str(&mut v, url);
    string_of(v.as_slice())
}

/// The result recorded on the job: how many parts completed, or how many failed.
pub fn job_outcome(completed: usize, failed: usize, total: usize) -> (r: Result<String, String>)
    ensures
        failed == 0 ==> (r matches Ok(s) && s@ == "Completed "@ + dec(completed as nat) + " parts"@),
        failed > 0 ==> (r matches Err(s) && s@ == dec(failed as nat) + "/"@ + dec(total as nat) + " parts failed"@),
{
    let mut v: Vec<char> = Vec::new();
    if failed == 0 {
        append_str(&mut v, "Completed ");
        append_decimal(&mut v, completed as u64);
        append_str(&mut v, " parts");
        Ok(string_of(v.as_slice()))
    } else {
        append_decimal(&mut v, failed as u64);
        append_str(&mut v, "/");
        append_decimal(&mut v, total as u64);
        append_str(&mut v, " parts failed");
        Err(string_of(v.as_slice()))
    }
}

} // verus!
