//! The text of the messages a plugin run posts: errors, results, playlist and
//! chunk progress, and the names of the files it attaches.

use vstd::prelude::*;
use crate::plugins::output::{
    create_progress_bar, progress_bar_ok, progress_bar_text, sanitize_filename, sanitized_filename, truncate_ok,
    truncate_str, truncated,
};
use crate::plugins::youtube::{duration_text, format_duration};
use crate::text::{
    append_decimal, append_str, byte_len, byte_prefix, byte_take, chars_of, dec, dec3, is_boundary, replace_all,
    replace_chars, string_of, utf8_len,
};

verus! {

/// `template` with `${key}` replaced by `value` everywhere.
fn fill(template: &str, key: &str, value: &str) -> (s: String)
    ensures
        s@ == replace_all(template@, key@, value@),
{
    let t = chars_of(template);
    let k = chars_of(key);
    let v = chars_of(value);
    let out = replace_chars(t.as_slice(), k.as_slice(), v.as_slice());
    string_of(out.as_slice())
}

/// The system message of every summary request.
pub const SUMMARY_SYSTEM_PROMPT: &'static str =
    "You are a helpful assistant that creates concise summaries. Keep summaries brief and focused on the key points.";

/// What a summary is asked of: the output, cut to its first 8000 bytes with a
/// note when it is longer.
pub open spec fn summary_input(output: Seq<char>) -> Seq<char> {
    if utf8_len(output) > 8000 {
        byte_take(output, 8000) + "...\n\n[Content truncated for summarization]"@
    } else {
        output
    }
}

/// The user message of a summary request: `prompt_template` with
/// `${output}` filled in by the summary input (`&output[..8000]` must be a
/// character boundary when the output is longer).
pub fn summary_prompt(output: &str, prompt_template: &str) -> (s: String)
    requires
        utf8_len(output@) > 8000 ==> is_boundary(output@, 8000),
    ensures
        s@ == replace_all(prompt_template@, "${output}"@, summary_input(output@)),
{
    let cs = chars_of(output);
    let input = if byte_len(output) > 8000 {
        let mut v = byte_prefix(cs.as_slice(), 8000);
        append_str(&mut v, "...\n\n[Content truncated for summarization]");
        string_of(v.as_slice())
    } else {
        string_of(cs.as_slice())
    };
    fill(prompt_template, "${output}", input.as_str())
}

/// The id a summary request's usage is logged under: `plugin_` and the
/// request context, when there is one.
pub fn summary_request_id(context: Option<&str>) -> (r: Option<String>)
    ensures
        match context {
            Some(c) => r matches Some(id) && id@ == "plugin_"@ + c@,
            None => r is None,
        },
{
    match context {
        Some(c) => {
            let mut v: Vec<char> = Vec::new();
            append_str(&mut v, "plugin_");
            append_str(&mut v, c);
            Some(string_of(v.as_slice()))
        },
        None => None,
    }
}

/// An error as posted: the configured template with `${error}` filled in, or
/// `**Error:** {error}`.
pub open spec fn error_body(error: Seq<char>, template: Option<Seq<char>>) -> Seq<char> {
    match template {
        Some(t) => replace_all(t, "${error}"@, error),
        None => "**Error:** "@ + error,
    }
}

/// The error message of a run, cut to 1900 bytes.
pub fn error_message(error: &str, template: Option<&str>) -> (s: String)
    requires
        truncate_ok(
            error_body(
                error@,
                match template {
                    Some(t) => Some(t@),
                    None => None,
                },
            ),
            1900,
        ),
    ensures
        s@ == truncated(
            error_body(
                error@,
                match template {
                    Some(t) => Some(t@),
                    None => None,
                },
            ),
            1900,
        ),
{
    let body = match template {
        Some(t) => fill(t, "${error}", error),
        None => {
            let mut v: Vec<char> = Vec::new();
            append_str(&mut v, "**Error:** ");
            append_str(&mut v, error);
            string_of(v.as_slice())
        },
    };
    truncate_str(body.as_str(), 1900)
}

/// How a result is posted: as a file when the output asks for files and the
/// result is longer than the inline limit.
pub fn result_as_file(post_as_file: bool, output_len: usize, max_inline_length: usize) -> (b: bool)
    ensures
        b == (post_as_file && output_len > max_inline_length),
{
    post_as_file && output_len > max_inline_length
}

/// The heading of a result posted as a file, when no summary is made.
pub fn output_heading(output_len: usize) -> (s: String)
    ensures
        s@ == "**Output** ("@ + dec(output_len as nat) + " characters)"@,
{
    let mut v: Vec<char> = Vec::new();
    append_str(&mut v, "**Output** (");
    append_decimal(&mut v, output_len as u64);
    append_str(&mut v, " characters)");
    string_of(v.as_slice())
}

/// A file name from the configured template (or `default_name`) with
/// `${timestamp}` filled in.
pub fn templated_filename(template: Option<&str>, default_name: &str, timestamp: &str) -> (s: String)
    ensures
        s@ == replace_all(
            match template {
                Some(t) => t@,
                None => default_name@,
            },
            "${timestamp}"@,
            timestamp@,
        ),
{
    let t = match template {
        Some(t) => t,
        None => default_name,
    };
    fill(t, "${timestamp}", timestamp)
}

/// The note that goes with a full transcript file.
pub fn transcript_note(chars: usize) -> (s: String)
    ensures
        s@ == "\u{1F4C4} **Full transcript** ("@ + dec(chars as nat) + " characters)"@,
{
    let mut v: Vec<char> = Vec::new();
    append_str(&mut v, "\u{1F4C4} **Full transcript** (");
    append_decimal(&mut v, chars as u64);
    append_str(&mut v, " characters)");
    string_of(v.as_slice())
}

/// An estimate as shown: the duration, or "calculating..." when there is none.
pub open spec fn eta_text(eta_secs: Option<u64>) -> Seq<char> {
    match eta_secs {
        Some(s) => duration_text(s as nat),
        None => "calculating..."@,
    }
}

fn append_eta(v: &mut Vec<char>, eta_secs: Option<u64>)
    ensures
        final(v)@ == old(v)@ + eta_text(eta_secs),
{
    match eta_secs {
        Some(s) => append_str(v, format_duration(s).as_str()),
        None => append_str(v, "calculating..."),
    }
}

/// The progress of a playlist run.
pub open spec fn playlist_progress_text(current: u32, total: u32, title: Seq<char>, eta_secs: Option<u64>) -> Seq<char> {
    "\u{23F3} **Processing playlist:** "@ + dec(current as nat) + "/"@ + dec(total as nat) + " videos | Currently: \""@
        + truncated(title, 40) + "\" | ETA: "@ + eta_text(eta_secs)
}

/// The progress message of a playlist run.
pub fn playlist_progress(current: u32, total: u32, title: &str, eta_secs: Option<u64>) -> (s: String)
    requires
        truncate_ok(title@, 40),
    ensures
        s@ == playlist_progress_text(current, total, title@, eta_secs),
{
    let mut v: Vec<char> = Vec::new();
    append_str(&mut v, "\u{23F3} **Processing playlist:** ");
    append_decimal(&mut v, current as u64);
    append_str(&mut v, "/");
    append_decimal(&mut v, total as u64);
    append_str(&mut v, " videos | Currently: \"");
    append_str(&mut v, truncate_str(title, 40).as_str());
    append_str(&mut v, "\" | ETA: ");
    append_eta(&mut v, eta_secs);
    string_of(v.as_slice())
}

/// The heading of a video's result in a playlist thread.
pub fn video_header(index: u32, total: u32, title: &str, url: &str) -> (s: String)
    ensures
        s@ == "---\n**["@ + dec(index as nat) + "/"@ + dec(total as nat) + "] "@ + title@ + "**\n"@ + url@,
{
    let mut v: Vec<char> = Vec::new();
    append_str(&mut v, "---\n**[");
    append_decimal(&mut v, index as u64);
    append_str(&mut v, "/");
    append_decimal(&mut v, total as u64);
    append_str(&mut v, "] ");
    append_str(&mut v, title);
    append_str(&mut v, "**\n");
    append_str(&mut v, url);
    string_of(v.as_slice())
}

/// `n` with at least three digits, zero-padded (`{:03}`).
pub open spec fn padded3(n: nat) -> Seq<char> {
    if n < 1000 {
        dec3(n)
    } else {
        dec(n)
    }
}

/// The file name of a video's transcript in a playlist.
pub fn video_transcript_filename(index: u32, title: &str) -> (s: String)
    ensures
        s@ == "transcript_"@ + padded3(index as nat) + "_"@ + sanitized_filename(title@) + ".txt"@,
{
    let mut v: Vec<char> = Vec::new();
    append_str(&mut v, "transcript_");
    if index < 1000 {
        let d = crate::text::decimal3(index as u64);
        crate::text::append_chars(&mut v, d.as_slice());
    } else {
        append_decimal(&mut v, index as u64);
    }
    append_str(&mut v, "_");
    append_str(&mut v, sanitize_filename(title).as_str());
    append_str(&mut v, ".txt");
    string_of(v.as_slice())
}

/// The note on a video transcript file.
pub fn video_transcript_note(chars: usize) -> (s: String)
    ensures
        s@ == "\u{1F4C4} **Transcript** ("@ + dec(chars as nat) + " chars)"@,
{
    let mut v: Vec<char> = Vec::new();
    append_str(&mut v, "\u{1F4C4} **Transcript** (");
    append_decimal(&mut v, chars as u64);
    append_str(&mut v, " chars)");
    string_of(v.as_slice())
}

/// The notice of a video that failed in a playlist.
pub fn video_failed_message(index: u32, total: u32, title: &str, url: &str, error: &str) -> (s: String)
    requires
        truncate_ok(error@, 200),
    ensures
        s@ == "---\n**["@ + dec(index as nat) + "/"@ + dec(total as nat) + "] "@ + title@ + "** \u{274C}\n"@ + url@
            + "\n*Error: "@ + truncated(error@, 200) + "*"@,
{
    let mut v: Vec<char> = Vec::new();
    append_str(&mut v, "---\n**[");
    append_decimal(&mut v, index as u64);
    append_str(&mut v, "/");
    append_decimal(&mut v, total as u64);
    append_str(&mut v, "] ");
    append_str(&mut v, title);
    append_str(&mut v, "** \u{274C}\n");
    append_str(&mut v, url);
    append_str(&mut v, "\n*Error: ");
    append_str(&mut v, truncate_str(error, 200).as_str());
    append_str(&mut v, "*");
    string_of(v.as_slice())
}

/// The closing summary of a playlist run.
pub open spec fn playlist_summary_text(
    title: Seq<char>,
    completed: u32,
    failed: u32,
    skipped: u32,
    total: u32,
    runtime_secs: u64,
) -> Seq<char> {
    "---\n\n"@ + (if failed == 0 {
        "\u{2705}"@
    } else {
        "\u{26A0}\u{FE0F}"@
    }) + " **Playlist Complete: "@ + title + "**\n\n\u{2022} Successful: "@ + dec(completed as nat) + " | Failed: "@
        + dec(failed as nat) + " | Skipped: "@ + dec(skipped as nat) + "\n\u{2022} Total videos: "@ + dec(total as nat)
        + "\n\u{2022} Runtime: "@ + duration_text(runtime_secs as nat)
}

/// The closing summary message of a playlist run.
pub fn playlist_summary(title: &str, completed: u32, failed: u32, skipped: u32, total: u32, runtime_secs: u64) -> (s: String)
    ensures
        s@ == playlist_summary_text(title@, completed, failed, skipped, total, runtime_secs),
{
    let mut v: Vec<char> = Vec::new();
    append_str(&mut v, "---\n\n");
    if failed == 0 {
        append_str(&mut v, "\u{2705}");
    } else {
        append_str(&mut v, "\u{26A0}\u{FE0F}");
    }
    append_str(&mut v, " **Playlist Complete: ");
    append_str(&mut v, title);
    append_str(&mut v, "**\n\n\u{2022} Successful: ");
    append_decimal(&mut v, completed as u64);
    append_str(&mut v, " | Failed: ");
    append_decimal(&mut v, failed as u64);
    append_str(&mut v, " | Skipped: ");
    append_decimal(&mut v, skipped as u64);
    append_str(&mut v, "\n\u{2022} Total videos: ");
    append_decimal(&mut v, total as u64);
    append_str(&mut v, "\n\u{2022} Runtime: ");
    append_str(&mut v, format_duration(runtime_secs).as_str());
    string_of(v.as_slice())
}

/// The file name of a playlist's combined transcripts.
pub fn combined_filename(title: &str) -> (s: String)
    ensures
        s@ == "all_transcripts_"@ + sanitized_filename(title@) + ".txt"@,
{
    let mut v: Vec<char> = Vec::new();
    append_str(&mut v, "all_transcripts_");
    append_str(&mut v, sanitize_filename(title).as_str());
    append_str(&mut v, ".txt");
    string_of(v.as_slice())
}

/// The notice of a cancelled playlist run.
pub fn playlist_cancelled(completed: u32, total: u32, cancelled_by: &str) -> (s: String)
    ensures
        s@ == "---\n\n\u{1F6D1} **Playlist Cancelled**\n\n\u{2022} Processed: "@ + dec(completed as nat) + "/"@
            + dec(total as nat) + " videos before cancellation\n\u{2022} Cancelled by: "@ + cancelled_by@,
{
    let mut v: Vec<char> = Vec::new();
    append_str(&mut v, "---\n\n\u{1F6D1} **Playlist Cancelled**\n\n\u{2022} Processed: ");
    append_decimal(&mut v, completed as u64);
    append_str(&mut v, "/");
    append_decimal(&mut v, total as u64);
    append_str(&mut v, " videos before cancellation\n\u{2022} Cancelled by: ");
    append_str(&mut v, cancelled_by);
    string_of(v.as_slice())
}

/// The progress message of a chunked transcription.
pub fn chunk_progress(current: usize, total: usize, status: &str, eta_secs: Option<u64>) -> (s: String)
    requires
        progress_bar_ok(current as nat, total as nat),
    ensures
        s@ == "\u{23F3} **Transcribing:** "@ + dec(current as nat) + "/"@ + dec(total as nat) + " parts | "@ + status@
            + " | ETA: "@ + eta_text(eta_secs) + "\n"@ + progress_bar_text(current as nat, total as nat),
{
    let mut v: Vec<char> = Vec::new();
    append_str(&mut v, "\u{23F3} **Transcribing:** ");
    append_decimal(&mut v, current as u64);
    append_str(&mut v, "/");
    append_decimal(&mut v, total as u64);
    append_str(&mut v, " parts | ");
    append_str(&mut v, status);
    append_str(&mut v, " | ETA: ");
    append_eta(&mut v, eta_secs);
    append_str(&mut v, "\n");
    append_str(&mut v, create_progress_bar(current, total).as_str());
    string_of(v.as_slice())
}

/// The notice of a chunk that failed.
pub fn chunk_failed_message(chunk_num: usize, total: usize, error: &str) -> (s: String)
    requires
        truncate_ok(error@, 200),
    ensures
        s@ == "\u{26A0}\u{FE0F} **Part "@ + dec(chunk_num as nat) + "/"@ + dec(total as nat) + "** failed: "@ + truncated(
            error@,
            200,
        ),
{
    let mut v: Vec<char> = Vec::new();
    append_str(&mut v, "\u{26A0}\u{FE0F} **Part ");
    append_decimal(&mut v, chunk_num as u64);
    append_str(&mut v, "/");
    append_decimal(&mut v, total as u64);
    append_str(&mut v, "** failed: ");
    append_str(&mut v, truncate_str(error, 200).as_str());
    string_of(v.as_slice())
}

/// The message when a chunked transcription starts downloading.
pub fn chunking_started(title: &str) -> (s: String)
    requires
        truncate_ok(title@, 60),
    ensures
        s@ == "\u{1F4E5} **Downloading:** "@ + truncated(title@, 60) + " for transcription..."@,
{
    let mut v: Vec<char> = Vec::new();
    append_str(&mut v, "\u{1F4E5} **Downloading:** ");
    append_str(&mut v, truncate_str(title, 60).as_str());
    append_str(&mut v, " for transcription...");
    string_of(v.as_slice())
}

/// The message when the audio is split.
pub fn chunks_ready(total: usize, eta_secs: Option<u64>) -> (s: String)
    ensures
        s@ == "\u{1F4E6} **Ready:** Split into "@ + dec(total as nat) + " parts | Estimated time: "@ + eta_text(eta_secs),
{
    let mut v: Vec<char> = Vec::new();
    append_str(&mut v, "\u{1F4E6} **Ready:** Split into ");
    append_decimal(&mut v, total as u64);
    append_str(&mut v, " parts | Estimated time: ");
    append_eta(&mut v, eta_secs);
    string_of(v.as_slice())
}

/// The first message of a chunked transcription's thread.
pub fn chunked_header(title: &str, uploader: Option<&str>, short_id: &str, url: &str) -> (s: String)
    ensures
        s@ == "## YouTube: "@ + title@ + match uploader {
            Some(u) => " - by "@ + u@,
            None => Seq::<char>::empty(),
        } + "\nTranscription job: `"@ + short_id@ + "`\n\n"@ + url@,
{
    let mut v: Vec<char> = Vec::new();
    append_str(&mut v, "## YouTube: ");
    append_str(&mut v, title);
    match uploader {
        Some(u) => {
            append_str(&mut v, " - by ");
            append_str(&mut v, u);
        },
        None => {},
    }
    append_str(&mut v, "\nTranscription job: `");
    append_str(&mut v, short_id);
    append_str(&mut v, "`\n\n");
    append_str(&mut v, url);
    string_of(v.as_slice())
}

/// The description message of a video.
pub fn description_message(preview: &str) -> (s: String)
    ensures
        s@ == "**Description:**\n>>> "@ + preview@,
{
    let mut v: Vec<char> = Vec::new();
    append_str(&mut v, "**Description:**\n>>> ");
    append_str(&mut v, preview);
    string_of(v.as_slice())
}

} // verus!
