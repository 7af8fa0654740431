//! The decisions of a plugin run and of a playlist run: thread names, the
//! messages posted along the way, retry delays, progress estimates, and the
//! bookkeeping of a playlist as its videos succeed or fail.

use vstd::prelude::*;
use std::collections::HashMap;
use crate::format::pow2;
use crate::plugins::config::{Plugin, PlaylistConfig};
use crate::plugins::executor::{lists_entries, map_entries, pair_views, subst_all, substitute_all};
use crate::plugins::manager::{lookup_param, param_value};
use crate::plugins::output::{truncate_ok, truncate_str, truncated};
use crate::text::{
    append_decimal, append_signed, append_str, chars_of, contains_chars, contains_seq, dec, signed_dec,
    string_of, utf8_len,
};

verus! {

/// The URL points at YouTube.
pub open spec fn youtube_url(url: Seq<char>) -> bool {
    contains_seq(url, "youtube.com"@) || contains_seq(url, "youtu.be"@)
}

/// Whether `url` points at YouTube (`youtube.com` or `youtu.be` in it).
pub fn is_youtube_url(url: &str) -> (b: bool)
    ensures
        b == youtube_url(url@),
{
    let cs = chars_of(url);
    let a = chars_of("youtube.com");
    let b = chars_of("youtu.be");
    contains_chars(cs.as_slice(), a.as_slice()) || contains_chars(cs.as_slice(), b.as_slice())
}

/// The run's source URL: the value of the parameter the output names, if any.
pub fn source_url(plugin: &Plugin, params: &HashMap<String, String>) -> (r: Option<String>)
    ensures
        match plugin.output.source_param {
            Some(p) => param_value(params@, p@, match r {
                Some(s) => Some(s@),
                None => None,
            }),
            None => r is None,
        },
{
    match &plugin.output.source_param {
        Some(p) => lookup_param(params, p.as_str()),
        None => None,
    }
}

/// `template` with every `${key}` replaced by its value, the parameters taken
/// in the map's iteration order.
pub fn substitute_template(template: &str, params: &HashMap<String, String>) -> (s: String)
    ensures
        exists|entries: Seq<(String, String)>|
            #[trigger] lists_entries(params@, entries) && s@ == subst_all(template@, pair_views(entries)),
{
    let entries = map_entries(params);
    let cs = chars_of(template);
    let out = substitute_all(cs.as_slice(), entries.as_slice());
    assert(lists_entries(params@, entries@));
    string_of(out.as_slice())
}

/// The thread name of a run: the fetched YouTube title when there is one,
/// else the output's template (or "Plugin Output") with the parameters
/// substituted; cut to 100 bytes.
pub fn run_thread_name(template: Option<&str>, params: &HashMap<String, String>, youtube_title: Option<String>) -> (s: String)
    requires
        youtube_title matches Some(t) ==> truncate_ok(t@, 100),
        forall|entries: Seq<(String, String)>| #[trigger] lists_entries(params@, entries) ==> truncate_ok(
            subst_all(
                match template {
                    Some(t) => t@,
                    None => "Plugin Output"@,
                },
                pair_views(entries),
            ),
            100,
        ),
    ensures
        match youtube_title {
            Some(t) => s@ == truncated(t@, 100),
            None => exists|entries: Seq<(String, String)>| #[trigger] lists_entries(params@, entries) && s@
                == truncated(
                subst_all(
                    match template {
                        Some(t) => t@,
                        None => "Plugin Output"@,
                    },
                    pair_views(entries),
                ),
                100,
            ),
        },
{
    match youtube_title {
        Some(t) => truncate_str(t.as_str(), 100),
        None => {
            let tpl = match template {
                Some(t) => t,
                None => "Plugin Output",
            };
            let name = substitute_template(tpl, params);
            truncate_str(name.as_str(), 100)
        },
    }
}

/// The message that starts a run's thread.
pub fn starter_content(thread_name: &str, youtube: bool) -> (s: String)
    ensures
        youtube ==> s@ == "Transcribing YouTube video: "@ + thread_name@,
        !youtube ==> s@ == thread_name@,
{
    if youtube {
        let mut v: Vec<char> = Vec::new();
        append_str(&mut v, "Transcribing YouTube video: ");
        append_str(&mut v, thread_name);
        string_of(v.as_slice())
    } else {
        thread_name.to_owned()
    }
}

/// The first message inside a thread: the title in bold, then the URL.
pub fn titled_link(title: &str, url: &str) -> (s: String)
    ensures
        s@ == "**"@ + title@ + "**\n"@ + url@,
{
    let mut v: Vec<char> = Vec::new();
    append_str(&mut v, "**");
    append_str(&mut v, title);
    append_str(&mut v, "**\n");
    append_str(&mut v, url);
    string_of(v.as_slice())
}

/// The title shown for a run inside an existing thread: the fetched title of
/// a YouTube video (or "Video"), "Content" for anything else.
pub fn in_thread_title(youtube: bool, fetched: Option<String>) -> (s: String)
    ensures
        youtube ==> s@ == match fetched {
            Some(t) => t@,
            None => "Video"@,
        },
        !youtube ==> s@ == "Content"@,
{
    if youtube {
        match fetched {
            Some(t) => t,
            None => "Video".to_owned(),
        }
    } else {
        "Content".to_owned()
    }
}

/// Whether a progress status is posted: the output goes to a thread, either
/// the one the command came from or one created for it.
pub fn should_post_status(create_thread: bool, is_thread: bool, posted_to_new_thread: bool) -> (b: bool)
    ensures
        b == (create_thread && (is_thread || posted_to_new_thread)),
{
    create_thread && (is_thread || posted_to_new_thread)
}

/// How `Option<i32>` prints with `{:?}`.
pub open spec fn debug_exit_code(c: Option<i32>) -> Seq<char> {
    match c {
        Some(n) => "Some("@ + signed_dec(n as int) + ")"@,
        None => "None"@,
    }
}

/// The error of a command that did not succeed.
pub open spec fn failure_text(timed_out: bool, timeout_secs: u64, exit_code: Option<i32>, stderr: Seq<char>) -> Seq<char> {
    if timed_out {
        "Command timed out after "@ + dec(timeout_secs as nat) + " seconds"@
    } else {
        "Command failed (exit code: "@ + debug_exit_code(exit_code) + ")\n"@ + stderr
    }
}

/// The error message of a failed command.
pub fn failure_message(timed_out: bool, timeout_secs: u64, exit_code: Option<i32>, stderr: &str) -> (s: String)
    ensures
        s@ == failure_text(timed_out, timeout_secs, exit_code, stderr@),
{
    let mut v: Vec<char> = Vec::new();
    if timed_out {
        append_str(&mut v, "Command timed out after ");
        append_decimal(&mut v, timeout_secs);
        append_str(&mut v, " seconds");
    } else {
        append_str(&mut v, "Command failed (exit code: ");
        match exit_code {
            Some(n) => {
                append_str(&mut v, "Some(");
                append_signed(&mut v, n as i64);
                append_str(&mut v, ")");
            },
            None => append_str(&mut v, "None"),
        }
        append_str(&mut v, ")\n");
        append_str(&mut v, stderr);
    }
    string_of(v.as_slice())
}

/// The first 500 characters of a command's output, kept as the job's result.
pub fn result_preview(stdout: &str) -> (s: String)
    ensures
        s@ == if stdout@.len() <= 500 {
            stdout@
        } else {
            stdout@.take(500)
        },
{
    let cs = chars_of(stdout);
    if cs.len() <= 500 {
        string_of(cs.as_slice())
    } else {
        let p = crate::text::copy_range(cs.as_slice(), 0, 500);
        string_of(p.as_slice())
    }
}

/// The pause before attempt `attempt` (counted from 0) to create a thread:
/// none before the first, then 2^attempt seconds.
pub open spec fn retry_delay(attempt: nat) -> nat {
    if attempt == 0 {
        0
    } else {
        pow2(attempt)
    }
}

proof fn lemma_pow2_mono(a: nat, b: nat)
    requires
        a <= b,
    ensures
        pow2(a) <= pow2(b),
    decreases b,
{
    if a < b {
        lemma_pow2_mono(a, (b - 1) as nat);
    }
}

/// The pause, in seconds, before attempt `attempt` to create a thread.
pub fn retry_delay_secs(attempt: u32) -> (d: u64)
    requires
        attempt < 64,
    ensures
        d == retry_delay(attempt as nat),
{
    if attempt == 0 {
        return 0;
    }
    proof {
        assert(pow2(63) == 0x8000_0000_0000_0000) by {
            reveal_with_fuel(pow2, 64);
        }
    }
    let mut d: u64 = 1;
    let mut i: u32 = 0;
    while i < attempt
        invariant
            i <= attempt,
            attempt < 64,
            d == pow2(i as nat),
            pow2(63) == 0x8000_0000_0000_0000,
        decreases attempt - i,
    {
        proof {
            lemma_pow2_mono((i + 1) as nat, 63);
        }
        d = d * 2;
        i = i + 1;
    }
    d
}

/// The error after the last attempt to create a thread failed without an error.
pub fn retries_exhausted_message(max_retries: u32) -> (s: String)
    ensures
        s@ == "Thread creation failed after "@ + dec(max_retries as nat) + " retries"@,
{
    let mut v: Vec<char> = Vec::new();
    append_str(&mut v, "Thread creation failed after ");
    append_decimal(&mut v, max_retries as u64);
    append_str(&mut v, " retries");
    string_of(v.as_slice())
}

/// The number of playlist videos to process: the request (or the default),
/// capped by the configured maximum when there is one.
pub open spec fn effective_max(config: PlaylistConfig, requested: Option<u32>) -> u32 {
    let wanted = match requested {
        Some(n) => n,
        None => config.default_max_videos,
    };
    if config.max_videos_per_request > 0 && wanted > config.max_videos_per_request {
        config.max_videos_per_request
    } else {
        wanted
    }
}

/// How many videos of a playlist a request processes.
pub fn effective_max_videos(config: &PlaylistConfig, requested: Option<u32>) -> (n: u32)
    ensures
        n == effective_max(*config, requested),
        config.max_videos_per_request > 0 ==> n <= config.max_videos_per_request,
{
    let wanted = match requested {
        Some(n) => n,
        None => config.default_max_videos,
    };
    if config.max_videos_per_request > 0 && wanted > config.max_videos_per_request {
        config.max_videos_per_request
    } else {
        wanted
    }
}

/// The name of a playlist's thread: the title cut to 60 bytes and the video
/// count, the whole cut to 100 bytes.
pub open spec fn playlist_thread_text(title: Seq<char>, total: u32) -> Seq<char> {
    truncated("Playlist: "@ + truncated(title, 60) + " ("@ + dec(total as nat) + " videos)"@, 100)
}

/// The thread name of a playlist run.
pub fn playlist_thread_name(title: &str, total: u32) -> (s: String)
    requires
        truncate_ok(title@, 60),
        truncate_ok("Playlist: "@ + truncated(title@, 60) + " ("@ + dec(total as nat) + " videos)"@, 100),
    ensures
        s@ == playlist_thread_text(title@, total),
{
    let t = truncate_str(title, 60);
    let mut v: Vec<char> = Vec::new();
    append_str(&mut v, "Playlist: ");
    append_str(&mut v, t.as_str());
    append_str(&mut v, " (");
    append_decimal(&mut v, total as u64);
    append_str(&mut v, " videos)");
    let name = string_of(v.as_slice());
    truncate_str(name.as_str(), 100)
}

/// The message that starts a playlist's thread.
pub fn playlist_starter(title: &str, short_id: &str) -> (s: String)
    ensures
        s@ == "Transcribing YouTube playlist: "@ + title@ + " | job: "@ + short_id@,
{
    let mut v: Vec<char> = Vec::new();
    append_str(&mut v, "Transcribing YouTube playlist: ");
    append_str(&mut v, title);
    append_str(&mut v, " | job: ");
    append_str(&mut v, short_id);
    string_of(v.as_slice())
}

/// Sixty `=` signs.
pub open spec fn separator() -> Seq<char> {
    Seq::new(60, |i: int| '=')
}

/// A video's part of a playlist's combined transcript.
pub open spec fn playlist_entry_text(index: u32, total: u32, title: Seq<char>, url: Seq<char>, transcript: Seq<char>) -> Seq<char> {
    "\n\n"@ + separator() + "\n["@ + dec(index as nat) + "/"@ + dec(total as nat) + "] "@ + title + "\n"@ + url + "\n"@
        + separator() + "\n\n"@ + transcript
}

fn append_separator(v: &mut Vec<char>)
    ensures
        final(v)@ == old(v)@ + separator(),
{
    let mut i: usize = 0;
    while i < 60
        invariant
            i <= 60,
            v@ == old(v)@ + Seq::new(i as nat, |j: int| '='),
        decreases 60 - i,
    {
        v.push('=');
        i = i + 1;
        assert(v@ =~= old(v)@ + Seq::new(i as nat, |j: int| '='));
    }
}

/// The bookkeeping of a playlist run: how many videos succeeded, failed and
/// were skipped, and the combined transcript of those that succeeded.
pub struct PlaylistRun {
    total: u32,
    processed: u32,
    completed: u32,
    failed: u32,
    skipped: u32,
    combined: Vec<char>,
}

impl PlaylistRun {
    pub closed spec fn total(&self) -> u32 {
        self.total
    }

    /// Videos handled so far, successful or not.
    pub closed spec fn processed(&self) -> u32 {
        self.processed
    }

    pub closed spec fn completed(&self) -> u32 {
        self.completed
    }

    pub closed spec fn failed(&self) -> u32 {
        self.failed
    }

    pub closed spec fn skipped(&self) -> u32 {
        self.skipped
    }

    /// The combined transcript so far.
    pub closed spec fn combined(&self) -> Seq<char> {
        self.combined@
    }

    /// Every video handled counts once, as a success or a failure, and no
    /// more videos are handled than the run holds.
    pub closed spec fn wf(&self) -> bool {
        &&& self.completed + self.failed == self.processed
        &&& self.processed <= self.total
        &&& self.skipped == 0
    }

    /// A run over `total` videos, nothing handled yet.
    pub fn new(total: u32) -> (r: Self)
        ensures
            r.wf(),
            r.total() == total,
            r.processed() == 0,
            r.completed() == 0,
            r.failed() == 0,
            r.skipped() == 0,
            r.combined().len() == 0,
    {
        PlaylistRun { total, processed: 0, completed: 0, failed: 0, skipped: 0, combined: Vec::new() }
    }

    /// The next video, numbered from 1.
    pub fn next_index(&self) -> (i: u32)
        requires
            self.wf(),
            self.processed() < self.total(),
        ensures
            i == self.processed() + 1,
    {
        self.processed + 1
    }

    /// Records a transcribed video: one more success, and its entry appended
    /// to the combined transcript.
    pub fn video_succeeded(&mut self, title: &str, url: &str, transcript: &str)
        requires
            old(self).wf(),
            old(self).processed() < old(self).total(),
        ensures
            final(self).wf(),
            final(self).total() == old(self).total(),
            final(self).processed() == old(self).processed() + 1,
            final(self).completed() == old(self).completed() + 1,
            final(self).failed() == old(self).failed(),
            final(self).skipped() == old(self).skipped(),
            final(self).combined() == old(self).combined() + playlist_entry_text(
                (old(self).processed() + 1) as u32,
                old(self).total(),
                title@,
                url@,
                transcript@,
            ),
    {
        let index = self.processed + 1;
        append_str(&mut self.combined, "\n\n");
        append_separator(&mut self.combined);
        append_str(&mut self.combined, "\n[");
        append_decimal(&mut self.combined, index as u64);
        append_str(&mut self.combined, "/");
        append_decimal(&mut self.combined, self.total as u64);
        append_str(&mut self.combined, "] ");
        append_str(&mut self.combined, title);
        append_str(&mut self.combined, "\n");
        append_str(&mut self.combined, url);
        append_str(&mut self.combined, "\n");
        append_separator(&mut self.combined);
        append_str(&mut self.combined, "\n\n");
        append_str(&mut self.combined, transcript);
        self.processed = index;
        self.completed = self.completed + 1;
    }

    /// Records a video that could not be transcribed.
    pub fn video_failed(&mut self)
        requires
            old(self).wf(),
            old(self).processed() < old(self).total(),
        ensures
            final(self).wf(),
            final(self).total() == old(self).total(),
            final(self).processed() == old(self).processed() + 1,
            final(self).completed() == old(self).completed(),
            final(self).failed() == old(self).failed() + 1,
            final(self).skipped() == old(self).skipped(),
            final(self).combined() == old(self).combined(),
    {
        self.processed = self.processed + 1;
        self.failed = self.failed + 1;
    }

    /// The counts (completed, failed, skipped).
    pub fn counts(&self) -> (c: (u32, u32, u32))
        ensures
            c == (self.completed(), self.failed(), self.skipped()),
    {
        (self.completed, self.failed, self.skipped)
    }

    /// The combined transcript, if any video succeeded.
    pub fn combined_transcript(&self) -> (r: Option<String>)
        ensures
            self.combined().len() == 0 ==> r is None,
            self.combined().len() > 0 ==> (r matches Some(s) && s@ == self.combined()),
    {
        if self.combined.len() == 0 {
            None
        } else {
            Some(string_of(self.combined.as_slice()))
        }
    }
}

/// Law: a playlist run never counts more successes and failures than it has
/// videos, and every handled video is counted exactly once.
pub proof fn lemma_playlist_counts(r: PlaylistRun)
    requires
        r.wf(),
    ensures
        r.completed() + r.failed() == r.processed(),
        r.completed() + r.failed() + r.skipped() <= r.total(),
{
}

/// The estimated time left, in nanoseconds: the average time per handled
/// item so far (or `initial_ns` before any) times the items left.
pub open spec fn eta_ns(elapsed_ns: nat, handled: nat, remaining: nat, initial_ns: nat) -> nat {
    (if handled > 0 {
        elapsed_ns / handled
    } else {
        initial_ns
    }) * remaining
}

/// The estimated time left of a run, in nanoseconds.
pub fn estimate_remaining_ns(elapsed_ns: u128, handled: u32, remaining: u32, initial_ns: u128) -> (eta: u128)
    requires
        eta_ns(elapsed_ns as nat, handled as nat, remaining as nat, initial_ns as nat) <= u128::MAX,
    ensures
        eta == eta_ns(elapsed_ns as nat, handled as nat, remaining as nat, initial_ns as nat),
{
    let avg: u128 = if handled > 0 {
        elapsed_ns / (handled as u128)
    } else {
        initial_ns
    };
    avg * (remaining as u128)
}

/// What the playlist loop learns before each decision.
pub enum PlaylistEvent {
    /// The loop is ready for the next video, at the start or after a wait;
    /// `cancelled` says whether the playlist job has been cancelled.
    Ready { cancelled: bool },
    /// The job of the current video could not be created.
    JobNotCreated,
    /// The current video was transcribed.
    Transcribed { title: String, url: String, transcript: String },
    /// The current video could not be transcribed.
    TranscriptionFailed,
}

/// What the playlist loop does next.
#[derive(Debug, Clone, Copy, PartialEq, Eq, Structural)]
pub enum PlaylistAction {
    /// Make the job of video `index` (numbered from 1) and transcribe it.
    Transcribe { index: u32 },
    /// Wait the interval between videos, then report `Ready`.
    Wait,
    /// Report `Ready` at once.
    Next,
    /// The run stopped at a cancellation: post the notice that `completed`
    /// of `total` videos were done, and finish the job.
    PostCancelled { completed: u32, total: u32 },
    /// Every video was handled: post the summary and finish the job.
    PostSummary { completed: u32, failed: u32, skipped: u32, total: u32 },
}

/// A handled video is followed by a wait when another video comes after it.
pub open spec fn after_video(processed: u32, total: u32) -> PlaylistAction {
    if processed < total {
        PlaylistAction::Wait
    } else {
        PlaylistAction::Next
    }
}

/// What the loop does when it is ready for the next video: stop at a
/// cancellation, else transcribe the next video, else post the summary.
pub open spec fn ready_action(r: PlaylistRun, cancelled: bool) -> PlaylistAction {
    if cancelled {
        PlaylistAction::PostCancelled { completed: r.completed(), total: r.total() }
    } else if r.processed() < r.total() {
        PlaylistAction::Transcribe { index: (r.processed() + 1) as u32 }
    } else {
        PlaylistAction::PostSummary { completed: r.completed(), failed: r.failed(), skipped: r.skipped(), total: r.total() }
    }
}

/// One decision of the playlist loop: `run` takes in `event` and says what
/// happens next. A cancellation stops the run before its next video; a
/// video whose job could not be made counts as failed and the loop goes on
/// at once; after a video is handled the loop waits, but not after the last
/// one; when every video is handled the summary is posted.
pub fn next_playlist_step(run: &mut PlaylistRun, event: PlaylistEvent) -> (a: PlaylistAction)
    requires
        old(run).wf(),
        !(event is Ready) ==> old(run).processed() < old(run).total(),
    ensures
        final(run).wf(),
        final(run).total() == old(run).total(),
        final(run).skipped() == old(run).skipped(),
        match event {
            PlaylistEvent::Ready { cancelled } => *final(run) == *old(run) && a == ready_action(*old(run), cancelled),
            PlaylistEvent::JobNotCreated => {
                &&& final(run).processed() == old(run).processed() + 1
                &&& final(run).completed() == old(run).completed()
                &&& final(run).failed() == old(run).failed() + 1
                &&& final(run).combined() == old(run).combined()
                &&& a == PlaylistAction::Next
            },
            PlaylistEvent::Transcribed { title, url, transcript } => {
                &&& final(run).processed() == old(run).processed() + 1
                &&& final(run).completed() == old(run).completed() + 1
                &&& final(run).failed() == old(run).failed()
                &&& final(run).combined() == old(run).combined() + playlist_entry_text(
                    (old(run).processed() + 1) as u32,
                    old(run).total(),
                    title@,
                    url@,
                    transcript@,
                )
                &&& a == after_video(final(run).processed(), final(run).total())
            },
            PlaylistEvent::TranscriptionFailed => {
                &&& final(run).processed() == old(run).processed() + 1
                &&& final(run).completed() == old(run).completed()
                &&& final(run).failed() == old(run).failed() + 1
                &&& final(run).combined() == old(run).combined()
                &&& a == after_video(final(run).processed(), final(run).total())
            },
        },
{
    match event {
        PlaylistEvent::Ready { cancelled } => {
            if cancelled {
                PlaylistAction::PostCancelled { completed: run.completed, total: run.total }
            } else if run.processed < run.total {
                PlaylistAction::Transcribe { index: run.processed + 1 }
            } else {
                PlaylistAction::PostSummary {
                    completed: run.completed,
                    failed: run.failed,
                    skipped: run.skipped,
                    total: run.total,
                }
            }
        },
        PlaylistEvent::JobNotCreated => {
            run.video_failed();
            PlaylistAction::Next
        },
        PlaylistEvent::Transcribed { title, url, transcript } => {
            run.video_succeeded(title.as_str(), url.as_str(), transcript.as_str());
            if run.processed < run.total {
                PlaylistAction::Wait
            } else {
                PlaylistAction::Next
            }
        },
        PlaylistEvent::TranscriptionFailed => {
            run.video_failed();
            if run.processed < run.total {
                PlaylistAction::Wait
            } else {
                PlaylistAction::Next
            }
        },
    }
}

/// Law: the summary is posted only once every video was handled, so the
/// counts it reports add up to the number of videos.
pub proof fn lemma_summary_counts_add_up(r: PlaylistRun, cancelled: bool)
    requires
        r.wf(),
    ensures
        ready_action(r, cancelled) matches PlaylistAction::PostSummary { completed, failed, skipped, total }
            ==> completed + failed + skipped == total,
{
}

} // verus!
