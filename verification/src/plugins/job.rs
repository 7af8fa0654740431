//! Background jobs of plugin runs: single jobs and playlist jobs, their
//! status, and the in-memory store that tracks them. Times are milliseconds
//! since the Unix epoch, read by the caller.

use vstd::prelude::*;
use std::collections::HashMap;
use crate::keyed::{filter_keyed, find, Keyed};
use dashmap::DashMap;
use crate::text::{append_str, chars_of, fold_lower, lower_eq, lower_eq_chars, string_of, str_eq};

verus! {

/// Status of a plugin job.
#[derive(Debug, Clone, Copy, PartialEq, Eq, Hash, Structural)]
pub enum JobStatus {
    /// Job created but not yet started
    Pending,
    /// Job is currently executing
    Running,
    /// Job completed successfully
    Completed,
    /// Job failed with an error
    Failed,
}

/// Status of a playlist job.
#[derive(Debug, Clone, Copy, PartialEq, Eq, Hash, Structural)]
pub enum PlaylistJobStatus {
    /// Job created but not yet started
    Pending,
    /// Job is currently processing videos
    Running,
    /// Job paused (e.g., for rate limiting or manual pause)
    Paused,
    /// All videos completed successfully
    Completed,
    /// Some videos completed, some failed
    PartialComplete,
    /// Job failed entirely
    Failed,
    /// Job was cancelled by user
    Cancelled,
}

/// The name of a job status.
pub open spec fn job_status_name(s: JobStatus) -> Seq<char> {
    match s {
        JobStatus::Pending => "pending"@,
        JobStatus::Running => "running"@,
        JobStatus::Completed => "completed"@,
        JobStatus::Failed => "failed"@,
    }
}

/// The name of a playlist job status.
pub open spec fn playlist_status_name(s: PlaylistJobStatus) -> Seq<char> {
    match s {
        PlaylistJobStatus::Pending => "pending"@,
        PlaylistJobStatus::Running => "running"@,
        PlaylistJobStatus::Paused => "paused"@,
        PlaylistJobStatus::Completed => "completed"@,
        PlaylistJobStatus::PartialComplete => "partial_complete"@,
        PlaylistJobStatus::Failed => "failed"@,
        PlaylistJobStatus::Cancelled => "cancelled"@,
    }
}

/// The job status that `s` names, case-insensitively.
pub open spec fn job_status_named(s: Seq<char>) -> Option<JobStatus> {
    if lower_eq(s, "pending"@) {
        Some(JobStatus::Pending)
    } else if lower_eq(s, "running"@) {
        Some(JobStatus::Running)
    } else if lower_eq(s, "completed"@) {
        Some(JobStatus::Completed)
    } else if lower_eq(s, "failed"@) {
        Some(JobStatus::Failed)
    } else {
        None
    }
}

/// The playlist job status that `s` names, case-insensitively.
pub open spec fn playlist_status_named(s: Seq<char>) -> Option<PlaylistJobStatus> {
    if lower_eq(s, "pending"@) {
        Some(PlaylistJobStatus::Pending)
    } else if lower_eq(s, "running"@) {
        Some(PlaylistJobStatus::Running)
    } else if lower_eq(s, "paused"@) {
        Some(PlaylistJobStatus::Paused)
    } else if lower_eq(s, "completed"@) {
        Some(PlaylistJobStatus::Completed)
    } else if lower_eq(s, "partial_complete"@) {
        Some(PlaylistJobStatus::PartialComplete)
    } else if lower_eq(s, "failed"@) {
        Some(PlaylistJobStatus::Failed)
    } else if lower_eq(s, "cancelled"@) {
        Some(PlaylistJobStatus::Cancelled)
    } else {
        None
    }
}

/// `s` lower-cased is `t`.
fn lower_is(s: &[char], t: &str) -> (b: bool)
    ensures
        b == lower_eq(s@, t@),
{
    let tc = chars_of(t);
    lower_eq_chars(s, tc.as_slice())
}

fn invalid_status(prefix: &str, s: &str) -> (m: String)
    ensures
        m@ == prefix@ + s@,
{
    let mut v: Vec<char> = Vec::new();
    append_str(&mut v, prefix);
    append_str(&mut v, s);
    string_of(v.as_slice())
}

impl JobStatus {
    /// The status name: pending, running, completed or failed.
    pub fn to_string(&self) -> (s: String)
        ensures
            s@ == job_status_name(*self),
    {
        match self {
            JobStatus::Pending => "pending".to_owned(),
            JobStatus::Running => "running".to_owned(),
            JobStatus::Completed => "completed".to_owned(),
            JobStatus::Failed => "failed".to_owned(),
        }
    }

    /// Parses a status name, case-insensitively.
    pub fn parse(s: &str) -> (r: Result<JobStatus, String>)
        ensures
            match job_status_named(s@) {
                Some(st) => r == Ok::<JobStatus, String>(st),
                None => r matches Err(m) && m@ == "Invalid job status: "@ + s@,
            },
    {
        let cs = chars_of(s);
        if lower_is(cs.as_slice(), "pending") {
            Ok(JobStatus::Pending)
        } else if lower_is(cs.as_slice(), "running") {
            Ok(JobStatus::Running)
        } else if lower_is(cs.as_slice(), "completed") {
            Ok(JobStatus::Completed)
        } else if lower_is(cs.as_slice(), "failed") {
            Ok(JobStatus::Failed)
        } else {
            Err(invalid_status("Invalid job status: ", s))
        }
    }
}

impl std::str::FromStr for JobStatus {
    type Err = String;

    fn from_str(s: &str) -> Result<JobStatus, String> {
        JobStatus::parse(s)
    }
}

impl PlaylistJobStatus {
    /// The status name, as stored.
    pub fn to_string(&self) -> (s: String)
        ensures
            s@ == playlist_status_name(*self),
    {
        match self {
            PlaylistJobStatus::Pending => "pending".to_owned(),
            PlaylistJobStatus::Running => "running".to_owned(),
            PlaylistJobStatus::Paused => "paused".to_owned(),
            PlaylistJobStatus::Completed => "completed".to_owned(),
            PlaylistJobStatus::PartialComplete => "partial_complete".to_owned(),
            PlaylistJobStatus::Failed => "failed".to_owned(),
            PlaylistJobStatus::Cancelled => "cancelled".to_owned(),
        }
    }

    /// Parses a status name, case-insensitively.
    pub fn parse(s: &str) -> (r: Result<PlaylistJobStatus, String>)
        ensures
            match playlist_status_named(s@) {
                Some(st) => r == Ok::<PlaylistJobStatus, String>(st),
                None => r matches Err(m) && m@ == "Invalid playlist job status: "@ + s@,
            },
    {
        let cs = chars_of(s);
        if lower_is(cs.as_slice(), "pending") {
            Ok(PlaylistJobStatus::Pending)
        } else if lower_is(cs.as_slice(), "running") {
            Ok(PlaylistJobStatus::Running)
        } else if lower_is(cs.as_slice(), "paused") {
            Ok(PlaylistJobStatus::Paused)
        } else if lower_is(cs.as_slice(), "completed") {
            Ok(PlaylistJobStatus::Completed)
        } else if lower_is(cs.as_slice(), "partial_complete") {
            Ok(PlaylistJobStatus::PartialComplete)
        } else if lower_is(cs.as_slice(), "failed") {
            Ok(PlaylistJobStatus::Failed)
        } else if lower_is(cs.as_slice(), "cancelled") {
            Ok(PlaylistJobStatus::Cancelled)
        } else {
            Err(invalid_status("Invalid playlist job status: ", s))
        }
    }
}

impl std::str::FromStr for PlaylistJobStatus {
    type Err = String;

    fn from_str(s: &str) -> Result<PlaylistJobStatus, String> {
        PlaylistJobStatus::parse(s)
    }
}

/// A plugin job record.
#[derive(Debug)]
pub struct Job {
    /// Unique job identifier
    pub id: String,
    /// Name of the plugin that created this job
    pub plugin_name: String,
    /// User who initiated the job
    pub user_id: String,
    /// Guild where the job was initiated (None for DMs)
    pub guild_id: Option<String>,
    /// Channel where the job was initiated
    pub channel_id: String,
    /// Thread ID if output was posted to a thread
    pub thread_id: Option<String>,
    /// Current job status
    pub status: JobStatus,
    /// Input parameters
    pub params: HashMap<String, String>,
    /// When the job was created (ms since the epoch)
    pub started_at: i64,
    /// When the job completed, success or failure (ms since the epoch)
    pub completed_at: Option<i64>,
    /// Result preview (truncated output for completed jobs)
    pub result: Option<String>,
    /// Error message for failed jobs
    pub error: Option<String>,
    /// Parent playlist job ID (if this job is part of a playlist)
    pub parent_playlist_id: Option<String>,
}

/// A playlist job record for multi-video transcription.
#[derive(Debug)]
pub struct PlaylistJob {
    /// Unique job identifier
    pub id: String,
    /// User who initiated the job
    pub user_id: String,
    /// Guild where the job was initiated (None for DMs)
    pub guild_id: Option<String>,
    /// Channel where the job was initiated
    pub channel_id: String,
    /// Thread ID where output is posted
    pub thread_id: Option<String>,
    /// Original playlist URL
    pub playlist_url: String,
    /// Extracted playlist ID
    pub playlist_id: String,
    /// Playlist title
    pub playlist_title: Option<String>,
    /// Total number of videos in playlist (may be limited by max_videos)
    pub total_videos: u32,
    /// Number of videos completed successfully
    pub completed_videos: u32,
    /// Number of videos that failed
    pub failed_videos: u32,
    /// Number of videos skipped
    pub skipped_videos: u32,
    /// Current job status
    pub status: PlaylistJobStatus,
    /// Maximum videos to process (user-specified limit)
    pub max_videos: Option<u32>,
    /// Currently processing video job ID
    pub current_video_job_id: Option<String>,
    /// Error message (for failed jobs)
    pub error: Option<String>,
    /// When the job was created (ms since the epoch)
    pub started_at: i64,
    /// When the job completed (ms since the epoch)
    pub completed_at: Option<i64>,
    /// When the job was cancelled (ms since the epoch)
    pub cancelled_at: Option<i64>,
    /// Who cancelled the job
    pub cancelled_by: Option<String>,
}

impl Keyed for Job {
    open spec fn key(&self) -> Seq<char> {
        self.id@
    }
}

impl Keyed for PlaylistJob {
    open spec fn key(&self) -> Seq<char> {
        self.id@
    }
}

/// An active playlist job can still process videos.
pub open spec fn playlist_active(s: PlaylistJobStatus) -> bool {
    s == PlaylistJobStatus::Running || s == PlaylistJobStatus::Pending || s == PlaylistJobStatus::Paused
}

/// Two jobs hold the same values (parameters compared by their contents).
pub open spec fn same_job(a: Job, b: Job) -> bool {
    &&& a.id == b.id
    &&& a.plugin_name == b.plugin_name
    &&& a.user_id == b.user_id
    &&& a.guild_id == b.guild_id
    &&& a.channel_id == b.channel_id
    &&& a.thread_id == b.thread_id
    &&& a.status == b.status
    &&& a.params@ == b.params@
    &&& a.started_at == b.started_at
    &&& a.completed_at == b.completed_at
    &&& a.result == b.result
    &&& a.error == b.error
    &&& a.parent_playlist_id == b.parent_playlist_id
}

fn clone_opt(s: &Option<String>) -> (r: Option<String>)
    ensures
        r == *s,
{
    match s {
        Some(x) => Some(x.clone()),
        None => None,
    }
}

impl Job {
    /// A copy of the job.
    pub fn duplicate(&self) -> (j: Job)
        ensures
            same_job(j, *self),
    {
        Job {
            id: self.id.clone(),
            plugin_name: self.plugin_name.clone(),
            user_id: self.user_id.clone(),
            guild_id: clone_opt(&self.guild_id),
            channel_id: self.channel_id.clone(),
            thread_id: clone_opt(&self.thread_id),
            status: self.status,
            params: self.params.clone(),
            started_at: self.started_at,
            completed_at: self.completed_at,
            result: clone_opt(&self.result),
            error: clone_opt(&self.error),
            parent_playlist_id: clone_opt(&self.parent_playlist_id),
        }
    }
}

impl PlaylistJob {
    /// Whether the job can still process videos (pending, running or paused).
    pub fn is_active(&self) -> (b: bool)
        ensures
            b == playlist_active(self.status),
    {
        match self.status {
            PlaylistJobStatus::Running | PlaylistJobStatus::Pending | PlaylistJobStatus::Paused => true,
            _ => false,
        }
    }

    /// Whether the job was cancelled.
    pub fn is_cancelled(&self) -> (b: bool)
        ensures
            b == (self.status == PlaylistJobStatus::Cancelled),
    {
        match self.status {
            PlaylistJobStatus::Cancelled => true,
            _ => false,
        }
    }

    /// Completed, failed and skipped videos together.
    pub fn processed_count(&self) -> (n: u32)
        requires
            self.completed_videos + self.failed_videos + self.skipped_videos <= u32::MAX,
        ensures
            n == self.completed_videos + self.failed_videos + self.skipped_videos,
    {
        self.completed_videos + self.failed_videos + self.skipped_videos
    }

    /// A copy of the job.
    pub fn duplicate(&self) -> (j: PlaylistJob)
        ensures
            j == *self,
    {
        PlaylistJob {
            id: self.id.clone(),
            user_id: self.user_id.clone(),
            guild_id: clone_opt(&self.guild_id),
            channel_id: self.channel_id.clone(),
            thread_id: clone_opt(&self.thread_id),
            playlist_url: self.playlist_url.clone(),
            playlist_id: self.playlist_id.clone(),
            playlist_title: clone_opt(&self.playlist_title),
            total_videos: self.total_videos,
            completed_videos: self.completed_videos,
            failed_videos: self.failed_videos,
            skipped_videos: self.skipped_videos,
            status: self.status,
            max_videos: self.max_videos,
            current_video_job_id: clone_opt(&self.current_video_job_id),
            error: clone_opt(&self.error),
            started_at: self.started_at,
            completed_at: self.completed_at,
            cancelled_at: self.cancelled_at,
            cancelled_by: clone_opt(&self.cancelled_by),
        }
    }
}

/// The in-memory record of plugin jobs and playlist jobs, each under its id.
pub struct JobManager {
    jobs: DashMap<String, Job>,
    playlist_jobs: DashMap<String, PlaylistJob>,
}

/// How many jobs are in each status.
#[derive(Debug, Clone, Copy, PartialEq, Eq, Structural)]
pub struct JobStats {
    pub pending: usize,
    pub running: usize,
    pub completed: usize,
    pub failed: usize,
}

/// A lower-case hexadecimal digit.
pub open spec fn lower_hex_digit(c: char) -> bool {
    ('0' <= c && c <= '9') || ('a' <= c && c <= 'f')
}

/// The text of a random (version 4) UUID: 36 characters, lower-case hex
/// digits in groups of 8, 4, 4, 4 and 12 joined by `-`, the version digit
/// `4`, and the variant digit one of `8`, `9`, `a`, `b`.
pub open spec fn uuid_v4_text(s: Seq<char>) -> bool {
    &&& s.len() == 36
    &&& forall|i: int| 0 <= i < 36 ==> if i == 8 || i == 13 || i == 18 || i == 23 {
        s[i] == '-'
    } else {
        lower_hex_digit(#[trigger] s[i])
    }
    &&& s[14] == '4'
    &&& (s[19] == '8' || s[19] == '9' || s[19] == 'a' || s[19] == 'b')
}

/// `uuid::Uuid::new_v4().to_string()`: a fresh random identifier. Its value
/// depends on chance; only its form is claimed, as the `uuid` source writes
/// it (hyphenated lower-case hex, with the version and variant bits set).
#[verifier::external_body]
fn new_job_id() -> (id: String)
    ensures
        uuid_v4_text(id@),
{
    uuid::Uuid::new_v4().to_string()
}

/// The number of jobs among `jobs` whose status is `st`.
pub open spec fn count_status(jobs: Seq<Job>, st: JobStatus) -> nat
    decreases jobs.len(),
{
    if jobs.len() == 0 {
        0
    } else {
        count_status(jobs.drop_last(), st) + if jobs.last().status == st {
            1nat
        } else {
            0nat
        }
    }
}

/// A name of lower-case ASCII letters and underscores lower-cases to itself.
proof fn lemma_lower_eq_self(t: Seq<char>)
    requires
        forall|i: int| 0 <= i < t.len() ==> ('a' <= #[trigger] t[i] <= 'z' || t[i] == '_'),
    ensures
        lower_eq(t, t),
{
}

/// Two names that differ at a lower-case position do not match.
proof fn lemma_lower_ne(s: Seq<char>, t: Seq<char>, i: int)
    requires
        0 <= i < s.len(),
        'a' <= s[i] <= 'z',
        s[i] != t[i],
    ensures
        !lower_eq(s, t),
{
    assert(fold_lower(s[i]) == s[i]);
}

/// Law: the name of every job status parses back to that status.
pub proof fn lemma_job_status_round_trip(s: JobStatus)
    ensures
        job_status_named(job_status_name(s)) == Some(s),
{
    reveal_strlit("pending");
    reveal_strlit("running");
    reveal_strlit("completed");
    reveal_strlit("failed");
    let n = job_status_name(s);
    assert forall|i: int| 0 <= i < n.len() implies ('a' <= #[trigger] n[i] <= 'z' || n[i] == '_') by {}
    lemma_lower_eq_self(n);
    match s {
        JobStatus::Pending => {},
        JobStatus::Running => {
            lemma_lower_ne(n, "pending"@, 0);
        },
        JobStatus::Completed => {},
        JobStatus::Failed => {},
    }
}

/// Law: the name of every playlist job status parses back to that status.
pub proof fn lemma_playlist_status_round_trip(s: PlaylistJobStatus)
    ensures
        playlist_status_named(playlist_status_name(s)) == Some(s),
{
    reveal_strlit("pending");
    reveal_strlit("running");
    reveal_strlit("paused");
    reveal_strlit("completed");
    reveal_strlit("partial_complete");
    reveal_strlit("failed");
    reveal_strlit("cancelled");
    let n = playlist_status_name(s);
    assert forall|i: int| 0 <= i < n.len() implies ('a' <= #[trigger] n[i] <= 'z' || n[i] == '_') by {}
    lemma_lower_eq_self(n);
    match s {
        PlaylistJobStatus::Pending => {},
        PlaylistJobStatus::Running => {
            lemma_lower_ne(n, "pending"@, 0);
        },
        PlaylistJobStatus::Paused => {},
        PlaylistJobStatus::Completed => {},
        PlaylistJobStatus::PartialComplete => {},
        PlaylistJobStatus::Failed => {
            lemma_lower_ne(n, "paused"@, 0);
        },
        PlaylistJobStatus::Cancelled => {
            lemma_lower_ne(n, "completed"@, 1);
        },
    }
}

/// Where `x` goes among jobs listed newest first: before the first one that
/// started earlier than it.
pub open spec fn start_position(r: Seq<Job>, x: Job) -> int
    decreases r.len(),
{
    if r.len() == 0 {
        0
    } else if x.started_at > r[0].started_at {
        0
    } else {
        1 + start_position(r.drop_first(), x)
    }
}

/// `s` newest first by start time; jobs that started at the same time keep
/// their order (a stable sort).
pub open spec fn newest_first(s: Seq<Job>) -> Seq<Job>
    decreases s.len(),
{
    if s.len() == 0 {
        s
    } else {
        let r = newest_first(s.drop_last());
        r.insert(start_position(r, s.last()), s.last())
    }
}

/// `v` holds copies of the jobs `s`, one for one.
pub open spec fn copies(v: Seq<Job>, s: Seq<Job>) -> bool {
    v.len() == s.len() && forall|k: int| 0 <= k < v.len() ==> same_job(#[trigger] v[k], s[k])
}

/// At most the first `n` jobs of `s`.
pub open spec fn first_jobs(s: Seq<Job>, n: nat) -> Seq<Job> {
    if n < s.len() {
        s.take(n as int)
    } else {
        s
    }
}

proof fn lemma_start_position_bound(r: Seq<Job>, x: Job)
    ensures
        0 <= start_position(r, x) <= r.len(),
    decreases r.len(),
{
    if r.len() > 0 && !(x.started_at > r[0].started_at) {
        lemma_start_position_bound(r.drop_first(), x);
    }
}

proof fn lemma_start_position_spot(r: Seq<Job>, x: Job)
    ensures
        forall|k: int| 0 <= k < start_position(r, x) ==> (#[trigger] r[k]).started_at >= x.started_at,
        start_position(r, x) < r.len() ==> x.started_at > r[start_position(r, x)].started_at,
    decreases r.len(),
{
    if r.len() > 0 && !(x.started_at > r[0].started_at) {
        lemma_start_position_spot(r.drop_first(), x);
        lemma_start_position_bound(r.drop_first(), x);
        assert forall|k: int| 0 <= k < start_position(r, x) implies (#[trigger] r[k]).started_at >= x.started_at by {
            if k > 0 {
                assert(r[k] == r.drop_first()[k - 1]);
            }
        }
        if start_position(r, x) < r.len() {
            assert(r[start_position(r, x)] == r.drop_first()[start_position(r.drop_first(), x)]);
        }
    }
}

/// Law: sorting keeps every job, and lists them newest first: no job
/// started later than one listed ahead of it.
pub proof fn lemma_newest_first_ordered(s: Seq<Job>)
    ensures
        newest_first(s).len() == s.len(),
        forall|i: int, j: int| 0 <= i < j < newest_first(s).len() ==> (#[trigger] newest_first(s)[i]).started_at
            >= (#[trigger] newest_first(s)[j]).started_at,
    decreases s.len(),
{
    if s.len() > 0 {
        let r = newest_first(s.drop_last());
        let x = s.last();
        lemma_newest_first_ordered(s.drop_last());
        lemma_start_position_bound(r, x);
        lemma_start_position_spot(r, x);
        let p = start_position(r, x);
        let t = r.insert(p, x);
        assert forall|i: int, j: int| 0 <= i < j < t.len() implies (#[trigger] t[i]).started_at >= (
        #[trigger] t[j]).started_at by {
            if i == p {
                assert(t[j] == r[j - 1]);
                assert(r[p].started_at >= r[j - 1].started_at);
            } else if j == p {
                assert(t[i] == r[i]);
            } else {
                let oi = if i < p { i } else { i - 1 };
                let oj = if j < p { j } else { j - 1 };
                assert(t[i] == r[oi]);
                assert(t[j] == r[oj]);
            }
        }
    }
}

/// A job that cleanup keeps: not completed, or completed after `cutoff`.
pub open spec fn keep_job(j: Job, cutoff: int) -> bool {
    match j.completed_at {
        Some(c) => c > cutoff,
        None => true,
    }
}

/// A job started after `cutoff` by `user` with `plugin`.
pub open spec fn recent_job(j: Job, user: Seq<char>, plugin: Seq<char>, cutoff: int) -> bool {
    j.user_id@ == user && j.plugin_name@ == plugin && j.started_at > cutoff
}

/// Law: whether a job holds a user back from a plugin depends on that job
/// alone being theirs, of that plugin, and started after the cutoff: a job of
/// another user or of another plugin never does, and a job of theirs of that
/// plugin started after the cutoff always does.
pub proof fn lemma_cooldown_only_own_jobs(j: Job, user: Seq<char>, plugin: Seq<char>, cutoff: int)
    ensures
        j.user_id@ != user ==> !recent_job(j, user, plugin, cutoff),
        j.plugin_name@ != plugin ==> !recent_job(j, user, plugin, cutoff),
        j.started_at <= cutoff ==> !recent_job(j, user, plugin, cutoff),
        j.user_id@ == user && j.plugin_name@ == plugin && j.started_at > cutoff ==> recent_job(j, user, plugin, cutoff),
{
}

/// The jobs a map holds, each under its key.
pub uninterp spec fn job_table(m: DashMap<String, Job>) -> Map<Seq<char>, Job>;

/// The playlist jobs a map holds, each under its key.
pub uninterp spec fn playlist_table(m: DashMap<String, PlaylistJob>) -> Map<Seq<char>, PlaylistJob>;

/// `ks` names each key of `d`, each once.
pub open spec fn lists_keys(ks: Seq<String>, d: Set<Seq<char>>) -> bool {
    &&& forall|i: int, j: int| 0 <= i < j < ks.len() ==> (#[trigger] ks[i])@ != (#[trigger] ks[j])@
    &&& forall|i: int| 0 <= i < ks.len() ==> d.contains((#[trigger] ks[i])@)
    &&& forall|k: Seq<char>| #[trigger] d.contains(k) ==> exists|i: int| 0 <= i < ks.len() && (#[trigger] ks[i])@ == k
}

/// `s` holds a copy of each job of `t`, each once, in some order.
pub open spec fn lists_jobs(s: Seq<Job>, t: Map<Seq<char>, Job>) -> bool {
    &&& forall|i: int, j: int| 0 <= i < j < s.len() ==> (#[trigger] s[i]).id@ != (#[trigger] s[j]).id@
    &&& forall|i: int| 0 <= i < s.len() ==> t.contains_key((#[trigger] s[i]).id@) && same_job(s[i], t[s[i].id@])
    &&& forall|k: Seq<char>| #[trigger] t.contains_key(k) ==> exists|i: int| 0 <= i < s.len() && (#[trigger] s[i]).id@ == k
}

/// `s` holds each playlist job of `t`, each once, in some order.
pub open spec fn lists_playlists(s: Seq<PlaylistJob>, t: Map<Seq<char>, PlaylistJob>) -> bool {
    &&& forall|i: int, j: int| 0 <= i < j < s.len() ==> (#[trigger] s[i]).id@ != (#[trigger] s[j]).id@
    &&& forall|i: int| 0 <= i < s.len() ==> t.contains_key((#[trigger] s[i]).id@) && s[i] == t[s[i].id@]
    &&& forall|k: Seq<char>| #[trigger] t.contains_key(k) ==> exists|i: int| 0 <= i < s.len() && (#[trigger] s[i]).id@ == k
}

/// How many jobs of `t` are in status `st`.
pub open spec fn status_total(t: Map<Seq<char>, Job>, st: JobStatus) -> nat {
    t.dom().filter(|k: Seq<char>| t[k].status == st).len()
}

/// The ids of the jobs of `s` in status `st`.
pub open spec fn status_ids(s: Seq<Job>, st: JobStatus) -> Set<Seq<char>> {
    Set::new(|k: Seq<char>| exists|i: int| 0 <= i < s.len() && (#[trigger] s[i]).id@ == k && s[i].status == st)
}

proof fn lemma_count_status_ids(s: Seq<Job>, st: JobStatus)
    requires
        forall|i: int, j: int| 0 <= i < j < s.len() ==> (#[trigger] s[i]).id@ != (#[trigger] s[j]).id@,
    ensures
        status_ids(s, st).finite(),
        count_status(s, st) == status_ids(s, st).len(),
    decreases s.len(),
{
    if s.len() == 0 {
        assert(status_ids(s, st) =~= Set::empty());
    } else {
        let d = s.drop_last();
        let x = s.last();
        assert forall|i: int, j: int| 0 <= i < j < d.len() implies (#[trigger] d[i]).id@ != (#[trigger] d[j]).id@ by {
            assert(d[i] == s[i] && d[j] == s[j]);
        }
        lemma_count_status_ids(d, st);
        assert(x == s[s.len() - 1]);
        assert(!status_ids(d, st).contains(x.id@)) by {
            if status_ids(d, st).contains(x.id@) {
                let i = choose|i: int| 0 <= i < d.len() && (#[trigger] d[i]).id@ == x.id@ && d[i].status == st;
                assert(d[i] == s[i]);
            }
        }
        let target = if x.status == st {
            status_ids(d, st).insert(x.id@)
        } else {
            status_ids(d, st)
        };
        assert forall|k: Seq<char>| #[trigger] status_ids(s, st).contains(k) implies target.contains(k) by {
            let i = choose|i: int| 0 <= i < s.len() && (#[trigger] s[i]).id@ == k && s[i].status == st;
            if i < s.len() - 1 {
                assert(d[i] == s[i]);
            }
        }
        assert forall|k: Seq<char>| #[trigger] target.contains(k) implies status_ids(s, st).contains(k) by {
            if x.status == st && k == x.id@ {
                assert(s[s.len() - 1].id@ == k);
            } else {
                let i = choose|i: int| 0 <= i < d.len() && (#[trigger] d[i]).id@ == k && d[i].status == st;
                assert(s[i] == d[i]);
            }
        }
        assert(status_ids(s, st) =~= target);
    }
}

/// Law: counting the jobs of any listing of a store by status gives the
/// store's own totals, whatever order the listing has.
pub proof fn lemma_listing_counts(s: Seq<Job>, t: Map<Seq<char>, Job>, st: JobStatus)
    requires
        lists_jobs(s, t),
    ensures
        count_status(s, st) == status_total(t, st),
{
    lemma_count_status_ids(s, st);
    let f = t.dom().filter(|k: Seq<char>| t[k].status == st);
    assert forall|k: Seq<char>| #[trigger] status_ids(s, st).contains(k) implies f.contains(k) by {
        let i = choose|i: int| 0 <= i < s.len() && (#[trigger] s[i]).id@ == k && s[i].status == st;
        assert(t.contains_key(s[i].id@) && same_job(s[i], t[s[i].id@]));
    }
    assert forall|k: Seq<char>| #[trigger] f.contains(k) implies status_ids(s, st).contains(k) by {
        assert(t.contains_key(k));
        let i = choose|i: int| 0 <= i < s.len() && (#[trigger] s[i]).id@ == k;
        assert(t.contains_key(s[i].id@) && same_job(s[i], t[s[i].id@]));
    }
    assert(status_ids(s, st) =~= f);
}

/// `DashMap::new`: a map of jobs with nothing in it.
#[verifier::external_body]
fn job_map_new() -> (m: DashMap<String, Job>)
    ensures
        job_table(m) =~= Map::empty(),
{
    DashMap::new()
}

/// `DashMap::insert`: `job` is now under its id; no other key changes.
#[verifier::external_body]
fn job_map_put(m: &mut DashMap<String, Job>, job: Job)
    ensures
        job_table(*final(m)) == job_table(*old(m)).insert(job.id@, job),
{
    m.insert(job.id.clone(), job);
}

/// `DashMap::remove`: the job under `id` leaves the map and is handed back.
#[verifier::external_body]
fn job_map_take(m: &mut DashMap<String, Job>, id: &str) -> (r: Option<Job>)
    ensures
        r == job_table(*old(m)).get(id@),
        job_table(*final(m)) == job_table(*old(m)).remove(id@),
{
    match m.remove(id) {
        Some((_, job)) => Some(job),
        None => None,
    }
}

/// `DashMap::get`: a copy of the job under `id`.
#[verifier::external_body]
fn job_map_get(m: &DashMap<String, Job>, id: &str) -> (r: Option<Job>)
    ensures
        match job_table(*m).get(id@) {
            Some(j) => r matches Some(x) && same_job(x, j),
            None => r is None,
        },
{
    m.get(id).map(|e| e.value().duplicate())
}

/// `DashMap::iter`: the keys, each copied out once, in the map's own order.
#[verifier::external_body]
fn job_map_keys(m: &DashMap<String, Job>) -> (r: Vec<String>)
    ensures
        lists_keys(r@, job_table(*m).dom()),
{
    m.iter().map(|e| e.key().clone()).collect()
}

/// `DashMap::new`: a map of playlist jobs with nothing in it.
#[verifier::external_body]
fn playlist_map_new() -> (m: DashMap<String, PlaylistJob>)
    ensures
        playlist_table(m) =~= Map::empty(),
{
    DashMap::new()
}

/// `DashMap::insert`: `job` is now under its id; no other key changes.
#[verifier::external_body]
fn playlist_map_put(m: &mut DashMap<String, PlaylistJob>, job: PlaylistJob)
    ensures
        playlist_table(*final(m)) == playlist_table(*old(m)).insert(job.id@, job),
{
    m.insert(job.id.clone(), job);
}

/// `DashMap::remove`: the playlist job under `id` leaves the map and is
/// handed back.
#[verifier::external_body]
fn playlist_map_take(m: &mut DashMap<String, PlaylistJob>, id: &str) -> (r: Option<PlaylistJob>)
    ensures
        r == playlist_table(*old(m)).get(id@),
        playlist_table(*final(m)) == playlist_table(*old(m)).remove(id@),
{
    match m.remove(id) {
        Some((_, job)) => Some(job),
        None => None,
    }
}

/// `DashMap::get`: a copy of the playlist job under `id`.
#[verifier::external_body]
fn playlist_map_get(m: &DashMap<String, PlaylistJob>, id: &str) -> (r: Option<PlaylistJob>)
    ensures
        r == playlist_table(*m).get(id@),
{
    m.get(id).map(|e| e.value().duplicate())
}

/// `DashMap::iter`: the keys, each copied out once, in the map's own order.
#[verifier::external_body]
fn playlist_map_keys(m: &DashMap<String, PlaylistJob>) -> (r: Vec<String>)
    ensures
        lists_keys(r@, playlist_table(*m).dom()),
{
    m.iter().map(|e| e.key().clone()).collect()
}

impl JobManager {
    /// The jobs, each under its id.
    pub closed spec fn jobs_map(&self) -> Map<Seq<char>, Job> {
        job_table(self.jobs)
    }

    /// The playlist jobs, each under its id.
    pub closed spec fn playlists_map(&self) -> Map<Seq<char>, PlaylistJob> {
        playlist_table(self.playlist_jobs)
    }

    /// The job under `id`, if any.
    pub open spec fn job(&self, id: Seq<char>) -> Option<Job> {
        self.jobs_map().get(id)
    }

    /// The playlist job under `id`, if any.
    pub open spec fn playlist(&self, id: Seq<char>) -> Option<PlaylistJob> {
        self.playlists_map().get(id)
    }

    /// Each job is recorded under its own id.
    pub closed spec fn wf(&self) -> bool {
        &&& forall|k: Seq<char>| #[trigger] job_table(self.jobs).contains_key(k) ==> job_table(self.jobs)[k].id@ == k
        &&& forall|k: Seq<char>| #[trigger] playlist_table(self.playlist_jobs).contains_key(k) ==> playlist_table(
            self.playlist_jobs,
        )[k].id@ == k
    }

    /// A manager with no jobs.
    pub fn new() -> (m: Self)
        ensures
            m.wf(),
            forall|id: Seq<char>| m.job(id) is None && m.playlist(id) is None,
    {
        JobManager { jobs: job_map_new(), playlist_jobs: playlist_map_new() }
    }

    /// Records `job` under its id, replacing any job recorded there.
    pub fn insert_job(&mut self, job: Job)
        requires
            old(self).wf(),
        ensures
            final(self).wf(),
            forall|k: Seq<char>| #[trigger] final(self).job(k) == if k == job.id@ {
                Some(job)
            } else {
                old(self).job(k)
            },
            forall|k: Seq<char>| #[trigger] final(self).playlist(k) == old(self).playlist(k),
    {
        job_map_put(&mut self.jobs, job);
    }

    /// Records `job` under its id, replacing any playlist job recorded there.
    pub fn insert_playlist_job(&mut self, job: PlaylistJob)
        requires
            old(self).wf(),
        ensures
            final(self).wf(),
            forall|k: Seq<char>| #[trigger] final(self).playlist(k) == if k == job.id@ {
                Some(job)
            } else {
                old(self).playlist(k)
            },
            forall|k: Seq<char>| #[trigger] final(self).job(k) == old(self).job(k),
    {
        playlist_map_put(&mut self.playlist_jobs, job);
    }

    /// Creates a pending job with no parent playlist; returns its new id.
    pub fn create_job(
        &mut self,
        plugin_name: &str,
        user_id: &str,
        guild_id: Option<&str>,
        channel_id: &str,
        params: HashMap<String, String>,
        now: i64,
    ) -> (id: String)
        requires
            old(self).wf(),
        ensures
            final(self).wf(),
            uuid_v4_text(id@),
            final(self).job(id@) matches Some(j) && j.id@ == id@ && j.plugin_name@ == plugin_name@
                && j.user_id@ == user_id@ && opt_str_view(j.guild_id) == opt_ref_view(guild_id)
                && j.channel_id@ == channel_id@ && j.thread_id is None && j.status == JobStatus::Pending
                && j.params@ == params@ && j.started_at == now && j.completed_at is None && j.result is None
                && j.error is None && j.parent_playlist_id is None,
            forall|k: Seq<char>| k != id@ ==> #[trigger] final(self).job(k) == old(self).job(k),
            forall|k: Seq<char>| #[trigger] final(self).playlist(k) == old(self).playlist(k),
    {
        self.create_job_with_parent(plugin_name, user_id, guild_id, channel_id, params, None, now)
    }

    /// Creates a pending job, part of a playlist job if `parent_playlist_id`
    /// names one; returns its new id.
    pub fn create_job_with_parent(
        &mut self,
        plugin_name: &str,
        user_id: &str,
        guild_id: Option<&str>,
        channel_id: &str,
        params: HashMap<String, String>,
        parent_playlist_id: Option<&str>,
        now: i64,
    ) -> (id: String)
        requires
            old(self).wf(),
        ensures
            final(self).wf(),
            uuid_v4_text(id@),
            final(self).job(id@) matches Some(j) && j.id@ == id@ && j.plugin_name@ == plugin_name@
                && j.user_id@ == user_id@ && opt_str_view(j.guild_id) == opt_ref_view(guild_id)
                && j.channel_id@ == channel_id@ && j.thread_id is None && j.status == JobStatus::Pending
                && j.params@ == params@ && j.started_at == now && j.completed_at is None && j.result is None
                && j.error is None && opt_str_view(j.parent_playlist_id) == opt_ref_view(parent_playlist_id),
            forall|k: Seq<char>| k != id@ ==> #[trigger] final(self).job(k) == old(self).job(k),
            forall|k: Seq<char>| #[trigger] final(self).playlist(k) == old(self).playlist(k),
    {
        let id = new_job_id();
        let job = Job {
            id: id.clone(),
            plugin_name: plugin_name.to_owned(),
            user_id: user_id.to_owned(),
            guild_id: own_opt(guild_id),
            channel_id: channel_id.to_owned(),
            thread_id: None,
            status: JobStatus::Pending,
            params,
            started_at: now,
            completed_at: None,
            result: None,
            error: None,
            parent_playlist_id: own_opt(parent_playlist_id),
        };
        self.insert_job(job);
        id
    }

    /// Marks the job running; nothing happens to an unknown id.
    pub fn start_job(&mut self, job_id: &str)
        requires
            old(self).wf(),
        ensures
            final(self).wf(),
            match old(self).job(job_id@) {
                Some(j) => final(self).job(job_id@) == Some(Job { status: JobStatus::Running, ..j }),
                None => final(self).job(job_id@) is None,
            },
            forall|k: Seq<char>| k != job_id@ ==> #[trigger] final(self).job(k) == old(self).job(k),
            forall|k: Seq<char>| #[trigger] final(self).playlist(k) == old(self).playlist(k),
    {
        let ghost before = self.jobs_map();
        match job_map_take(&mut self.jobs, job_id) {
            Some(j) => {
                let mut j = j;
                j.status = JobStatus::Running;
                job_map_put(&mut self.jobs, j);
            },
            None => {
                assert(self.jobs_map() =~= before);
            },
        }
    }

    /// Marks the job completed at `now` with a result preview.
    pub fn complete_job(&mut self, job_id: &str, result: String, now: i64)
        requires
            old(self).wf(),
        ensures
            final(self).wf(),
            match old(self).job(job_id@) {
                Some(j) => final(self).job(job_id@) == Some(
                    Job { status: JobStatus::Completed, completed_at: Some(now), result: Some(result), ..j },
                ),
                None => final(self).job(job_id@) is None,
            },
            forall|k: Seq<char>| k != job_id@ ==> #[trigger] final(self).job(k) == old(self).job(k),
            forall|k: Seq<char>| #[trigger] final(self).playlist(k) == old(self).playlist(k),
    {
        let ghost before = self.jobs_map();
        match job_map_take(&mut self.jobs, job_id) {
            Some(j) => {
                let mut j = j;
                j.status = JobStatus::Completed;
                j.completed_at = Some(now);
                j.result = Some(result);
                job_map_put(&mut self.jobs, j);
            },
            None => {
                assert(self.jobs_map() =~= before);
            },
        }
    }

    /// Marks the job failed at `now` with an error message.
    pub fn fail_job(&mut self, job_id: &str, error: String, now: i64)
        requires
            old(self).wf(),
        ensures
            final(self).wf(),
            match old(self).job(job_id@) {
                Some(j) => final(self).job(job_id@) == Some(
                    Job { status: JobStatus::Failed, completed_at: Some(now), error: Some(error), ..j },
                ),
                None => final(self).job(job_id@) is None,
            },
            forall|k: Seq<char>| k != job_id@ ==> #[trigger] final(self).job(k) == old(self).job(k),
            forall|k: Seq<char>| #[trigger] final(self).playlist(k) == old(self).playlist(k),
    {
        let ghost before = self.jobs_map();
        match job_map_take(&mut self.jobs, job_id) {
            Some(j) => {
                let mut j = j;
                j.status = JobStatus::Failed;
                j.completed_at = Some(now);
                j.error = Some(error);
                job_map_put(&mut self.jobs, j);
            },
            None => {
                assert(self.jobs_map() =~= before);
            },
        }
    }

    /// Records the thread a job posts to.
    pub fn set_thread_id(&mut self, job_id: &str, thread_id: String)
        requires
            old(self).wf(),
        ensures
            final(self).wf(),
            match old(self).job(job_id@) {
                Some(j) => final(self).job(job_id@) == Some(Job { thread_id: Some(thread_id), ..j }),
                None => final(self).job(job_id@) is None,
            },
            forall|k: Seq<char>| k != job_id@ ==> #[trigger] final(self).job(k) == old(self).job(k),
            forall|k: Seq<char>| #[trigger] final(self).playlist(k) == old(self).playlist(k),
    {
        let ghost before = self.jobs_map();
        match job_map_take(&mut self.jobs, job_id) {
            Some(j) => {
                let mut j = j;
                j.thread_id = Some(thread_id);
                job_map_put(&mut self.jobs, j);
            },
            None => {
                assert(self.jobs_map() =~= before);
            },
        }
    }

    /// A copy of the job under `job_id`.
    pub fn get_job(&self, job_id: &str) -> (r: Option<Job>)
        requires
            self.wf(),
        ensures
            match self.job(job_id@) {
                Some(j) => r matches Some(x) && same_job(x, j),
                None => r is None,
            },
    {
        job_map_get(&self.jobs, job_id)
    }

    /// A copy of each job, each once, in the map's own order.
    fn job_snapshot(&self) -> (v: Vec<Job>)
        requires
            self.wf(),
        ensures
            lists_jobs(v@, self.jobs_map()),
    {
        let keys = job_map_keys(&self.jobs);
        let ghost t = self.jobs_map();
        let mut v: Vec<Job> = Vec::new();
        let mut i: usize = 0;
        while i < keys.len()
            invariant
                t == job_table(self.jobs),
                self.wf(),
                lists_keys(keys@, t.dom()),
                i <= keys@.len(),
                v@.len() == i,
                forall|q: int| 0 <= q < i ==> (#[trigger] v@[q]).id@ == keys@[q]@ && t.contains_key(keys@[q]@)
                    && same_job(v@[q], t[keys@[q]@]),
            decreases keys@.len() - i,
        {
            let ghost k = keys@[i as int]@;
            assert(t.contains_key(k));
            match job_map_get(&self.jobs, keys[i].as_str()) {
                Some(x) => {
                    v.push(x);
                },
                None => {},
            }
            i = i + 1;
        }
        proof {
            assert forall|a: int, b: int| 0 <= a < b < v@.len() implies (#[trigger] v@[a]).id@ != (
            #[trigger] v@[b]).id@ by {
                assert(keys@[a]@ != keys@[b]@);
            }
            assert forall|k: Seq<char>| #[trigger] t.contains_key(k) implies exists|q: int|
                0 <= q < v@.len() && (#[trigger] v@[q]).id@ == k by {
                let q = choose|q: int| 0 <= q < keys@.len() && (#[trigger] keys@[q])@ == k;
                assert(v@[q].id@ == k);
            }
        }
        v
    }

    /// Each playlist job, copied, each once, in the map's own order.
    fn playlist_snapshot(&self) -> (v: Vec<PlaylistJob>)
        requires
            self.wf(),
        ensures
            lists_playlists(v@, self.playlists_map()),
    {
        let keys = playlist_map_keys(&self.playlist_jobs);
        let ghost t = self.playlists_map();
        let mut v: Vec<PlaylistJob> = Vec::new();
        let mut i: usize = 0;
        while i < keys.len()
            invariant
                t == playlist_table(self.playlist_jobs),
                self.wf(),
                lists_keys(keys@, t.dom()),
                i <= keys@.len(),
                v@.len() == i,
                forall|q: int| 0 <= q < i ==> (#[trigger] v@[q]).id@ == keys@[q]@ && t.contains_key(keys@[q]@)
                    && v@[q] == t[keys@[q]@],
            decreases keys@.len() - i,
        {
            let ghost k = keys@[i as int]@;
            assert(t.contains_key(k));
            match playlist_map_get(&self.playlist_jobs, keys[i].as_str()) {
                Some(x) => {
                    v.push(x);
                },
                None => {},
            }
            i = i + 1;
        }
        proof {
            assert forall|a: int, b: int| 0 <= a < b < v@.len() implies (#[trigger] v@[a]).id@ != (
            #[trigger] v@[b]).id@ by {
                assert(keys@[a]@ != keys@[b]@);
            }
            assert forall|k: Seq<char>| #[trigger] t.contains_key(k) implies exists|q: int|
                0 <= q < v@.len() && (#[trigger] v@[q]).id@ == k by {
                let q = choose|q: int| 0 <= q < keys@.len() && (#[trigger] keys@[q])@ == k;
                assert(v@[q].id@ == k);
            }
        }
        v
    }

    /// Copies of the jobs of `plugin_name`, newest first, at most `limit` of
    /// them; jobs that started together come in the map's own order.
    pub fn get_plugin_jobs(&self, plugin_name: &str, limit: usize) -> (r: Vec<Job>)
        requires
            self.wf(),
        ensures
            exists|s: Seq<Job>| #[trigger] lists_jobs(s, self.jobs_map()) && copies(
                r@,
                first_jobs(newest_first(filter_keyed(s, |j: Job| j.plugin_name@ == plugin_name@)), limit as nat),
            ),
    {
        let snap = self.job_snapshot();
        let ghost keep = |j: Job| j.plugin_name@ == plugin_name@;
        let ghost f = filter_keyed(snap@, keep);
        let mut found: Vec<Job> = Vec::new();
        let mut i: usize = 0;
        assert(snap@.take(0) =~= Seq::<Job>::empty());
        while i < snap.len()
            invariant
                i <= snap@.len(),
                keep == (|j: Job| j.plugin_name@ == plugin_name@),
                copies(found@, filter_keyed(snap@.take(i as int), keep)),
            decreases snap@.len() - i,
        {
            assert(snap@.take(i + 1).drop_last() =~= snap@.take(i as int));
            assert(snap@.take(i + 1).last() == snap@[i as int]);
            if str_eq(snap[i].plugin_name.as_str(), plugin_name) {
                found.push(snap[i].duplicate());
            }
            i = i + 1;
        }
        assert(snap@.take(snap@.len() as int) =~= snap@);
        let n = found.len();
        let mut rest = found;
        let mut sorted: Vec<Job> = Vec::new();
        let mut k: usize = 0;
        assert(f.take(0) =~= Seq::<Job>::empty());
        while rest.len() > 0
            invariant
                n == f.len(),
                k + rest@.len() == n,
                copies(rest@, f.skip(k as int)),
                copies(sorted@, newest_first(f.take(k as int))),
            decreases rest@.len(),
        {
            let ghost r = newest_first(f.take(k as int));
            let ghost before_rest = rest@;
            let x = rest.remove(0);
            proof {
                assert(same_job(before_rest[0], f.skip(k as int)[0]));
                assert(f.skip(k as int)[0] == f[k as int]);
                assert forall|q: int| 0 <= q < rest@.len() implies same_job(#[trigger] rest@[q], f.skip(k + 1)[q]) by {
                    assert(rest@[q] == before_rest[q + 1]);
                    assert(f.skip(k + 1)[q] == f.skip(k as int)[q + 1]);
                }
                assert(f.take(k + 1).drop_last() =~= f.take(k as int));
                assert(f.take(k + 1).last() == f[k as int]);
                lemma_start_position_bound(r, f[k as int]);
            }
            let mut p: usize = 0;
            proof {
                assert(r.skip(0) =~= r);
            }
            while p < sorted.len() && !(x.started_at > sorted[p].started_at)
                invariant
                    p <= r.len(),
                    copies(sorted@, r),
                    x.started_at == f[k as int].started_at,
                    start_position(r, f[k as int]) == p + start_position(r.skip(p as int), f[k as int]),
                decreases r.len() - p,
            {
                assert(r.skip(p as int)[0] == r[p as int]);
                assert(r.skip(p as int).drop_first() =~= r.skip(p + 1));
                p = p + 1;
            }
            proof {
                if p < r.len() {
                    assert(r.skip(p as int)[0] == r[p as int]);
                }
            }
            let ghost before = sorted@;
            sorted.insert(p, x);
            proof {
                let t = r.insert(p as int, f[k as int]);
                assert forall|q: int| 0 <= q < sorted@.len() implies same_job(#[trigger] sorted@[q], t[q]) by {
                    if q < p {
                        assert(sorted@[q] == before[q]);
                    } else if q > p {
                        assert(sorted@[q] == before[q - 1]);
                    }
                }
            }
            k = k + 1;
        }
        assert(f.take(n as int) =~= f);
        let ghost all = sorted@;
        sorted.truncate(limit);
        proof {
            lemma_newest_first_ordered(f);
            assert forall|q: int| 0 <= q < sorted@.len() implies same_job(
                #[trigger] sorted@[q],
                first_jobs(newest_first(f), limit as nat)[q],
            ) by {
                assert(sorted@[q] == all[q]);
            }
        }
        assert(lists_jobs(snap@, self.jobs_map()));
        sorted
    }

    /// Copies of the jobs of `user_id`, in the map's own order.
    pub fn get_user_jobs(&self, user_id: &str) -> (r: Vec<Job>)
        requires
            self.wf(),
        ensures
            exists|s: Seq<Job>| #[trigger] lists_jobs(s, self.jobs_map()) && copies(
                r@,
                filter_keyed(s, |j: Job| j.user_id@ == user_id@),
            ),
    {
        let all = self.job_snapshot();
        let ghost keep = |j: Job| j.user_id@ == user_id@;
        let mut r: Vec<Job> = Vec::new();
        let mut i: usize = 0;
        assert(all@.take(0) =~= Seq::<Job>::empty());
        while i < all.len()
            invariant
                i <= all@.len(),
                keep == (|j: Job| j.user_id@ == user_id@),
                copies(r@, filter_keyed(all@.take(i as int), keep)),
            decreases all@.len() - i,
        {
            assert(all@.take(i + 1).drop_last() =~= all@.take(i as int));
            assert(all@.take(i + 1).last() == all@[i as int]);
            if str_eq(all[i].user_id.as_str(), user_id) {
                r.push(all[i].duplicate());
            }
            i = i + 1;
        }
        assert(all@.take(all@.len() as int) =~= all@);
        assert(lists_jobs(all@, self.jobs_map()));
        r
    }

    /// Whether `user_id` may start `plugin_name` again: with a cooldown, no
    /// job of theirs with that plugin started within the last
    /// `cooldown_seconds` before `now`.
    pub fn check_cooldown(&self, user_id: &str, plugin_name: &str, cooldown_seconds: u64, now: i64) -> (ok: bool)
        requires
            self.wf(),
            cooldown_seconds <= i64::MAX / 1000,
            now - cooldown_seconds * 1000 >= i64::MIN,
        ensures
            ok == (cooldown_seconds == 0 || !exists|k: Seq<char>| #[trigger] self.jobs_map().contains_key(k)
                && recent_job(self.jobs_map()[k], user_id@, plugin_name@, now - cooldown_seconds * 1000)),
            !ok <==> (cooldown_seconds > 0 && exists|k: Seq<char>| #[trigger] self.jobs_map().contains_key(k)
                && self.jobs_map()[k].user_id@ == user_id@ && self.jobs_map()[k].plugin_name@ == plugin_name@
                && self.jobs_map()[k].started_at > now - cooldown_seconds * 1000),
    {
        if cooldown_seconds == 0 {
            return true;
        }
        let cutoff: i64 = now - (cooldown_seconds as i64) * 1000;
        let all = self.job_snapshot();
        let ghost t = self.jobs_map();
        let mut i: usize = 0;
        while i < all.len()
            invariant
                i <= all@.len(),
                t == self.jobs_map(),
                lists_jobs(all@, t),
                cutoff == now - cooldown_seconds * 1000,
                cooldown_seconds > 0,
                forall|k: int| 0 <= k < i ==> !recent_job(#[trigger] all@[k], user_id@, plugin_name@, cutoff as int),
            decreases all@.len() - i,
        {
            let j = &all[i];
            if str_eq(j.user_id.as_str(), user_id) && str_eq(j.plugin_name.as_str(), plugin_name) && j.started_at > cutoff {
                proof {
                    let k = all@[i as int].id@;
                    assert(t.contains_key(k) && same_job(all@[i as int], t[k]));
                    assert(recent_job(t[k], user_id@, plugin_name@, now - cooldown_seconds * 1000));
                }
                return false;
            }
            i = i + 1;
        }
        proof {
            assert forall|k: Seq<char>| #[trigger] t.contains_key(k) implies !recent_job(
                t[k],
                user_id@,
                plugin_name@,
                now - cooldown_seconds * 1000,
            ) by {
                let q = choose|q: int| 0 <= q < all@.len() && (#[trigger] all@[q]).id@ == k;
                assert(same_job(all@[q], t[k]));
                assert(!recent_job(all@[q], user_id@, plugin_name@, cutoff as int));
            }
        }
        true
    }

    /// Forgets the jobs that completed `max_age_hours` or more before `now`;
    /// jobs still pending or running stay.
    pub fn cleanup_old_jobs(&mut self, max_age_hours: i64, now: i64)
        requires
            old(self).wf(),
            -(i64::MAX / 3_600_000) <= max_age_hours <= i64::MAX / 3_600_000,
            i64::MIN <= now - max_age_hours * 3_600_000 <= i64::MAX,
        ensures
            final(self).wf(),
            forall|k: Seq<char>| #[trigger] final(self).job(k) == match old(self).job(k) {
                Some(j) => if keep_job(j, now - max_age_hours * 3_600_000) {
                    Some(j)
                } else {
                    None
                },
                None => None,
            },
            forall|k: Seq<char>| #[trigger] final(self).playlist(k) == old(self).playlist(k),
    {
        let cutoff: i64 = now - max_age_hours * 3_600_000;
        let keys = job_map_keys(&self.jobs);
        let ghost t = self.jobs_map();
        let mut i: usize = 0;
        while i < keys.len()
            invariant
                t == old(self).jobs_map(),
                self.playlists_map() == old(self).playlists_map(),
                cutoff == now - max_age_hours * 3_600_000,
                self.wf(),
                lists_keys(keys@, t.dom()),
                i <= keys@.len(),
                forall|q: int| 0 <= q < i ==> #[trigger] self.jobs_map().get(keys@[q]@) == match t.get(keys@[q]@) {
                    Some(j) => if keep_job(j, cutoff as int) {
                        Some(j)
                    } else {
                        None
                    },
                    None => None,
                },
                forall|q: int| i <= q < keys@.len() ==> #[trigger] self.jobs_map().get(keys@[q]@) == t.get(keys@[q]@),
                forall|k: Seq<char>| !t.contains_key(k) ==> #[trigger] self.jobs_map().get(k) is None,
            decreases keys@.len() - i,
        {
            let ghost k = keys@[i as int]@;
            let ghost cur = self.jobs_map();
            assert(cur.get(k) == t.get(k));
            assert(t.contains_key(k));
            let drop_it = match job_map_get(&self.jobs, keys[i].as_str()) {
                Some(x) => match x.completed_at {
                    Some(c) => c <= cutoff,
                    None => false,
                },
                None => false,
            };
            if drop_it {
                let _ = job_map_take(&mut self.jobs, keys[i].as_str());
            }
            proof {
                assert forall|q: int| 0 <= q < keys@.len() && q != i implies #[trigger] self.jobs_map().get(keys@[q]@)
                    == cur.get(keys@[q]@) by {
                    assert(keys@[q]@ != k);
                }
                assert forall|kk: Seq<char>| !t.contains_key(kk) implies #[trigger] self.jobs_map().get(kk) is None by {
                    assert(cur.get(kk) is None);
                    assert(kk != k);
                }
            }
            i = i + 1;
        }
        proof {
            assert forall|k: Seq<char>| #[trigger] self.job(k) == match old(self).job(k) {
                Some(j) => if keep_job(j, now - max_age_hours * 3_600_000) {
                    Some(j)
                } else {
                    None
                },
                None => None,
            } by {
                if t.contains_key(k) {
                    let q = choose|q: int| 0 <= q < keys@.len() && (#[trigger] keys@[q])@ == k;
                    assert(self.jobs_map().get(keys@[q]@) == self.jobs_map().get(k));
                }
            }
        }
    }

    /// How many jobs are in each status.
    pub fn get_stats(&self) -> (st: JobStats)
        requires
            self.wf(),
        ensures
            st.pending == status_total(self.jobs_map(), JobStatus::Pending),
            st.running == status_total(self.jobs_map(), JobStatus::Running),
            st.completed == status_total(self.jobs_map(), JobStatus::Completed),
            st.failed == status_total(self.jobs_map(), JobStatus::Failed),
    {
        let all = self.job_snapshot();
        let mut s = JobStats { pending: 0, running: 0, completed: 0, failed: 0 };
        let mut i: usize = 0;
        assert(all@.take(0) =~= Seq::<Job>::empty());
        while i < all.len()
            invariant
                i <= all@.len(),
                s.pending == count_status(all@.take(i as int), JobStatus::Pending),
                s.running == count_status(all@.take(i as int), JobStatus::Running),
                s.completed == count_status(all@.take(i as int), JobStatus::Completed),
                s.failed == count_status(all@.take(i as int), JobStatus::Failed),
                s.pending + s.running + s.completed + s.failed == i,
            decreases all@.len() - i,
        {
            assert(all@.take(i + 1).drop_last() =~= all@.take(i as int));
            assert(all@.take(i + 1).last() == all@[i as int]);
            match all[i].status {
                JobStatus::Pending => s.pending = s.pending + 1,
                JobStatus::Running => s.running = s.running + 1,
                JobStatus::Completed => s.completed = s.completed + 1,
                JobStatus::Failed => s.failed = s.failed + 1,
            }
            i = i + 1;
        }
        assert(all@.take(all@.len() as int) =~= all@);
        proof {
            lemma_listing_counts(all@, self.jobs_map(), JobStatus::Pending);
            lemma_listing_counts(all@, self.jobs_map(), JobStatus::Running);
            lemma_listing_counts(all@, self.jobs_map(), JobStatus::Completed);
            lemma_listing_counts(all@, self.jobs_map(), JobStatus::Failed);
        }
        s
    }

    /// Records jobs loaded from storage, each under its id; a later job
    /// replaces an earlier one with the same id.
    pub fn recover_jobs(&mut self, jobs: Vec<Job>)
        requires
            old(self).wf(),
        ensures
            final(self).wf(),
            forall|k: Seq<char>| #[trigger] final(self).job(k) == match find(jobs@, k) {
                Some(j) => Some(j),
                None => old(self).job(k),
            },
            forall|k: Seq<char>| #[trigger] final(self).playlist(k) == old(self).playlist(k),
    {
        let ghost orig = jobs@;
        let mut rest = jobs;
        let ghost mut n: int = 0;
        assert(orig.take(0) =~= Seq::<Job>::empty());
        assert(orig.skip(0) =~= orig);
        while rest.len() > 0
            invariant
                self.wf(),
                0 <= n <= orig.len(),
                rest@ == orig.skip(n),
                forall|k: Seq<char>| #[trigger] self.job(k) == match find(orig.take(n), k) {
                    Some(j) => Some(j),
                    None => old(self).job(k),
                },
                forall|k: Seq<char>| #[trigger] self.playlist(k) == old(self).playlist(k),
            decreases rest@.len(),
        {
            let j = rest.remove(0);
            proof {
                assert(j == orig[n]);
                assert(orig.take(n + 1).drop_last() =~= orig.take(n));
                assert(orig.take(n + 1).last() == orig[n]);
                assert(rest@ =~= orig.skip(n + 1));
            }
            self.insert_job(j);
            proof {
                n = n + 1;
            }
        }
        proof {
            assert(n == orig.len());
            assert(orig.take(n) =~= orig);
        }
    }

    /// Creates a pending playlist job with nothing processed; returns its new id.
    pub fn create_playlist_job(
        &mut self,
        user_id: &str,
        guild_id: Option<&str>,
        channel_id: &str,
        playlist_url: &str,
        playlist_id: &str,
        playlist_title: Option<&str>,
        total_videos: u32,
        max_videos: Option<u32>,
        now: i64,
    ) -> (id: String)
        requires
            old(self).wf(),
        ensures
            final(self).wf(),
            uuid_v4_text(id@),
            final(self).playlist(id@) matches Some(j) && j.id@ == id@ && j.user_id@ == user_id@
                && opt_str_view(j.guild_id) == opt_ref_view(guild_id) && j.channel_id@ == channel_id@
                && j.thread_id is None && j.playlist_url@ == playlist_url@ && j.playlist_id@ == playlist_id@
                && opt_str_view(j.playlist_title) == opt_ref_view(playlist_title) && j.total_videos
                == total_videos && j.completed_videos == 0 && j.failed_videos == 0 && j.skipped_videos == 0
                && j.status == PlaylistJobStatus::Pending && j.max_videos == max_videos
                && j.current_video_job_id is None && j.error is None && j.started_at == now
                && j.completed_at is None && j.cancelled_at is None && j.cancelled_by is None,
            forall|k: Seq<char>| k != id@ ==> #[trigger] final(self).playlist(k) == old(self).playlist(k),
            forall|k: Seq<char>| #[trigger] final(self).job(k) == old(self).job(k),
    {
        let id = new_job_id();
        let job = PlaylistJob {
            id: id.clone(),
            user_id: user_id.to_owned(),
            guild_id: own_opt(guild_id),
            channel_id: channel_id.to_owned(),
            thread_id: None,
            playlist_url: playlist_url.to_owned(),
            playlist_id: playlist_id.to_owned(),
            playlist_title: own_opt(playlist_title),
            total_videos,
            completed_videos: 0,
            failed_videos: 0,
            skipped_videos: 0,
            status: PlaylistJobStatus::Pending,
            max_videos,
            current_video_job_id: None,
            error: None,
            started_at: now,
            completed_at: None,
            cancelled_at: None,
            cancelled_by: None,
        };
        self.insert_playlist_job(job);
        id
    }

    /// Marks the playlist job running.
    pub fn start_playlist_job(&mut self, job_id: &str)
        requires
            old(self).wf(),
        ensures
            final(self).wf(),
            match old(self).playlist(job_id@) {
                Some(j) => final(self).playlist(job_id@) == Some(PlaylistJob { status: PlaylistJobStatus::Running, ..j }),
                None => final(self).playlist(job_id@) is None,
            },
            forall|k: Seq<char>| k != job_id@ ==> #[trigger] final(self).playlist(k) == old(self).playlist(k),
            forall|k: Seq<char>| #[trigger] final(self).job(k) == old(self).job(k),
    {
        let ghost before = self.playlists_map();
        match playlist_map_take(&mut self.playlist_jobs, job_id) {
            Some(j) => {
                let mut j = j;
                j.status = PlaylistJobStatus::Running;
                playlist_map_put(&mut self.playlist_jobs, j);
            },
            None => {
                assert(self.playlists_map() =~= before);
            },
        }
    }

    /// Records the thread a playlist job posts to.
    pub fn set_playlist_thread_id(&mut self, job_id: &str, thread_id: String)
        requires
            old(self).wf(),
        ensures
            final(self).wf(),
            match old(self).playlist(job_id@) {
                Some(j) => final(self).playlist(job_id@) == Some(PlaylistJob { thread_id: Some(thread_id), ..j }),
                None => final(self).playlist(job_id@) is None,
            },
            forall|k: Seq<char>| k != job_id@ ==> #[trigger] final(self).playlist(k) == old(self).playlist(k),
            forall|k: Seq<char>| #[trigger] final(self).job(k) == old(self).job(k),
    {
        let ghost before = self.playlists_map();
        match playlist_map_take(&mut self.playlist_jobs, job_id) {
            Some(j) => {
                let mut j = j;
                j.thread_id = Some(thread_id);
                playlist_map_put(&mut self.playlist_jobs, j);
            },
            None => {
                assert(self.playlists_map() =~= before);
            },
        }
    }

    /// Records the counts of processed videos and the video now in progress.
    pub fn update_playlist_progress(
        &mut self,
        job_id: &str,
        completed: u32,
        failed: u32,
        skipped: u32,
        current_video_job_id: Option<&str>,
    )
        requires
            old(self).wf(),
        ensures
            final(self).wf(),
            match old(self).playlist(job_id@) {
                Some(j) => final(self).playlist(job_id@) matches Some(n) && n == (PlaylistJob {
                    completed_videos: completed,
                    failed_videos: failed,
                    skipped_videos: skipped,
                    current_video_job_id: n.current_video_job_id,
                    ..j
                }) && opt_str_view(n.current_video_job_id) == opt_ref_view(current_video_job_id),
                None => final(self).playlist(job_id@) is None,
            },
            forall|k: Seq<char>| k != job_id@ ==> #[trigger] final(self).playlist(k) == old(self).playlist(k),
            forall|k: Seq<char>| #[trigger] final(self).job(k) == old(self).job(k),
    {
        let ghost before = self.playlists_map();
        match playlist_map_take(&mut self.playlist_jobs, job_id) {
            Some(j) => {
                let mut j = j;
                j.completed_videos = completed;
                j.failed_videos = failed;
                j.skipped_videos = skipped;
                j.current_video_job_id = own_opt(current_video_job_id);
                playlist_map_put(&mut self.playlist_jobs, j);
            },
            None => {
                assert(self.playlists_map() =~= before);
            },
        }
    }

    /// Marks the playlist job finished at `now`: partially complete when some
    /// video failed, else completed; no video is in progress any more.
    pub fn complete_playlist_job(&mut self, job_id: &str, now: i64)
        requires
            old(self).wf(),
        ensures
            final(self).wf(),
            match old(self).playlist(job_id@) {
                Some(j) => final(self).playlist(job_id@) == Some(PlaylistJob {
                    status: if j.failed_videos > 0 {
                        PlaylistJobStatus::PartialComplete
                    } else {
                        PlaylistJobStatus::Completed
                    },
                    completed_at: Some(now),
                    current_video_job_id: None,
                    ..j
                }),
                None => final(self).playlist(job_id@) is None,
            },
            forall|k: Seq<char>| k != job_id@ ==> #[trigger] final(self).playlist(k) == old(self).playlist(k),
            forall|k: Seq<char>| #[trigger] final(self).job(k) == old(self).job(k),
    {
        let ghost before = self.playlists_map();
        match playlist_map_take(&mut self.playlist_jobs, job_id) {
            Some(j) => {
                let mut j = j;
                let st = if j.failed_videos > 0 {
                    PlaylistJobStatus::PartialComplete
                } else {
                    PlaylistJobStatus::Completed
                };
                j.status = st;
                j.completed_at = Some(now);
                j.current_video_job_id = None;
                playlist_map_put(&mut self.playlist_jobs, j);
            },
            None => {
                assert(self.playlists_map() =~= before);
            },
        }
    }

    /// Marks the playlist job failed at `now` with an error message.
    pub fn fail_playlist_job(&mut self, job_id: &str, error: String, now: i64)
        requires
            old(self).wf(),
        ensures
            final(self).wf(),
            match old(self).playlist(job_id@) {
                Some(j) => final(self).playlist(job_id@) == Some(PlaylistJob {
                    status: PlaylistJobStatus::Failed,
                    completed_at: Some(now),
                    error: Some(error),
                    current_video_job_id: None,
                    ..j
                }),
                None => final(self).playlist(job_id@) is None,
            },
            forall|k: Seq<char>| k != job_id@ ==> #[trigger] final(self).playlist(k) == old(self).playlist(k),
            forall|k: Seq<char>| #[trigger] final(self).job(k) == old(self).job(k),
    {
        let ghost before = self.playlists_map();
        match playlist_map_take(&mut self.playlist_jobs, job_id) {
            Some(j) => {
                let mut j = j;
                j.status = PlaylistJobStatus::Failed;
                j.completed_at = Some(now);
                j.error = Some(error);
                j.current_video_job_id = None;
                playlist_map_put(&mut self.playlist_jobs, j);
            },
            None => {
                assert(self.playlists_map() =~= before);
            },
        }
    }

    /// Cancels the playlist job if it is still active; says whether it did.
    /// A job that is not active (finished, failed or already cancelled) is
    /// left as it is.
    pub fn cancel_playlist_job(&mut self, job_id: &str, cancelled_by: &str, now: i64) -> (done: bool)
        requires
            old(self).wf(),
        ensures
            final(self).wf(),
            done == (old(self).playlist(job_id@) matches Some(j) && playlist_active(j.status)),
            done ==> (final(self).playlist(job_id@) matches Some(n) && n == (PlaylistJob {
                status: PlaylistJobStatus::Cancelled,
                cancelled_at: Some(now),
                cancelled_by: n.cancelled_by,
                current_video_job_id: None,
                ..old(self).playlist(job_id@)->0
            }) && opt_str_view(n.cancelled_by) == Some(cancelled_by@)),
            !done ==> final(self).playlist(job_id@) == old(self).playlist(job_id@),
            forall|k: Seq<char>| k != job_id@ ==> #[trigger] final(self).playlist(k) == old(self).playlist(k),
            forall|k: Seq<char>| #[trigger] final(self).job(k) == old(self).job(k),
    {
        let ghost before = self.playlists_map();
        match playlist_map_take(&mut self.playlist_jobs, job_id) {
            Some(j) => {
                if j.is_active() {
                    let mut j = j;
                    j.status = PlaylistJobStatus::Cancelled;
                    j.cancelled_at = Some(now);
                    j.cancelled_by = Some(cancelled_by.to_owned());
                    j.current_video_job_id = None;
                    playlist_map_put(&mut self.playlist_jobs, j);
                    true
                } else {
                    playlist_map_put(&mut self.playlist_jobs, j);
                    assert(self.playlists_map() =~= before);
                    false
                }
            },
            None => {
                assert(self.playlists_map() =~= before);
                false
            },
        }
    }

    /// Whether the playlist job under `job_id` was cancelled (false if unknown).
    pub fn is_playlist_cancelled(&self, job_id: &str) -> (b: bool)
        requires
            self.wf(),
        ensures
            b == (self.playlist(job_id@) matches Some(j) && j.status == PlaylistJobStatus::Cancelled),
    {
        match playlist_map_get(&self.playlist_jobs, job_id) {
            Some(j) => j.is_cancelled(),
            None => false,
        }
    }

    /// A copy of the playlist job under `job_id`.
    pub fn get_playlist_job(&self, job_id: &str) -> (r: Option<PlaylistJob>)
        requires
            self.wf(),
        ensures
            r == self.playlist(job_id@),
    {
        playlist_map_get(&self.playlist_jobs, job_id)
    }

    /// Copies of the active playlist jobs of `user_id`, in the map's own order.
    pub fn get_user_active_playlist_jobs(&self, user_id: &str) -> (r: Vec<PlaylistJob>)
        requires
            self.wf(),
        ensures
            exists|s: Seq<PlaylistJob>| #[trigger] lists_playlists(s, self.playlists_map()) && r@ == filter_keyed(
                s,
                |j: PlaylistJob| j.user_id@ == user_id@ && playlist_active(j.status),
            ),
    {
        let all = self.playlist_snapshot();
        let ghost keep = |j: PlaylistJob| j.user_id@ == user_id@ && playlist_active(j.status);
        let mut r: Vec<PlaylistJob> = Vec::new();
        let mut i: usize = 0;
        assert(all@.take(0) =~= Seq::<PlaylistJob>::empty());
        while i < all.len()
            invariant
                i <= all@.len(),
                keep == (|j: PlaylistJob| j.user_id@ == user_id@ && playlist_active(j.status)),
                r@ == filter_keyed(all@.take(i as int), keep),
            decreases all@.len() - i,
        {
            assert(all@.take(i + 1).drop_last() =~= all@.take(i as int));
            assert(all@.take(i + 1).last() == all@[i as int]);
            if str_eq(all[i].user_id.as_str(), user_id) && all[i].is_active() {
                r.push(all[i].duplicate());
            }
            i = i + 1;
        }
        assert(all@.take(all@.len() as int) =~= all@);
        assert(lists_playlists(all@, self.playlists_map()));
        r
    }

    /// Whether `user_id` has an active playlist job.
    pub fn has_active_playlist(&self, user_id: &str) -> (b: bool)
        requires
            self.wf(),
        ensures
            b == exists|k: Seq<char>| #[trigger] self.playlists_map().contains_key(k)
                && self.playlists_map()[k].user_id@ == user_id@ && playlist_active(self.playlists_map()[k].status),
    {
        let all = self.playlist_snapshot();
        let ghost t = self.playlists_map();
        let mut i: usize = 0;
        while i < all.len()
            invariant
                i <= all@.len(),
                t == self.playlists_map(),
                lists_playlists(all@, t),
                forall|k: int| 0 <= k < i ==> !((#[trigger] all@[k]).user_id@ == user_id@ && playlist_active(
                    all@[k].status,
                )),
            decreases all@.len() - i,
        {
            if str_eq(all[i].user_id.as_str(), user_id) && all[i].is_active() {
                proof {
                    let k = all@[i as int].id@;
                    assert(t.contains_key(k) && all@[i as int] == t[k]);
                }
                return true;
            }
            i = i + 1;
        }
        proof {
            assert forall|k: Seq<char>| #[trigger] t.contains_key(k) implies !(t[k].user_id@ == user_id@
                && playlist_active(t[k].status)) by {
                let q = choose|q: int| 0 <= q < all@.len() && (#[trigger] all@[q]).id@ == k;
                assert(all@[q] == t[k]);
            }
        }
        false
    }

    /// Records playlist jobs loaded from storage, each under its id.
    pub fn recover_playlist_jobs(&mut self, jobs: Vec<PlaylistJob>)
        requires
            old(self).wf(),
        ensures
            final(self).wf(),
            forall|k: Seq<char>| #[trigger] final(self).playlist(k) == match find(jobs@, k) {
                Some(j) => Some(j),
                None => old(self).playlist(k),
            },
            forall|k: Seq<char>| #[trigger] final(self).job(k) == old(self).job(k),
    {
        let ghost orig = jobs@;
        let mut rest = jobs;
        let ghost mut n: int = 0;
        assert(orig.take(0) =~= Seq::<PlaylistJob>::empty());
        assert(orig.skip(0) =~= orig);
        while rest.len() > 0
            invariant
                self.wf(),
                0 <= n <= orig.len(),
                rest@ == orig.skip(n),
                forall|k: Seq<char>| #[trigger] self.playlist(k) == match find(orig.take(n), k) {
                    Some(j) => Some(j),
                    None => old(self).playlist(k),
                },
                forall|k: Seq<char>| #[trigger] self.job(k) == old(self).job(k),
            decreases rest@.len(),
        {
            let j = rest.remove(0);
            proof {
                assert(j == orig[n]);
                assert(orig.take(n + 1).drop_last() =~= orig.take(n));
                assert(orig.take(n + 1).last() == orig[n]);
                assert(rest@ =~= orig.skip(n + 1));
            }
            self.insert_playlist_job(j);
            proof {
                n = n + 1;
            }
        }
        proof {
            assert(n == orig.len());
            assert(orig.take(n) =~= orig);
        }
    }
}

/// The view of an owned optional string.
pub open spec fn opt_str_view(o: Option<String>) -> Option<Seq<char>> {
    match o {
        Some(s) => Some(s@),
        None => None,
    }
}

/// The view of a borrowed optional string.
pub open spec fn opt_ref_view(o: Option<&str>) -> Option<Seq<char>> {
    match o {
        Some(s) => Some(s@),
        None => None,
    }
}

fn own_opt(o: Option<&str>) -> (r: Option<String>)
    ensures
        opt_str_view(r) == opt_ref_view(o),
{
    match o {
        Some(s) => Some(s.to_owned()),
        None => None,
    }
}

} // verus!
