//! Audio chunking: its configuration, the commands that download and split
//! audio, and how many chunks a recording gives.

use vstd::prelude::*;
use crate::text::{append_decimal, append_str, dec, string_of};

verus! {

/// Configuration for audio chunking.
#[derive(Debug, Clone)]
pub struct ChunkerConfig {
    /// Duration of each chunk in seconds (default: 600 = 10 minutes)
    pub chunk_duration_secs: u64,
    /// Timeout for download operation in seconds
    pub download_timeout_secs: u64,
    /// Timeout for splitting operation in seconds
    pub split_timeout_secs: u64,
}

impl Default for ChunkerConfig {
    fn default() -> (c: Self)
        ensures
            c.chunk_duration_secs == 600,
            c.download_timeout_secs == 300,
            c.split_timeout_secs == 120,
    {
        ChunkerConfig { chunk_duration_secs: 600, download_timeout_secs: 300, split_timeout_secs: 120 }
    }
}

/// Result of an audio download.
#[derive(Debug)]
pub struct DownloadResult {
    /// Path to the downloaded audio file
    pub audio_path: String,
    /// Duration of the audio in seconds (if available)
    pub duration_secs: Option<u64>,
    /// Video/audio title
    pub title: Option<String>,
}

/// Result of splitting audio.
#[derive(Debug)]
pub struct SplitResult {
    /// Paths to the chunk files in order
    pub chunk_paths: Vec<String>,
    /// Total number of chunks
    pub total_chunks: usize,
}

/// Audio chunker: its configuration and the directory its files go to.
pub struct AudioChunker {
    config: ChunkerConfig,
    temp_dir: String,
}

/// Progress of chunked transcription.
#[derive(Debug, Clone)]
pub struct ChunkProgress {
    /// Current chunk being processed (1-indexed)
    pub current_chunk: usize,
    /// Total number of chunks
    pub total_chunks: usize,
    /// Status of the current chunk
    pub status: ChunkStatus,
    /// Transcript of the current chunk (if completed)
    pub transcript: Option<String>,
}

/// Status of a chunk transcription.
#[derive(Debug, Clone, PartialEq)]
pub enum ChunkStatus {
    /// Chunk is pending transcription
    Pending,
    /// Chunk is currently being transcribed
    InProgress,
    /// Chunk transcription completed successfully
    Completed,
    /// Chunk transcription failed
    Failed(String),
}

/// The number of chunks of `duration` seconds cut in chunks of `chunk`
/// seconds (`ceil(duration / chunk)`, computed in floating point): with no
/// chunk length, every positive duration gives as many as a `usize` holds.
pub open spec fn chunk_count(duration: nat, chunk: nat) -> nat {
    if chunk == 0 {
        if duration == 0 {
            0
        } else {
            usize::MAX as nat
        }
    } else {
        let c = ((duration + chunk - 1) as nat) / chunk;
        if c > usize::MAX {
            usize::MAX as nat
        } else {
            c
        }
    }
}

impl AudioChunker {
    /// A chunker with `config` whose files go to `temp_dir`.
    pub fn new(config: ChunkerConfig, temp_dir: String) -> (c: Self)
        ensures
            c.config() == config,
            c.temp_dir_path() == temp_dir@,
    {
        AudioChunker { config, temp_dir }
    }

    /// The chunker's configuration.
    pub closed spec fn config(&self) -> ChunkerConfig {
        self.config
    }

    /// The chunker's directory.
    pub closed spec fn temp_dir_path(&self) -> Seq<char> {
        self.temp_dir@
    }

    /// The temp directory path.
    pub fn temp_dir(&self) -> (p: &str)
        ensures
            p@ == self.temp_dir_path(),
    {
        self.temp_dir.as_str()
    }

    /// How many chunks a recording of `duration_secs` gives. Durations stay
    /// below 2^52 seconds, where the floating point quotient rounds up to the
    /// exact ceiling.
    pub fn estimate_chunks(&self, duration_secs: u64) -> (n: usize)
        requires
            duration_secs < 0x10_0000_0000_0000,
        ensures
            n == chunk_count(duration_secs as nat, self.config().chunk_duration_secs as nat),
    {
        let chunk = self.config.chunk_duration_secs;
        if chunk == 0 {
            if duration_secs == 0 {
                return 0;
            }
            return usize::MAX;
        }
        let c: u64 = duration_secs / chunk + if duration_secs % chunk == 0 {
            0
        } else {
            1
        };
        proof {
            let d = duration_secs as int;
            let k = chunk as int;
            let q = d / k;
            let r = d % k;
            assert(d == q * k + r && 0 <= r < k) by (nonlinear_arith)
                requires
                    k > 0,
                    q == d / k,
                    r == d % k,
            ;
            if r == 0 {
                assert((d + k - 1) / k == q) by (nonlinear_arith)
                    requires
                        k > 0,
                        d == q * k,
                ;
            } else {
                assert((d + k - 1) / k == q + 1) by (nonlinear_arith)
                    requires
                        k > 0,
                        d == q * k + r,
                        0 < r < k,
                ;
            }
        }
        if c > usize::MAX as u64 {
            usize::MAX
        } else {
            c as usize
        }
    }

    /// Whether a recording needs cutting, given its probed length in seconds:
    /// when it is longer than one chunk, or when its length could not be
    /// read (`None`).
    pub fn needs_chunking(&self, duration_secs: Option<u64>) -> (b: bool)
        ensures
            b == match duration_secs {
                Some(d) => d > self.config().chunk_duration_secs,
                None => true,
            },
    {
        match duration_secs {
            Some(d) => d > self.config.chunk_duration_secs,
            None => true,
        }
    }

    /// The arguments of the `ffmpeg` call that cuts `audio_path` into chunks
    /// named by `output_pattern`.
    pub fn split_args(&self, audio_path: &str, output_pattern: &str) -> (args: Vec<String>)
        ensures
            args@.len() == 10,
            args@[0]@ == "-i"@,
            args@[1]@ == audio_path@,
            args@[2]@ == "-f"@,
            args@[3]@ == "segment"@,
            args@[4]@ == "-segment_time"@,
            args@[5]@ == dec(self.config().chunk_duration_secs as nat),
            args@[6]@ == "-c"@,
            args@[7]@ == "copy"@,
            args@[8]@ == "-y"@,
            args@[9]@ == output_pattern@,
    {
        let mut secs: Vec<char> = Vec::new();
        append_decimal(&mut secs, self.config.chunk_duration_secs);
        let mut args: Vec<String> = Vec::new();
        args.push("-i".to_owned());
        args.push(audio_path.to_owned());
        args.push("-f".to_owned());
        args.push("segment".to_owned());
        args.push("-segment_time".to_owned());
        args.push(string_of(secs.as_slice()));
        args.push("-c".to_owned());
        args.push("copy".to_owned());
        args.push("-y".to_owned());
        args.push(output_pattern.to_owned());
        args
    }
}

/// The arguments of the `yt-dlp` call that downloads the audio of `url` as
/// mid-quality MP3 to `output_template`, without its playlist.
pub fn download_args(output_template: &str, url: &str) -> (args: Vec<String>)
    ensures
        args@.len() == 10,
        args@[0]@ == "-x"@,
        args@[1]@ == "--audio-format"@,
        args@[2]@ == "mp3"@,
        args@[3]@ == "--audio-quality"@,
        args@[4]@ == "5"@,
        args@[5]@ == "-o"@,
        args@[6]@ == output_template@,
        args@[7]@ == "--no-playlist"@,
        args@[8]@ == "--no-warnings"@,
        args@[9]@ == url@,
{
    let mut args: Vec<String> = Vec::new();
    args.push("-x".to_owned());
    args.push("--audio-format".to_owned());
    args.push("mp3".to_owned());
    args.push("--audio-quality".to_owned());
    args.push("5".to_owned());
    args.push("-o".to_owned());
    args.push(output_template.to_owned());
    args.push("--no-playlist".to_owned());
    args.push("--no-warnings".to_owned());
    args.push(url.to_owned());
    args
}

/// The message of a download that ran out of time.
pub fn download_timeout_message(secs: u64) -> (m: String)
    ensures
        m@ == "Download timed out after "@ + dec(secs as nat) + " seconds"@,
{
    let mut v: Vec<char> = Vec::new();
    append_str(&mut v, "Download timed out after ");
    append_decimal(&mut v, secs);
    append_str(&mut v, " seconds");
    string_of(v.as_slice())
}

/// The message of a split that ran out of time.
pub fn split_timeout_message(secs: u64) -> (m: String)
    ensures
        m@ == "Split timed out after "@ + dec(secs as nat) + " seconds"@,
{
    let mut v: Vec<char> = Vec::new();
    append_str(&mut v, "Split timed out after ");
    append_decimal(&mut v, secs);
    append_str(&mut v, " seconds");
    string_of(v.as_slice())
}

} // verus!
