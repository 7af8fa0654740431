//! Audio attachments: which files can be transcribed, which need converting
//! first, the commands that download, convert and transcribe them, and what
//! a transcription reply means.

use vstd::prelude::*;
use crate::text::{append_str, chars_of, contains_seq, ends_with, lowercase, string_of, to_lowercase};

verus! {

/// The extensions Whisper accepts as they are.
pub open spec fn native_formats() -> Seq<Seq<char>> {
    seq![".mp3"@, ".mp4"@, ".m4a"@, ".wav"@, ".webm"@, ".mpeg"@, ".mpga"@]
}

/// The extensions that can be transcribed, converting when needed.
pub open spec fn supported_formats() -> Seq<Seq<char>> {
    native_formats() + seq![
        ".flac"@,
        ".ogg"@,
        ".aac"@,
        ".wma"@,
        ".mov"@,
        ".avi"@,
        ".mkv"@,
        ".opus"@,
        ".m4v"@,
    ]
}

/// `name` ends with one of `exts`.
pub open spec fn has_extension(name: Seq<char>, exts: Seq<Seq<char>>) -> bool {
    exists|k: int| 0 <= k < exts.len() && ends_with(name, #[trigger] exts[k])
}

const NATIVE: [&'static str; 7] = [".mp3", ".mp4", ".m4a", ".wav", ".webm", ".mpeg", ".mpga"];

const EXTRA: [&'static str; 9] = [".flac", ".ogg", ".aac", ".wma", ".mov", ".avi", ".mkv", ".opus", ".m4v"];

fn ends_with_any(name: &[char], exts: &[&'static str]) -> (b: bool)
    ensures
        b == exists|k: int| 0 <= k < exts@.len() && ends_with(name@, (#[trigger] exts@[k])@),
{
    let mut i: usize = 0;
    while i < exts.len()
        invariant
            i <= exts@.len(),
            forall|k: int| 0 <= k < i ==> !ends_with(name@, (#[trigger] exts@[k])@),
        decreases exts@.len() - i,
    {
        let e = chars_of(exts[i]);
        if crate::text::ends_with_chars(name, e.as_slice()) {
            return true;
        }
        i = i + 1;
    }
    false
}

proof fn lemma_tables()
    ensures
        forall|k: int| 0 <= k < 7 ==> (#[trigger] NATIVE@[k])@ == native_formats()[k],
        forall|k: int| 0 <= k < 9 ==> (#[trigger] EXTRA@[k])@ == supported_formats()[7 + k],
        NATIVE@.len() == 7,
        EXTRA@.len() == 9,
{
    reveal_strlit(".mp3");
    reveal_strlit(".mp4");
    reveal_strlit(".m4a");
    reveal_strlit(".wav");
    reveal_strlit(".webm");
    reveal_strlit(".mpeg");
    reveal_strlit(".mpga");
    reveal_strlit(".flac");
    reveal_strlit(".ogg");
    reveal_strlit(".aac");
    reveal_strlit(".wma");
    reveal_strlit(".mov");
    reveal_strlit(".avi");
    reveal_strlit(".mkv");
    reveal_strlit(".opus");
    reveal_strlit(".m4v");
}

/// Transcribes audio through the OpenAI API with its key.
#[derive(Clone)]
pub struct AudioTranscriber {
    openai_api_key: String,
}

impl AudioTranscriber {
    /// The API key used.
    pub closed spec fn key(&self) -> Seq<char> {
        self.openai_api_key@
    }

    pub fn new(openai_api_key: String) -> (t: Self)
        ensures
            t.key() == openai_api_key@,
    {
        AudioTranscriber { openai_api_key }
    }

    /// Whether a file name, in any case, has a supported audio extension.
    pub fn is_audio_file(&self, file_path: &str) -> (b: bool)
        ensures
            b == has_extension(lowercase(file_path@), supported_formats()),
    {
        let lower = to_lowercase(file_path);
        let name = chars_of(lower.as_str());
        proof {
            lemma_tables();
        }
        let native = ends_with_any(name.as_slice(), &NATIVE);
        let extra = ends_with_any(name.as_slice(), &EXTRA);
        proof {
            let n = lowercase(file_path@);
            if has_extension(n, supported_formats()) {
                let k = choose|k: int| 0 <= k < supported_formats().len() && ends_with(n, #[trigger] supported_formats()[k]);
                if k < 7 {
                    assert(NATIVE@[k]@ == native_formats()[k]);
                } else {
                    assert(EXTRA@[k - 7]@ == supported_formats()[k]);
                }
            }
            if native {
                let k = choose|k: int| 0 <= k < NATIVE@.len() && ends_with(n, (#[trigger] NATIVE@[k])@);
                assert(supported_formats()[k] == native_formats()[k]);
            }
            if extra {
                let k = choose|k: int| 0 <= k < EXTRA@.len() && ends_with(n, (#[trigger] EXTRA@[k])@);
                assert(ends_with(n, supported_formats()[7 + k]));
            }
        }
        native || extra
    }

    /// Whether a file must be converted before Whisper takes it.
    pub fn needs_conversion(&self, filename: &str) -> (b: bool)
        ensures
            b == !has_extension(lowercase(filename@), native_formats()),
    {
        let lower = to_lowercase(filename);
        let name = chars_of(lower.as_str());
        proof {
            lemma_tables();
        }
        let native = ends_with_any(name.as_slice(), &NATIVE);
        proof {
            let n = lowercase(filename@);
            if has_extension(n, native_formats()) {
                let k = choose|k: int| 0 <= k < native_formats().len() && ends_with(n, #[trigger] native_formats()[k]);
                assert(NATIVE@[k]@ == native_formats()[k]);
            }
        }
        !native
    }

    /// The arguments of the `curl` call that sends `file_path` to Whisper.
    pub fn transcription_args(&self, file_path: &str) -> (args: Vec<String>)
        ensures
            args@.len() == 9,
            args@[0]@ == "https://api.openai.com/v1/audio/transcriptions"@,
            args@[1]@ == "-H"@,
            args@[2]@ == "Authorization: Bearer "@ + self.key(),
            args@[3]@ == "-H"@,
            args@[4]@ == "Content-Type: multipart/form-data"@,
            args@[5]@ == "-F"@,
            args@[6]@ == "file=@"@ + file_path@,
            args@[7]@ == "-F"@,
            args@[8]@ == "model=whisper-1"@,
    {
        let mut auth: Vec<char> = Vec::new();
        append_str(&mut auth, "Authorization: Bearer ");
        append_str(&mut auth, self.openai_api_key.as_str());
        let mut file: Vec<char> = Vec::new();
        append_str(&mut file, "file=@");
        append_str(&mut file, file_path);
        let mut args: Vec<String> = Vec::new();
        args.push("https://api.openai.com/v1/audio/transcriptions".to_owned());
        args.push("-H".to_owned());
        args.push(string_of(auth.as_slice()));
        args.push("-H".to_owned());
        args.push("Content-Type: multipart/form-data".to_owned());
        args.push("-F".to_owned());
        args.push(string_of(file.as_slice()));
        args.push("-F".to_owned());
        args.push("model=whisper-1".to_owned());
        args
    }
}

/// Where a downloaded attachment is kept.
pub fn download_path(filename: &str) -> (p: String)
    ensures
        p@ == "/tmp/discord_audio_"@ + filename@,
{
    let mut v: Vec<char> = Vec::new();
    append_str(&mut v, "/tmp/discord_audio_");
    append_str(&mut v, filename);
    string_of(v.as_slice())
}

/// The last index of `c` in `s`, if it occurs.
pub open spec fn last_index_of(s: Seq<char>, c: char) -> Option<int>
    decreases s.len(),
{
    if s.len() == 0 {
        None
    } else if s.last() == c {
        Some(s.len() - 1)
    } else {
        last_index_of(s.drop_last(), c)
    }
}

/// The converted file's path: the input's extension replaced by `.mp3`, or
/// `.mp3` appended when it has none.
pub open spec fn mp3_path(input: Seq<char>) -> Seq<char> {
    match last_index_of(input, '.') {
        Some(k) => input.take(k) + ".mp3"@,
        None => input + ".mp3"@,
    }
}

/// The path ffmpeg writes the converted file to.
pub fn mp3_output_path(input_path: &str) -> (p: String)
    ensures
        p@ == mp3_path(input_path@),
{
    let cs = chars_of(input_path);
    let mut i: usize = cs.len();
    assert(cs@.take(i as int) =~= cs@);
    while i > 0
        invariant
            i <= cs@.len(),
            cs@ == input_path@,
            last_index_of(cs@, '.') == last_index_of(cs@.take(i as int), '.'),
        decreases i,
    {
        assert(cs@.take(i as int).last() == cs@[i - 1]);
        assert(cs@.take(i as int).drop_last() =~= cs@.take(i - 1));
        if cs[i - 1] == '.' {
            assert(last_index_of(cs@.take(i as int), '.') == Some((i - 1) as int));
            let mut v = crate::text::copy_range(cs.as_slice(), 0, i - 1);
            assert(v@ =~= cs@.take(i - 1));
            append_str(&mut v, ".mp3");
            return string_of(v.as_slice());
        }
        i = i - 1;
    }
    let mut v = cs;
    append_str(&mut v, ".mp3");
    string_of(v.as_slice())
}

/// The arguments of the ffmpeg call that converts `input` to mp3 at `output`.
pub fn ffmpeg_args(input: &str, output: &str) -> (args: Vec<String>)
    ensures
        args@.len() == 9,
        args@[0]@ == "-i"@,
        args@[1]@ == input@,
        args@[2]@ == "-vn"@,
        args@[3]@ == "-acodec"@,
        args@[4]@ == "libmp3lame"@,
        args@[5]@ == "-q:a"@,
        args@[6]@ == "2"@,
        args@[7]@ == "-y"@,
        args@[8]@ == output@,
{
    let mut args: Vec<String> = Vec::new();
    args.push("-i".to_owned());
    args.push(input.to_owned());
    args.push("-vn".to_owned());
    args.push("-acodec".to_owned());
    args.push("libmp3lame".to_owned());
    args.push("-q:a".to_owned());
    args.push("2".to_owned());
    args.push("-y".to_owned());
    args.push(output.to_owned());
    args
}

/// Why a conversion failed, from ffmpeg's error output.
pub open spec fn ffmpeg_failure_text(stderr: Seq<char>) -> Seq<char> {
    if contains_seq(stderr, "not found"@) || contains_seq(stderr, "No such file"@) {
        "FFmpeg is required for this format but not installed. Install with: apt install ffmpeg"@
    } else {
        "FFmpeg conversion failed: "@ + stderr
    }
}

/// The error reported when ffmpeg fails.
pub fn ffmpeg_failure_message(stderr: &str) -> (m: String)
    ensures
        m@ == ffmpeg_failure_text(stderr@),
{
    let s = chars_of(stderr);
    let nf = chars_of("not found");
    let ns = chars_of("No such file");
    if crate::text::contains_chars(s.as_slice(), nf.as_slice()) || crate::text::contains_chars(
        s.as_slice(),
        ns.as_slice(),
    ) {
        "FFmpeg is required for this format but not installed. Install with: apt install ffmpeg".to_owned()
    } else {
        let mut v: Vec<char> = Vec::new();
        append_str(&mut v, "FFmpeg conversion failed: ");
        append_str(&mut v, stderr);
        string_of(v.as_slice())
    }
}

/// What a transcription reply means: its `text` field is the transcript; an
/// `error` field (as JSON text) is an API error; anything else is an
/// unexpected reply.
pub open spec fn transcription_outcome_spec(text: Option<Seq<char>>, error: Option<Seq<char>>) -> Result<Seq<char>, Seq<char>> {
    match text {
        Some(t) => Ok(t),
        None => match error {
            Some(e) => Err("OpenAI API error: "@ + e),
            None => Err("Unexpected response format"@),
        },
    }
}

/// The transcript, or the error to report, from the reply's `text` field
/// and its `error` field.
pub fn transcription_outcome(text: Option<String>, error: Option<String>) -> (r: Result<String, String>)
    ensures
        match r {
            Ok(t) => transcription_outcome_spec(
                match text { Some(t) => Some(t@), None => None },
                match error { Some(e) => Some(e@), None => None },
            ) == Ok::<Seq<char>, Seq<char>>(t@),
            Err(e) => transcription_outcome_spec(
                match text { Some(t) => Some(t@), None => None },
                match error { Some(e) => Some(e@), None => None },
            ) == Err::<Seq<char>, Seq<char>>(e@),
        },
{
    match text {
        Some(t) => Ok(t),
        None => match error {
            Some(e) => {
                let mut v: Vec<char> = Vec::new();
                append_str(&mut v, "OpenAI API error: ");
                append_str(&mut v, e.as_str());
                Err(string_of(v.as_slice()))
            },
            None => Err("Unexpected response format".to_owned()),
        },
    }
}

/// The message for a failed `curl` transcription call.
pub fn transcription_failure_message(stderr: &str) -> (m: String)
    ensures
        m@ == "Transcription failed: "@ + stderr@,
{
    let mut v: Vec<char> = Vec::new();
    append_str(&mut v, "Transcription failed: ");
    append_str(&mut v, stderr);
    string_of(v.as_slice())
}

} // verus!
