//! YouTube URLs: which video and playlist a URL names, and estimates of how
//! long transcribing a playlist takes.

use vstd::prelude::*;
use crate::plugins::config::regex_compile_error;
use crate::text::{append_decimal, append_str, dec, string_of};

verus! {

/// Type of YouTube URL detected.
#[derive(Debug, Clone, Copy, PartialEq, Eq, Structural)]
pub enum YouTubeUrlType {
    /// Single video URL (no playlist context)
    SingleVideo,
    /// Direct playlist URL (youtube.com/playlist?list=...)
    Playlist,
    /// Video URL that includes a playlist reference (&list=...)
    VideoInPlaylist,
}

/// Parsed YouTube URL information.
#[derive(Debug, Clone)]
pub struct YouTubeUrl {
    /// Original URL
    pub original_url: String,
    /// Extracted video ID (if present)
    pub video_id: Option<String>,
    /// Extracted playlist ID (if present)
    pub playlist_id: Option<String>,
    /// Type of URL detected
    pub url_type: YouTubeUrlType,
}

/// A video item from a playlist.
#[derive(Debug, Clone)]
pub struct PlaylistItem {
    /// Video ID
    pub video_id: String,
    /// Video title
    pub title: String,
    /// Video URL
    pub url: String,
    /// Duration in seconds (if available)
    pub duration: Option<u64>,
    /// Position in playlist (0-indexed)
    pub index: usize,
}

/// Playlist metadata.
#[derive(Debug, Clone)]
pub struct PlaylistInfo {
    /// Playlist ID
    pub id: String,
    /// Playlist title
    pub title: String,
    /// Uploader/channel name
    pub uploader: Option<String>,
    /// Total video count (may differ from items if some are unavailable)
    pub video_count: usize,
    /// Videos in the playlist
    pub items: Vec<PlaylistItem>,
}

/// The text of the first capture group of the leftmost match of the `regex`
/// pattern in `text`, if the pattern matches there and the group took part.
pub uninterp spec fn regex_first_capture(pattern: Seq<char>, text: Seq<char>) -> Option<Seq<char>>;

/// `regex::Regex::new(pattern)`, then `captures(text)` and group 1: the
/// compile error's text, or the captured text if the pattern matches. What
/// the pattern matches is the `regex` crate's own grammar, named by
/// `regex_first_capture`.
#[verifier::external_body]
fn regex_capture(pattern: &str, text: &str) -> (r: Result<Option<String>, String>)
    ensures
        r matches Err(m) ==> regex_compile_error(pattern@) == Some(m@),
        r matches Ok(c) ==> regex_compile_error(pattern@) is None && match c {
            Some(s) => regex_first_capture(pattern@, text@) == Some(s@),
            None => regex_first_capture(pattern@, text@) is None,
        },
{
    let re = match regex::Regex::new(pattern) {
        Ok(re) => re,
        Err(e) => return Err(e.to_string()),
    };
    match re.captures(text) {
        Some(c) => match c.get(1) {
            Some(m) => Ok(Some(m.as_str().to_string())),
            None => Ok(None),
        },
        None => Ok(None),
    }
}

/// The video URL patterns, tried in order: watch, shorts, youtu.be.
pub open spec fn video_patterns() -> Seq<Seq<char>> {
    seq![
        "(?:youtube\\.com/watch\\?(?:[^&]*&)*v=)([a-zA-Z0-9_-]{11})"@,
        "youtube\\.com/shorts/([a-zA-Z0-9_-]{11})"@,
        "youtu\\.be/([a-zA-Z0-9_-]{11})"@,
    ]
}

/// The pattern of a direct playlist URL.
pub open spec fn direct_playlist_pattern() -> Seq<char> {
    "youtube\\.com/playlist\\?(?:[^&]*&)*list=([a-zA-Z0-9_-]+)"@
}

/// The pattern of a `list=` parameter.
pub open spec fn list_param_pattern() -> Seq<char> {
    "[?&]list=([a-zA-Z0-9_-]+)"@
}

/// What a pattern captures in `url`: nothing when it does not compile.
pub open spec fn capture_of(pattern: Seq<char>, url: Seq<char>) -> Option<Seq<char>> {
    if regex_compile_error(pattern) is Some {
        None
    } else {
        regex_first_capture(pattern, url)
    }
}

/// The video id among the captures of the watch, shorts and youtu.be
/// patterns: the first one there is.
pub open spec fn chosen_video(watch: Option<Seq<char>>, shorts: Option<Seq<char>>, short_link: Option<Seq<char>>) -> Option<
    Seq<char>,
> {
    if watch is Some {
        watch
    } else if shorts is Some {
        shorts
    } else {
        short_link
    }
}

/// The playlist id among the captures of the direct playlist and `list=`
/// patterns: the direct one when there is one.
pub open spec fn chosen_playlist(direct: Option<Seq<char>>, list_param: Option<Seq<char>>) -> Option<Seq<char>> {
    if direct is Some {
        direct
    } else {
        list_param
    }
}

/// The video id of `url`: what the first video pattern that matches captures.
pub open spec fn video_id_of(url: Seq<char>) -> Option<Seq<char>> {
    let ps = video_patterns();
    chosen_video(capture_of(ps[0], url), capture_of(ps[1], url), capture_of(ps[2], url))
}

/// The playlist id of `url`: from a direct playlist URL, else from a `list=` parameter.
pub open spec fn playlist_id_of(url: Seq<char>) -> Option<Seq<char>> {
    chosen_playlist(capture_of(direct_playlist_pattern(), url), capture_of(list_param_pattern(), url))
}

/// What a URL is, given the video id and playlist id read from it; a URL
/// with neither is refused.
pub open spec fn url_outcome(url: Seq<char>, v: Option<Seq<char>>, p: Option<Seq<char>>, r: Result<YouTubeUrl, String>) -> bool {
    match (v, p) {
        (None, None) => r matches Err(m) && m@ == "Invalid YouTube URL: could not extract video or playlist ID"@,
        _ => r matches Ok(y) && y.original_url@ == url && opt_view(y.video_id) == v && opt_view(y.playlist_id)
            == p && y.url_type == (if v is None {
            YouTubeUrlType::Playlist
        } else if p is Some {
            YouTubeUrlType::VideoInPlaylist
        } else {
            YouTubeUrlType::SingleVideo
        }),
    }
}

/// The view of an optional string.
pub open spec fn opt_view(o: Option<String>) -> Option<Seq<char>> {
    match o {
        Some(s) => Some(s@),
        None => None,
    }
}

fn capture(pattern: &str, url: &str) -> (r: Option<String>)
    ensures
        opt_view(r) == capture_of(pattern@, url@),
{
    match regex_capture(pattern, url) {
        Ok(c) => c,
        Err(_) => None,
    }
}

/// What a URL is, given what the video patterns (watch, shorts, youtu.be)
/// and the playlist patterns (direct playlist, `list=`) captured in it.
pub fn youtube_url_from_captures(
    url: &str,
    watch: Option<String>,
    shorts: Option<String>,
    short_link: Option<String>,
    direct: Option<String>,
    list_param: Option<String>,
) -> (r: Result<YouTubeUrl, String>)
    ensures
        url_outcome(
            url@,
            chosen_video(opt_view(watch), opt_view(shorts), opt_view(short_link)),
            chosen_playlist(opt_view(direct), opt_view(list_param)),
            r,
        ),
{
    let video_id = if watch.is_some() {
        watch
    } else if shorts.is_some() {
        shorts
    } else {
        short_link
    };
    let playlist_id = if direct.is_some() {
        direct
    } else {
        list_param
    };
    let url_type = match (&video_id, &playlist_id) {
        (None, Some(_)) => YouTubeUrlType::Playlist,
        (Some(_), Some(_)) => YouTubeUrlType::VideoInPlaylist,
        (Some(_), None) => YouTubeUrlType::SingleVideo,
        (None, None) => {
            return Err("Invalid YouTube URL: could not extract video or playlist ID".to_owned());
        },
    };
    Ok(YouTubeUrl { original_url: url.to_owned(), video_id, playlist_id, url_type })
}

/// Reads the video id, the playlist id and the kind of a YouTube URL; a URL
/// with neither is refused.
pub fn parse_youtube_url(url: &str) -> (r: Result<YouTubeUrl, String>)
    ensures
        url_outcome(url@, video_id_of(url@), playlist_id_of(url@), r),
{
    proof {
        reveal_strlit("(?:youtube\\.com/watch\\?(?:[^&]*&)*v=)([a-zA-Z0-9_-]{11})");
        reveal_strlit("youtube\\.com/shorts/([a-zA-Z0-9_-]{11})");
        reveal_strlit("youtu\\.be/([a-zA-Z0-9_-]{11})");
        reveal_strlit("youtube\\.com/playlist\\?(?:[^&]*&)*list=([a-zA-Z0-9_-]+)");
        reveal_strlit("[?&]list=([a-zA-Z0-9_-]+)");
    }
    let watch = capture("(?:youtube\\.com/watch\\?(?:[^&]*&)*v=)([a-zA-Z0-9_-]{11})", url);
    let shorts = capture("youtube\\.com/shorts/([a-zA-Z0-9_-]{11})", url);
    let short_link = capture("youtu\\.be/([a-zA-Z0-9_-]{11})", url);
    let direct = capture("youtube\\.com/playlist\\?(?:[^&]*&)*list=([a-zA-Z0-9_-]+)", url);
    let list_param = capture("[?&]list=([a-zA-Z0-9_-]+)", url);
    youtube_url_from_captures(url, watch, shorts, short_link, direct, list_param)
}

impl YouTubeUrl {
    /// Whether the URL names a playlist.
    pub fn has_playlist(&self) -> (b: bool)
        ensures
            b == self.playlist_id is Some,
    {
        self.playlist_id.is_some()
    }

    /// Whether the URL is a single video with no playlist.
    pub fn is_single_video(&self) -> (b: bool)
        ensures
            b == (self.url_type == YouTubeUrlType::SingleVideo),
    {
        self.url_type == YouTubeUrlType::SingleVideo
    }

    /// The playlist's own URL, for enumeration.
    pub fn playlist_url(&self) -> (r: Option<String>)
        ensures
            match self.playlist_id {
                Some(id) => r matches Some(u) && u@ == "https://www.youtube.com/playlist?list="@ + id@,
                None => r is None,
            },
    {
        match &self.playlist_id {
            Some(id) => Some(playlist_page_url(id.as_str())),
            None => None,
        }
    }
}

/// `https://www.youtube.com/playlist?list={id}`.
pub fn playlist_page_url(id: &str) -> (u: String)
    ensures
        u@ == "https://www.youtube.com/playlist?list="@ + id@,
{
    let mut v: Vec<char> = Vec::new();
    append_str(&mut v, "https://www.youtube.com/playlist?list=");
    append_str(&mut v, id);
    string_of(v.as_slice())
}

/// `https://www.youtube.com/watch?v={id}`: the URL of a playlist video.
pub fn watch_url(video_id: &str) -> (u: String)
    ensures
        u@ == "https://www.youtube.com/watch?v="@ + video_id@,
{
    let mut v: Vec<char> = Vec::new();
    append_str(&mut v, "https://www.youtube.com/watch?v=");
    append_str(&mut v, video_id);
    string_of(v.as_slice())
}

/// The total known duration of `items`, in seconds.
pub open spec fn total_duration(items: Seq<PlaylistItem>) -> nat
    decreases items.len(),
{
    if items.len() == 0 {
        0
    } else {
        total_duration(items.drop_last()) + match items.last().duration {
            Some(d) => d as nat,
            None => 0nat,
        }
    }
}

/// The estimate of transcribing `items`: one and a half times their known
/// duration, rounded down, plus 30 seconds per video.
pub open spec fn transcription_estimate(items: Seq<PlaylistItem>) -> nat {
    total_duration(items) * 3 / 2 + items.len() * 30
}

proof fn lemma_total_duration_prefix(items: Seq<PlaylistItem>, i: int)
    requires
        0 <= i <= items.len(),
    ensures
        total_duration(items.take(i)) <= total_duration(items),
    decreases items.len() - i,
{
    if i < items.len() {
        lemma_total_duration_prefix(items, i + 1);
        assert(items.take(i + 1).drop_last() =~= items.take(i));
    } else {
        assert(items.take(i) =~= items);
    }
}

/// Estimates how long transcribing a playlist takes, in seconds: one and a
/// half times the total duration, rounded down, plus 30 seconds a video. The sum of the durations is kept below 2^52
/// seconds, the range in which a double-precision product of it is exact.
pub fn estimate_transcription_time(items: &[PlaylistItem]) -> (secs: u64)
    requires
        total_duration(items@) < 0x10_0000_0000_0000,
        transcription_estimate(items@) <= u64::MAX,
    ensures
        secs == transcription_estimate(items@),
{
    let mut total: u64 = 0;
    let mut i: usize = 0;
    assert(items@.take(0) =~= Seq::<PlaylistItem>::empty());
    while i < items.len()
        invariant
            i <= items@.len(),
            total == total_duration(items@.take(i as int)),
            total_duration(items@) < 0x10_0000_0000_0000,
        decreases items@.len() - i,
    {
        proof {
            assert(items@.take(i + 1).drop_last() =~= items@.take(i as int));
            lemma_total_duration_prefix(items@, i + 1);
        }
        match items[i].duration {
            Some(d) => total = total + d,
            None => {},
        }
        i = i + 1;
    }
    assert(items@.take(items@.len() as int) =~= items@);
    total * 3 / 2 + (items.len() as u64) * 30
}

/// A duration as the playlist messages show it: `~{h}h {m}m`, `~{m}m` or `< 1m`.
pub open spec fn duration_text(secs: nat) -> Seq<char> {
    let hours = secs / 3600;
    let minutes = (secs % 3600) / 60;
    if hours > 0 {
        "~"@ + dec(hours) + "h "@ + dec(minutes) + "m"@
    } else if minutes > 0 {
        "~"@ + dec(minutes) + "m"@
    } else {
        "< 1m"@
    }
}

/// Formats a duration given in whole seconds.
pub fn format_duration(total_secs: u64) -> (s: String)
    ensures
        s@ == duration_text(total_secs as nat),
{
    let hours = total_secs / 3600;
    let minutes = (total_secs % 3600) / 60;
    let mut v: Vec<char> = Vec::new();
    if hours > 0 {
        append_str(&mut v, "~");
        append_decimal(&mut v, hours);
        append_str(&mut v, "h ");
        append_decimal(&mut v, minutes);
        append_str(&mut v, "m");
    } else if minutes > 0 {
        append_str(&mut v, "~");
        append_decimal(&mut v, minutes);
        append_str(&mut v, "m");
    } else {
        append_str(&mut v, "< 1m");
    }
    string_of(v.as_slice())
}


/// One line of `yt-dlp --flat-playlist --dump-json` output, as read.
#[derive(Debug, Clone)]
pub enum PlaylistLine {
    /// A blank line.
    Blank,
    /// A line that is not JSON; the parser's message.
    Invalid(String),
    /// A video entry: its fields, where present as the expected type.
    Entry {
        id: Option<String>,
        title: Option<String>,
        duration: Option<u64>,
        playlist_title: Option<String>,
        uploader: Option<String>,
    },
}

/// The error for an output line that is not JSON.
pub open spec fn invalid_line_text(msg: Seq<char>) -> Seq<char> {
    "Failed to parse yt-dlp JSON output: "@ + msg
}

/// What the lines `ls`, starting at line `first`, give: the first error in
/// order, or the video items (blank lines skipped, each item numbered by its
/// line).
pub open spec fn playlist_items(ls: Seq<PlaylistLine>) -> Result<Seq<(Seq<char>, Seq<char>, Option<u64>, int)>, Seq<char>>
    decreases ls.len(),
{
    if ls.len() == 0 {
        Ok(Seq::empty())
    } else {
        match playlist_items(ls.drop_last()) {
            Err(e) => Err(e),
            Ok(items) => match ls.last() {
                PlaylistLine::Blank => Ok(items),
                PlaylistLine::Invalid(m) => Err(invalid_line_text(m@)),
                PlaylistLine::Entry { id, title, duration, .. } => match id {
                    None => Err("Missing video ID in playlist item"@),
                    Some(v) => Ok(items.push((v@, match title {
                        Some(t) => t@,
                        None => "Unknown Title"@,
                    }, duration, ls.len() - 1))),
                },
            },
        }
    }
}

/// The playlist's title and uploader, from its first line when that line is
/// an entry.
pub open spec fn playlist_meta(ls: Seq<PlaylistLine>) -> (Seq<char>, Option<Seq<char>>) {
    if ls.len() > 0 {
        match ls[0] {
            PlaylistLine::Entry { playlist_title, uploader, .. } => (match playlist_title {
                Some(t) => t@,
                None => "Unknown Playlist"@,
            }, opt_view(uploader)),
            _ => (Seq::empty(), None),
        }
    } else {
        (Seq::empty(), None)
    }
}

/// A playlist item as plain values: id, title, duration and position.
pub open spec fn item_view(i: PlaylistItem) -> (Seq<char>, Seq<char>, Option<u64>, int) {
    (i.video_id@, i.title@, i.duration, i.index as int)
}

fn copy_str(s: &String) -> (r: String)
    ensures
        r@ == s@,
{
    s.clone()
}

/// Build the playlist `playlist_id` from yt-dlp's output lines: the first
/// malformed line or entry without an id is an error, and so is a playlist
/// without entries.
pub fn playlist_from_lines(playlist_id: &str, lines: &Vec<PlaylistLine>) -> (r: Result<PlaylistInfo, String>)
    ensures
        match r {
            Ok(info) => {
                &&& playlist_items(lines@) matches Ok(items) && items.len() > 0
                    && info.items@.map_values(|i: PlaylistItem| item_view(i)) == items
                &&& forall|k: int| 0 <= k < info.items@.len() ==> (#[trigger] info.items@[k]).url@
                    == "https://www.youtube.com/watch?v="@ + info.items@[k].video_id@
                &&& info.id@ == playlist_id@
                &&& info.video_count == info.items@.len()
                &&& (info.title@, opt_view(info.uploader)) == playlist_meta(lines@)
            },
            Err(e) => match playlist_items(lines@) {
                Err(m) => e@ == m,
                Ok(items) => items.len() == 0 && e@ == "Playlist is empty or unavailable"@,
            },
        },
{
    let mut items: Vec<PlaylistItem> = Vec::new();
    let mut title: String = String::new();
    let mut uploader: Option<String> = None;
    let mut i: usize = 0;
    assert(lines@.take(0) =~= Seq::<PlaylistLine>::empty());
    assert(items@.map_values(|it: PlaylistItem| item_view(it)) =~= Seq::<(Seq<char>, Seq<char>, Option<u64>, int)>::empty());
    while i < lines.len()
        invariant
            i <= lines@.len(),
            playlist_items(lines@.take(i as int)) matches Ok(its) && items@.map_values(|it: PlaylistItem| item_view(it)) == its,
            forall|k: int| 0 <= k < items@.len() ==> (#[trigger] items@[k]).url@ == "https://www.youtube.com/watch?v="@
                + items@[k].video_id@,
            i > 0 ==> (title@, opt_view(uploader)) == playlist_meta(lines@),
            i == 0 ==> title@.len() == 0 && uploader is None,
        decreases lines@.len() - i,
    {
        let ghost before = items@.map_values(|it: PlaylistItem| item_view(it));
        assert(lines@.take(i + 1).drop_last() =~= lines@.take(i as int));
        assert(lines@.take(i + 1).last() == lines@[i as int]);
        match &lines[i] {
            PlaylistLine::Blank => {},
            PlaylistLine::Invalid(m) => {
                let mut v: Vec<char> = Vec::new();
                append_str(&mut v, "Failed to parse yt-dlp JSON output: ");
                append_str(&mut v, m.as_str());
                proof {
                    lemma_playlist_items_err_sticks(lines@, (i + 1) as int);
                }
                return Err(string_of(v.as_slice()));
            },
            PlaylistLine::Entry { id, title: t, duration, playlist_title, uploader: up } => {
                match id {
                    None => {
                        proof {
                            lemma_playlist_items_err_sticks(lines@, (i + 1) as int);
                        }
                        return Err("Missing video ID in playlist item".to_owned());
                    },
                    Some(vid) => {
                        let item_title = match t {
                            Some(x) => copy_str(x),
                            None => "Unknown Title".to_owned(),
                        };
                        let url = watch_url(vid.as_str());
                        items.push(PlaylistItem { video_id: copy_str(vid), title: item_title, url, duration: *duration, index: i });
                        assert(items@.map_values(|it: PlaylistItem| item_view(it)) =~= before.push(item_view(items@.last())));
                        if i == 0 {
                            title = match playlist_title {
                                Some(x) => copy_str(x),
                                None => "Unknown Playlist".to_owned(),
                            };
                            uploader = match up {
                                Some(x) => Some(copy_str(x)),
                                None => None,
                            };
                        }
                    },
                }
            },
        }
        i = i + 1;
    }
    assert(lines@.take(lines@.len() as int) =~= lines@);
    if items.len() == 0 {
        return Err("Playlist is empty or unavailable".to_owned());
    }
    let n = items.len();
    Ok(PlaylistInfo { id: playlist_id.to_owned(), title, uploader, video_count: n, items })
}

proof fn lemma_playlist_items_err_sticks(ls: Seq<PlaylistLine>, i: int)
    requires
        0 < i <= ls.len(),
        playlist_items(ls.take(i)) is Err,
    ensures
        playlist_items(ls) == playlist_items(ls.take(i)),
    decreases ls.len() - i,
{
    if i < ls.len() {
        assert(ls.take(i + 1).drop_last() =~= ls.take(i));
        lemma_playlist_items_err_sticks(ls, i + 1);
    } else {
        assert(ls.take(i) =~= ls);
    }
}

/// The arguments of the yt-dlp call that lists playlist `playlist_id`, at
/// most `max_videos` entries when given.
pub fn enumeration_args(playlist_id: &str, max_videos: Option<u32>) -> (args: Vec<String>)
    ensures
        args@.len() == if max_videos is Some { 7int } else { 5int },
        args@[0]@ == "--flat-playlist"@,
        args@[1]@ == "--dump-json"@,
        args@[2]@ == "--no-warnings"@,
        args@[3]@ == "--quiet"@,
        max_videos matches Some(m) ==> args@[4]@ == "--playlist-end"@ && args@[5]@ == dec(m as nat),
        args@.last()@ == "https://www.youtube.com/playlist?list="@ + playlist_id@,
{
    let mut args: Vec<String> = Vec::new();
    args.push("--flat-playlist".to_owned());
    args.push("--dump-json".to_owned());
    args.push("--no-warnings".to_owned());
    args.push("--quiet".to_owned());
    match max_videos {
        Some(m) => {
            args.push("--playlist-end".to_owned());
            let mut v: Vec<char> = Vec::new();
            crate::text::append_decimal(&mut v, m as u64);
            args.push(string_of(v.as_slice()));
        },
        None => {},
    }
    args.push(playlist_page_url(playlist_id));
    args
}

/// The error for a failed playlist listing.
pub fn enumeration_failure_message(stderr: &str) -> (m: String)
    ensures
        m@ == "yt-dlp failed to enumerate playlist: "@ + stderr@,
{
    let mut v: Vec<char> = Vec::new();
    append_str(&mut v, "yt-dlp failed to enumerate playlist: ");
    append_str(&mut v, stderr);
    string_of(v.as_slice())
}

/// `c` may stand in a YouTube video or playlist id: an ASCII letter or
/// digit, `_` or `-`.
pub open spec fn id_char(c: char) -> bool {
    ('a' <= c && c <= 'z') || ('A' <= c && c <= 'Z') || ('0' <= c && c <= '9') || c == '_' || c == '-'
}

/// The characters a regex bracket class admits, read from its body: `x-y`
/// admits the range from `x` to `y`, any other character itself (a `-` at
/// the end stands for itself).
pub open spec fn class_admits(body: Seq<char>, c: char) -> bool
    decreases body.len(),
{
    if body.len() == 0 {
        false
    } else if body.len() >= 3 && body[1] == '-' {
        (body[0] <= c && c <= body[2]) || class_admits(body.skip(3), c)
    } else {
        body[0] == c || class_admits(body.skip(1), c)
    }
}

/// The bracket class the id patterns use.
pub open spec fn id_class() -> Seq<char> {
    "a-zA-Z0-9_-"@
}

/// Law: each video pattern ends in a group that captures exactly 11
/// characters, and each playlist pattern in a group that captures one or
/// more, all from a class that admits exactly the id characters (letters,
/// digits, `_` and `-`).
pub proof fn lemma_id_patterns_capture_id_chars()
    ensures
        video_patterns()[0] == "(?:youtube\\.com/watch\\?(?:[^&]*&)*v=)"@ + "(["@ + id_class() + "]{11})"@,
        video_patterns()[1] == "youtube\\.com/shorts/"@ + "(["@ + id_class() + "]{11})"@,
        video_patterns()[2] == "youtu\\.be/"@ + "(["@ + id_class() + "]{11})"@,
        direct_playlist_pattern() == "youtube\\.com/playlist\\?(?:[^&]*&)*list="@ + "(["@ + id_class() + "]+)"@,
        list_param_pattern() == "[?&]list="@ + "(["@ + id_class() + "]+)"@,
        forall|c: char| class_admits(id_class(), c) <==> id_char(c),
{
    reveal_strlit("(?:youtube\\.com/watch\\?(?:[^&]*&)*v=)([a-zA-Z0-9_-]{11})");
    reveal_strlit("youtube\\.com/shorts/([a-zA-Z0-9_-]{11})");
    reveal_strlit("youtu\\.be/([a-zA-Z0-9_-]{11})");
    reveal_strlit("youtube\\.com/playlist\\?(?:[^&]*&)*list=([a-zA-Z0-9_-]+)");
    reveal_strlit("[?&]list=([a-zA-Z0-9_-]+)");
    reveal_strlit("(?:youtube\\.com/watch\\?(?:[^&]*&)*v=)");
    reveal_strlit("youtube\\.com/shorts/");
    reveal_strlit("youtu\\.be/");
    reveal_strlit("youtube\\.com/playlist\\?(?:[^&]*&)*list=");
    reveal_strlit("[?&]list=");
    reveal_strlit("([");
    reveal_strlit("]{11})");
    reveal_strlit("]+)");
    reveal_strlit("a-zA-Z0-9_-");
    assert(video_patterns()[0] =~= "(?:youtube\\.com/watch\\?(?:[^&]*&)*v=)"@ + "(["@ + id_class() + "]{11})"@);
    assert(video_patterns()[1] =~= "youtube\\.com/shorts/"@ + "(["@ + id_class() + "]{11})"@);
    assert(video_patterns()[2] =~= "youtu\\.be/"@ + "(["@ + id_class() + "]{11})"@);
    assert(direct_playlist_pattern() =~= "youtube\\.com/playlist\\?(?:[^&]*&)*list="@ + "(["@ + id_class() + "]+)"@);
    assert(list_param_pattern() =~= "[?&]list="@ + "(["@ + id_class() + "]+)"@);
    let b = id_class();
    assert(b.skip(3) =~= seq!['A', '-', 'Z', '0', '-', '9', '_', '-']);
    assert(b.skip(3).skip(3) =~= seq!['0', '-', '9', '_', '-']);
    assert(b.skip(3).skip(3).skip(3) =~= seq!['_', '-']);
    assert(b.skip(3).skip(3).skip(3).skip(1) =~= seq!['-']);
    assert(b.skip(3).skip(3).skip(3).skip(1).skip(1) =~= Seq::<char>::empty());
    assert forall|c: char| class_admits(id_class(), c) <==> id_char(c) by {
        reveal_with_fuel(class_admits, 6);
    }
}

/// Law: what a URL is follows from what the patterns captured in it. It is
/// refused exactly when nothing was captured; otherwise it keeps the URL,
/// takes the watch capture as its video id when there is one, else the
/// shorts one, else the youtu.be one, takes the direct playlist capture as
/// its playlist id when there is one, else the `list=` one, and is a
/// playlist when it has no video id, a single video when it has a video id
/// and no playlist id, and a video in a playlist when it has both.
pub proof fn lemma_url_from_captures(
    url: Seq<char>,
    watch: Option<Seq<char>>,
    shorts: Option<Seq<char>>,
    short_link: Option<Seq<char>>,
    direct: Option<Seq<char>>,
    list_param: Option<Seq<char>>,
    r: Result<YouTubeUrl, String>,
)
    requires
        url_outcome(url, chosen_video(watch, shorts, short_link), chosen_playlist(direct, list_param), r),
    ensures
        r is Err <==> (watch is None && shorts is None && short_link is None && direct is None && list_param is None),
        r matches Err(m) ==> m@ == "Invalid YouTube URL: could not extract video or playlist ID"@,
        r matches Ok(y) ==> y.original_url@ == url,
        r matches Ok(y) ==> (watch is Some ==> opt_view(y.video_id) == watch) && (watch is None && shorts is Some
            ==> opt_view(y.video_id) == shorts) && (watch is None && shorts is None ==> opt_view(y.video_id)
            == short_link),
        r matches Ok(y) ==> (direct is Some ==> opt_view(y.playlist_id) == direct) && (direct is None ==> opt_view(
            y.playlist_id,
        ) == list_param),
        r matches Ok(y) ==> (y.url_type == YouTubeUrlType::Playlist <==> y.video_id is None) && (y.url_type
            == YouTubeUrlType::SingleVideo <==> (y.video_id is Some && y.playlist_id is None)) && (y.url_type
            == YouTubeUrlType::VideoInPlaylist <==> (y.video_id is Some && y.playlist_id is Some)),
{
}

} // verus!
