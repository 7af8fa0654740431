use persona_bot::debate::{missing_persona_message, skipped_turn_message, DebateRun};
use persona_bot::plugins::config::{ChunkingConfig, ExecutionConfig};
use persona_bot::plugins::executor::{
    chunk_timed_out_result, completed_result, spawn_failure_message, timed_out_result, ExecError, PluginExecutor,
};
use persona_bot::startup::{format_commits_for_channel, online_title, shard_field, started_footer, version_field, CommitInfo};
use std::collections::HashMap;

#[test]
fn test_debate_run_rounds() {
    let mut run = DebateRun::start(3);
    assert!(run.has_next_round());
    assert_eq!(run.round(), 1);
    run.response_received("opening".to_string());
    run.response_failed();
    assert_eq!(run.round(), 3);
    assert_eq!(run.history().len(), 1);
    assert_eq!(run.history()[0].0, "assistant");
    run.response_received("closing".to_string());
    assert!(!run.has_next_round());
    assert_eq!(run.history().len(), 2);

    let mut cut = DebateRun::start(4);
    cut.post_failed();
    assert!(!cut.has_next_round());
    assert_eq!(missing_persona_message("zed"), "Persona 'zed' not found");
    assert_eq!(skipped_turn_message("Obi"), "*Obi seems lost in thought... (API error, skipping turn)*");
}

fn config(command: &str, args: &[&str]) -> ExecutionConfig {
    ExecutionConfig {
        command: command.to_string(),
        args: args.iter().map(|a| a.to_string()).collect(),
        timeout_seconds: 30,
        working_directory: None,
        max_output_bytes: 100,
        env: HashMap::new(),
        chunking: None,
    }
}

#[test]
fn test_prepare_execution() {
    let executor = PluginExecutor::new(vec!["echo".to_string(), "sh".to_string()]);
    let mut params = HashMap::new();
    params.insert("name".to_string(), "world".to_string());
    assert_eq!(executor.prepare(&config("echo", &["hi ${name}"]), &params).unwrap(), vec!["hi world".to_string()]);
    match executor.prepare(&config("rm", &["-rf"]), &params) {
        Err(ExecError::NotAllowed(c)) => assert_eq!(c, "rm"),
        other => panic!("unexpected {:?}", other),
    }
    params.insert("name".to_string(), "x; rm".to_string());
    assert!(matches!(executor.prepare(&config("echo", &["${name}"]), &params), Err(ExecError::InvalidParameter(_))));
}

#[test]
fn test_prepare_on_file() {
    let executor = PluginExecutor::new(vec!["sh".to_string(), "whisper".to_string()]);
    let mut params = HashMap::new();
    params.insert("language".to_string(), "en".to_string());
    let defaults = ChunkingConfig::default();
    let (cmd, args) = executor.prepare_on_file(&defaults, "/tmp/c1.mp3", "/tmp/out", &params).unwrap();
    assert_eq!(cmd, "sh");
    assert_eq!(args.len(), 2);
    assert_eq!(args[0], "-c");
    assert!(args[1].starts_with("TMPDIR=$(mktemp -d)\nERRFILE=$(mktemp)\nif docker run --rm -v \"/tmp/c1.mp3:/data/input.mp3\""));
    assert!(args[1].ends_with("rm -rf \"$TMPDIR\" \"$ERRFILE\""));

    let mut custom = ChunkingConfig::default();
    custom.file_command = Some("whisper".to_string());
    custom.file_args = vec!["${file}".to_string(), "--out=${output_dir}".to_string(), "--lang=${language}".to_string()];
    let (cmd, args) = executor.prepare_on_file(&custom, "/a.mp3", "/o", &params).unwrap();
    assert_eq!(cmd, "whisper");
    assert_eq!(args, vec!["/a.mp3", "--out=/o", "--lang=en"]);

    custom.file_command = Some("ffmpeg".to_string());
    assert!(matches!(executor.prepare_on_file(&custom, "/a.mp3", "/o", &params), Err(ExecError::NotAllowed(_))));
}

#[test]
fn test_execution_results() {
    let done = completed_result(true, Some(0), &"x".repeat(10), String::new(), 4);
    assert!(done.success);
    assert_eq!(done.stdout, "xxxx...\n\n[Output truncated at 4 bytes]");
    let t = timed_out_result(30);
    assert!(t.timed_out);
    assert_eq!(t.stderr, "Command timed out after 30 seconds");
    assert_eq!(chunk_timed_out_result(5).stderr, "Chunk transcription timed out after 5 seconds");
    assert_eq!(spawn_failure_message(false, "boom"), "Failed to execute command: boom");
    assert_eq!(spawn_failure_message(true, "boom"), "Failed to execute chunk command: boom");
}

fn commit(hash: &str, subject: &str, files: &[&str]) -> CommitInfo {
    CommitInfo {
        hash: hash.to_string(),
        subject: subject.to_string(),
        body: String::new(),
        files: files.iter().map(|f| f.to_string()).collect(),
    }
}

#[test]
fn test_format_commits_for_channel() {
    let commits = vec![
        commit("abc1234", "First", &["a.rs", "b.rs", "c.rs", "d.rs"]),
        commit("def5678", "Second", &[]),
        commit("0000001", "Third", &["x.rs"]),
        commit("0000002", "Fourth", &[]),
    ];
    let text = format_commits_for_channel(&commits, Some("https://github.com/o/r"));
    assert_eq!(
        text,
        "**Recent Changes (Detailed):**\n\
         \n**First** ([`abc1234`](https://github.com/o/r/commit/abc1234)) - 4 (showing 3) file(s)\n  `a.rs`, `b.rs`, `c.rs`\
         \n**Second** ([`def5678`](https://github.com/o/r/commit/def5678))\
         \n**Third** ([`0000001`](https://github.com/o/r/commit/0000001)) - 1 file(s)\n  `x.rs`"
    );
    let long = vec![commit("h", &"s".repeat(2000), &[])];
    let capped = format_commits_for_channel(&long, None);
    assert!(capped.ends_with("\n... (truncated)"));
    assert_eq!(capped.len(), 1900 + "\n... (truncated)".len());
}

#[test]
fn test_startup_embed_fields() {
    assert_eq!(online_title("Bot"), "Bot is Online!");
    assert_eq!(version_field("1.2.3"), "`v1.2.3`");
    assert_eq!(shard_field(0, 2), "1/2");
    assert_eq!(started_footer(1700000000), "Started <t:1700000000:R>");
}

use persona_bot::plugins::youtube::{enumeration_args, enumeration_failure_message, playlist_from_lines, PlaylistLine};

fn entry(id: Option<&str>, title: Option<&str>, meta: Option<&str>) -> PlaylistLine {
    PlaylistLine::Entry {
        id: id.map(|s| s.to_string()),
        title: title.map(|s| s.to_string()),
        duration: Some(60),
        playlist_title: meta.map(|s| s.to_string()),
        uploader: Some("uploader".to_string()),
    }
}

#[test]
fn test_playlist_from_lines() {
    let lines = vec![entry(Some("a1"), Some("One"), Some("My List")), PlaylistLine::Blank, entry(Some("b2"), None, None)];
    let info = playlist_from_lines("PL1", &lines).unwrap();
    assert_eq!(info.id, "PL1");
    assert_eq!(info.title, "My List");
    assert_eq!(info.uploader.as_deref(), Some("uploader"));
    assert_eq!(info.video_count, 2);
    assert_eq!(info.items[1].title, "Unknown Title");
    assert_eq!(info.items[1].index, 2);
    assert_eq!(info.items[1].url, "https://www.youtube.com/watch?v=b2");

    let untitled = playlist_from_lines("PL", &vec![entry(Some("a"), None, None)]).unwrap();
    assert_eq!(untitled.title, "Unknown Playlist");
    let blank_first = playlist_from_lines("PL", &vec![PlaylistLine::Blank, entry(Some("a"), None, Some("T"))]).unwrap();
    assert_eq!(blank_first.title, "");

    assert_eq!(
        playlist_from_lines("PL", &vec![PlaylistLine::Invalid("bad".to_string())]).unwrap_err(),
        "Failed to parse yt-dlp JSON output: bad"
    );
    assert_eq!(
        playlist_from_lines("PL", &vec![entry(Some("a"), None, None), entry(None, None, None)]).unwrap_err(),
        "Missing video ID in playlist item"
    );
    assert_eq!(playlist_from_lines("PL", &vec![PlaylistLine::Blank]).unwrap_err(), "Playlist is empty or unavailable");
}

#[test]
fn test_enumeration_args() {
    assert_eq!(
        enumeration_args("PL9", Some(25)),
        vec!["--flat-playlist", "--dump-json", "--no-warnings", "--quiet", "--playlist-end", "25", "https://www.youtube.com/playlist?list=PL9"]
    );
    assert_eq!(enumeration_args("PL9", None).len(), 5);
    assert_eq!(enumeration_failure_message("x"), "yt-dlp failed to enumerate playlist: x");
}
