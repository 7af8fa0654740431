use std::collections::HashMap;

use persona_bot::format::{format_bytes, format_bytes_signed, format_duration as format_uptime_duration};
use persona_bot::plugins::chunked::{job_outcome, ChunkRun, ChunkedOptions};
use persona_bot::plugins::chunker::{download_args, AudioChunker, ChunkerConfig};
use persona_bot::plugins::job::{JobManager, JobStatus, PlaylistJobStatus};
use persona_bot::plugins::manager::short_job_id;
use persona_bot::plugins::messages::{
    error_message, playlist_progress, playlist_summary, summary_prompt, summary_request_id, video_transcript_filename,
    SUMMARY_SYSTEM_PROMPT,
};
use persona_bot::plugins::output::{OutputFormat, UserContext};
use persona_bot::plugins::runs::{
    effective_max_videos, failure_message, is_youtube_url, next_playlist_step, playlist_thread_name, result_preview,
    retry_delay_secs, PlaylistAction, PlaylistEvent, PlaylistRun,
};
use persona_bot::plugins::youtube::{
    estimate_transcription_time, format_duration, parse_youtube_url, youtube_url_from_captures, PlaylistItem,
    YouTubeUrlType,
};

#[test]
fn test_format_bytes() {
    assert_eq!(format_bytes(0), "0 B");
    assert_eq!(format_bytes(500), "500 B");
    assert_eq!(format_bytes(1024), "1.0 KB");
    assert_eq!(format_bytes(1536), "1.5 KB");
    assert_eq!(format_bytes(1048576), "1.0 MB");
    assert_eq!(format_bytes(1073741824), "1.00 GB");
}

#[test]
fn system_info_test_format_duration() {
    assert_eq!(format_uptime_duration(0), "0s");
    assert_eq!(format_uptime_duration(45), "45s");
    assert_eq!(format_uptime_duration(90), "1m 30s");
    assert_eq!(format_uptime_duration(3661), "1h 1m 1s");
    assert_eq!(format_uptime_duration(90061), "1d 1h 1m 1s");
}

#[test]
fn test_format_bytes_signed() {
    assert_eq!(format_bytes_signed(1024), "+1.0 KB");
    assert_eq!(format_bytes_signed(-1024), "1.0 KB");
    assert_eq!(format_bytes_signed(0), "+0 B");
}

#[test]
fn test_job_status_display() {
    assert_eq!(JobStatus::Pending.to_string(), "pending");
    assert_eq!(JobStatus::Running.to_string(), "running");
    assert_eq!(JobStatus::Completed.to_string(), "completed");
    assert_eq!(JobStatus::Failed.to_string(), "failed");
}

#[test]
fn test_job_status_parse() {
    assert_eq!("pending".parse::<JobStatus>().unwrap(), JobStatus::Pending);
    assert_eq!("RUNNING".parse::<JobStatus>().unwrap(), JobStatus::Running);
    assert_eq!("Completed".parse::<JobStatus>().unwrap(), JobStatus::Completed);
    assert_eq!("failed".parse::<JobStatus>().unwrap(), JobStatus::Failed);
    assert!("invalid".parse::<JobStatus>().is_err());
}

#[test]
fn playlist_status_names_round_trip() {
    for s in [
        PlaylistJobStatus::Pending,
        PlaylistJobStatus::Running,
        PlaylistJobStatus::Paused,
        PlaylistJobStatus::Completed,
        PlaylistJobStatus::PartialComplete,
        PlaylistJobStatus::Failed,
        PlaylistJobStatus::Cancelled,
    ] {
        assert_eq!(s.to_string().parse::<PlaylistJobStatus>().unwrap(), s);
    }
    assert_eq!(
        "nope".parse::<PlaylistJobStatus>().unwrap_err(),
        "Invalid playlist job status: nope"
    );
}

#[test]
fn job_status_names_round_trip() {
    for s in [JobStatus::Pending, JobStatus::Running, JobStatus::Completed, JobStatus::Failed] {
        assert_eq!(s.to_string().parse::<JobStatus>().unwrap(), s);
    }
    assert_eq!("nope".parse::<JobStatus>().unwrap_err(), "Invalid job status: nope");
}

#[test]
fn job_lifecycle_and_isolation() {
    let mut m = JobManager::new();
    let a = m.create_job("transcribe", "u1", Some("g"), "c", HashMap::new(), 1_000);
    let b = m.create_job("transcribe", "u2", None, "c", HashMap::new(), 2_000);
    assert_eq!(a.len(), 36);
    m.start_job(&a);
    assert_eq!(m.get_job(&a).unwrap().status, JobStatus::Running);
    assert_eq!(m.get_job(&b).unwrap().status, JobStatus::Pending);
    m.complete_job(&a, "ok".to_string(), 5_000);
    let ja = m.get_job(&a).unwrap();
    assert_eq!(ja.status, JobStatus::Completed);
    assert_eq!(ja.completed_at, Some(5_000));
    assert_eq!(ja.result.as_deref(), Some("ok"));
    m.fail_job(&b, "boom".to_string(), 6_000);
    let stats = m.get_stats();
    assert_eq!((stats.pending, stats.running, stats.completed, stats.failed), (0, 0, 1, 1));
    assert_eq!(m.get_user_jobs("u2").len(), 1);
    assert!(m.get_job("missing").is_none());
}

#[test]
fn job_cooldown_and_cleanup() {
    let mut m = JobManager::new();
    let a = m.create_job("p", "u", None, "c", HashMap::new(), 100_000);
    assert!(!m.check_cooldown("u", "p", 60, 130_000));
    assert!(m.check_cooldown("u", "p", 60, 200_000));
    assert!(m.check_cooldown("u", "other", 60, 130_000));
    assert!(m.check_cooldown("u", "p", 0, 130_000));
    m.complete_job(&a, "done".to_string(), 110_000);
    m.cleanup_old_jobs(1, 110_000 + 3_600_000);
    assert!(m.get_job(&a).is_none());
}

#[test]
fn playlist_cancel_only_when_active() {
    let mut m = JobManager::new();
    let id = m.create_playlist_job("u", None, "c", "url", "PL1", Some("T"), 3, Some(3), 0);
    assert!(m.has_active_playlist("u"));
    assert!(m.cancel_playlist_job(&id, "admin", 10));
    assert!(m.is_playlist_cancelled(&id));
    assert!(!m.cancel_playlist_job(&id, "admin", 20));
    assert!(!m.has_active_playlist("u"));
    assert_eq!(m.get_playlist_job(&id).unwrap().cancelled_by.as_deref(), Some("admin"));
    let other = m.create_playlist_job("u", None, "c", "url", "PL2", None, 2, None, 0);
    m.update_playlist_progress(&other, 1, 1, 0, Some("vid"));
    m.complete_playlist_job(&other, 99);
    assert_eq!(m.get_playlist_job(&other).unwrap().status, PlaylistJobStatus::PartialComplete);
    assert!(m.get_user_active_playlist_jobs("u").is_empty());
}

#[test]
fn test_estimate_transcription_time() {
    let items = vec![
        PlaylistItem {
            video_id: "abc".to_string(),
            title: "Video 1".to_string(),
            url: "https://youtube.com/watch?v=abc".to_string(),
            duration: Some(600),
            index: 0,
        },
        PlaylistItem {
            video_id: "def".to_string(),
            title: "Video 2".to_string(),
            url: "https://youtube.com/watch?v=def".to_string(),
            duration: Some(300),
            index: 1,
        },
    ];

    let estimate = estimate_transcription_time(&items);
    assert!(estimate > 1400);
    assert_eq!(estimate, 1410);
}

#[test]
fn youtube_test_format_duration() {
    assert_eq!(format_duration(std::time::Duration::from_secs(30).as_secs()), "< 1m");
    assert_eq!(format_duration(std::time::Duration::from_secs(600).as_secs()), "~10m");
    assert_eq!(format_duration(std::time::Duration::from_secs(5400).as_secs()), "~1h 30m");
}

#[test]
fn test_parse_single_video() {
    let url = "https://www.youtube.com/watch?v=dQw4w9WgXcQ";
    let parsed = parse_youtube_url(url).unwrap();
    assert_eq!(parsed.video_id, Some("dQw4w9WgXcQ".to_string()));
    assert_eq!(parsed.playlist_id, None);
    assert_eq!(parsed.url_type, YouTubeUrlType::SingleVideo);
    assert!(!parsed.has_playlist());
    assert!(parsed.is_single_video());
}

#[test]
fn test_parse_shorts() {
    let parsed = parse_youtube_url("https://www.youtube.com/shorts/dQw4w9WgXcQ").unwrap();
    assert_eq!(parsed.video_id, Some("dQw4w9WgXcQ".to_string()));
    assert_eq!(parsed.url_type, YouTubeUrlType::SingleVideo);
}

#[test]
fn test_parse_youtu_be() {
    let parsed = parse_youtube_url("https://youtu.be/dQw4w9WgXcQ").unwrap();
    assert_eq!(parsed.video_id, Some("dQw4w9WgXcQ".to_string()));
    assert_eq!(parsed.url_type, YouTubeUrlType::SingleVideo);
}

#[test]
fn test_parse_playlist() {
    let url = "https://www.youtube.com/playlist?list=PLrAXtmErZgOeiKm4sgNOknGvNjby9efdf";
    let parsed = parse_youtube_url(url).unwrap();
    assert_eq!(parsed.video_id, None);
    assert_eq!(parsed.playlist_id, Some("PLrAXtmErZgOeiKm4sgNOknGvNjby9efdf".to_string()));
    assert_eq!(parsed.url_type, YouTubeUrlType::Playlist);
    assert!(parsed.has_playlist());
    assert_eq!(
        parsed.playlist_url(),
        Some("https://www.youtube.com/playlist?list=PLrAXtmErZgOeiKm4sgNOknGvNjby9efdf".to_string())
    );
}

#[test]
fn test_parse_video_in_playlist() {
    let url = "https://www.youtube.com/watch?v=dQw4w9WgXcQ&list=PLrAXtmErZgOeiKm4sgNOknGvNjby9efdf";
    let parsed = parse_youtube_url(url).unwrap();
    assert_eq!(parsed.video_id, Some("dQw4w9WgXcQ".to_string()));
    assert_eq!(parsed.playlist_id, Some("PLrAXtmErZgOeiKm4sgNOknGvNjby9efdf".to_string()));
    assert_eq!(parsed.url_type, YouTubeUrlType::VideoInPlaylist);
    assert!(parsed.has_playlist());
    assert!(!parsed.is_single_video());
}

#[test]
fn test_parse_video_with_timestamp() {
    let parsed = parse_youtube_url("https://www.youtube.com/watch?v=dQw4w9WgXcQ&t=120").unwrap();
    assert_eq!(parsed.video_id, Some("dQw4w9WgXcQ".to_string()));
    assert_eq!(parsed.url_type, YouTubeUrlType::SingleVideo);
}

#[test]
fn test_invalid_url() {
    assert!(parse_youtube_url("https://example.com/video").is_err());
}

#[test]
fn test_estimate_chunks() {
    let config = ChunkerConfig { chunk_duration_secs: 600, ..Default::default() };
    let chunker = AudioChunker::new(config, "/tmp/x".to_string());
    assert_eq!(chunker.estimate_chunks(600), 1);
    assert_eq!(chunker.estimate_chunks(900), 2);
    assert_eq!(chunker.estimate_chunks(1800), 3);
    assert_eq!(chunker.estimate_chunks(7200), 12);
}

#[test]
fn test_chunker_config_default() {
    let config = ChunkerConfig::default();
    assert_eq!(config.chunk_duration_secs, 600);
    assert_eq!(config.download_timeout_secs, 300);
    assert_eq!(config.split_timeout_secs, 120);
}

#[test]
fn chunker_edges_and_args() {
    let zero = AudioChunker::new(ChunkerConfig { chunk_duration_secs: 0, ..Default::default() }, "d".to_string());
    assert_eq!(zero.estimate_chunks(0), 0);
    assert_eq!(zero.estimate_chunks(5), usize::MAX);
    assert_eq!(zero.temp_dir(), "d");
    let args = download_args("/t/audio.%(ext)s", "u");
    assert_eq!(args[0], "-x");
    assert_eq!(args[6], "/t/audio.%(ext)s");
    assert_eq!(args[9], "u");
}

#[test]
fn run_helpers() {
    assert_eq!(short_job_id("0123456789abcdef"), "01234567");
    assert_eq!(short_job_id("abc"), "abc");
    assert!(is_youtube_url("https://youtu.be/x"));
    assert!(!is_youtube_url("https://vimeo.com/x"));
    assert_eq!(failure_message(true, 30, None, ""), "Command timed out after 30 seconds");
    assert_eq!(failure_message(false, 30, Some(-2), "bad"), "Command failed (exit code: Some(-2))\nbad");
    assert_eq!(failure_message(false, 30, None, "x"), "Command failed (exit code: None)\nx");
    assert_eq!(result_preview(&"é".repeat(600)).chars().count(), 500);
    assert_eq!(retry_delay_secs(0), 0);
    assert_eq!(retry_delay_secs(1), 2);
    assert_eq!(retry_delay_secs(2), 4);
    assert_eq!(
        playlist_thread_name(&"t".repeat(70), 12),
        format!("Playlist: {}... (12 videos)", "t".repeat(57))
    );
}

#[test]
fn playlist_limits_and_run() {
    let mut cfg = persona_bot::plugins::config::PlaylistConfig::default();
    cfg.max_videos_per_request = 10;
    cfg.default_max_videos = 5;
    assert_eq!(effective_max_videos(&cfg, Some(50)), 10);
    assert_eq!(effective_max_videos(&cfg, None), 5);
    cfg.max_videos_per_request = 0;
    assert_eq!(effective_max_videos(&cfg, Some(50)), 50);
    let mut run = PlaylistRun::new(2);
    assert_eq!(run.next_index(), 1);
    run.video_succeeded("A", "ua", "text");
    run.video_failed();
    assert_eq!(run.counts(), (1, 1, 0));
    let sep = "=".repeat(60);
    assert_eq!(run.combined_transcript().unwrap(), format!("\n\n{sep}\n[1/2] A\nua\n{sep}\n\ntext"));
}

#[test]
fn chunk_options_and_run() {
    let mut p = HashMap::new();
    p.insert("summaries".to_string(), "all".to_string());
    p.insert("summary_interval".to_string(), "50".to_string());
    p.insert("chunk_duration".to_string(), "2".to_string());
    p.insert("output_format".to_string(), "FILES".to_string());
    let o = ChunkedOptions::from_params(&p, 600);
    assert_eq!(o.summary_interval, 20);
    assert_eq!(o.chunk_duration_secs, 120);
    assert_eq!(o.output_format, OutputFormat::Files);
    assert!(o.generate_per_chunk && o.generate_cumulative);
    let d = ChunkedOptions::from_params(&HashMap::new(), 5000);
    assert_eq!(d.summaries, "each");
    assert_eq!(d.summary_interval, 5);
    assert_eq!(d.chunk_duration_secs, 1800);
    assert_eq!(d.transcript_file_interval, 0);
    assert!(d.generate_per_chunk && !d.generate_cumulative);

    let mut r = ChunkRun::new(3);
    r.chunk_succeeded("one");
    r.chunk_failed();
    r.chunk_succeeded("three");
    assert_eq!(r.combined_transcript(), "--- Part 1/3 ---\none\n\n--- Part 3/3 ---\nthree");
    r.add_summary("s1".to_string());
    r.add_summary("s2".to_string());
    assert!(r.window_due(4, 2, true));
    assert!(!r.window_due(3, 2, true));
    assert_eq!(r.window(), (1, "s1\n\n---\n\ns2".to_string()));
    r.window_posted();
    r.add_summary("s3".to_string());
    assert_eq!(r.window(), (3, "s3".to_string()));
    assert_eq!(r.counts(), (2, 1));
    assert_eq!(job_outcome(2, 1, 3), Err("1/3 parts failed".to_string()));
    assert_eq!(job_outcome(3, 0, 3), Ok("Completed 3 parts".to_string()));
}

#[test]
fn message_texts() {
    assert_eq!(error_message("oops", None), "**Error:** oops");
    assert_eq!(error_message("oops", Some("Failed: ${error}!")), "Failed: oops!");
    assert_eq!(error_message(&"e".repeat(2000), None).len(), 1900);
    assert_eq!(
        playlist_progress(2, 5, "Title", None),
        "\u{23F3} **Processing playlist:** 2/5 videos | Currently: \"Title\" | ETA: calculating..."
    );
    assert_eq!(
        playlist_summary("P", 3, 0, 0, 3, 5400),
        "---\n\n\u{2705} **Playlist Complete: P**\n\n\u{2022} Successful: 3 | Failed: 0 | Skipped: 0\n\u{2022} Total videos: 3\n\u{2022} Runtime: ~1h 30m"
    );
    assert_eq!(video_transcript_filename(7, "My Video!"), "transcript_007_my_video.txt");
}

#[test]
fn plugin_jobs_newest_first_and_limited() {
    let mut m = JobManager::new();
    let a = m.create_job("p", "u1", None, "c", HashMap::new(), 1_000);
    let b = m.create_job("p", "u2", None, "c", HashMap::new(), 3_000);
    let _ = m.create_job("other", "u3", None, "c", HashMap::new(), 9_000);
    let c = m.create_job("p", "u4", None, "c", HashMap::new(), 3_000);
    let d = m.create_job("p", "u5", None, "c", HashMap::new(), 2_000);
    let ids: Vec<String> = m.get_plugin_jobs("p", 10).into_iter().map(|j| j.id).collect();
    // Jobs that started together may come in either order.
    assert_eq!(ids.len(), 4);
    assert!((ids[0] == b && ids[1] == c) || (ids[0] == c && ids[1] == b));
    assert_eq!(ids[2], d);
    assert_eq!(ids[3], a);
    let top: Vec<String> = m.get_plugin_jobs("p", 2).into_iter().map(|j| j.id).collect();
    assert_eq!(top.len(), 2);
    assert!(top.contains(&b) && top.contains(&c));
    assert!(m.get_plugin_jobs("none", 5).is_empty());
    assert!(m.get_plugin_jobs("p", 0).is_empty());
}

#[test]
fn user_context_default_is_empty() {
    let c = UserContext::default();
    assert_eq!(c.user_id, "");
    assert!(c.guild_id.is_none() && c.channel_id.is_none());
}

#[test]
fn chunking_needed_past_one_chunk_or_unknown_length() {
    let chunker = AudioChunker::new(ChunkerConfig { chunk_duration_secs: 600, ..Default::default() }, "d".to_string());
    assert!(!chunker.needs_chunking(Some(600)));
    assert!(chunker.needs_chunking(Some(601)));
    assert!(chunker.needs_chunking(None));
}

#[test]
fn summary_requests_fill_the_template() {
    assert_eq!(summary_prompt("hello", "Summarize: ${output}!"), "Summarize: hello!");
    let long = "a".repeat(8001);
    let p = summary_prompt(&long, "${output}");
    assert_eq!(p, format!("{}...\n\n[Content truncated for summarization]", "a".repeat(8000)));
    assert_eq!(summary_request_id(Some("abc")).as_deref(), Some("plugin_abc"));
    assert!(summary_request_id(None).is_none());
    assert!(SUMMARY_SYSTEM_PROMPT.starts_with("You are a helpful assistant that creates concise summaries. Keep"));
}

#[test]
fn job_ids_are_random_uuids() {
    let mut m = JobManager::new();
    let id = m.create_job("p", "u", None, "c", HashMap::new(), 0);
    let cs: Vec<char> = id.chars().collect();
    assert_eq!(cs.len(), 36);
    for (i, c) in cs.iter().enumerate() {
        if [8, 13, 18, 23].contains(&i) {
            assert_eq!(*c, '-');
        } else {
            assert!(c.is_ascii_hexdigit() && !c.is_ascii_uppercase());
        }
    }
    assert_eq!(cs[14], '4');
    assert!("89ab".contains(cs[19]));
    assert_eq!(short_job_id(&id), &id[..8]);
}

#[test]
fn short_job_ids_count_characters() {
    assert_eq!(short_job_id("550e8400-e29b-41d4-a716-446655440000"), "550e8400");
    assert_eq!(short_job_id("abc"), "abc");
    assert_eq!(short_job_id("ééééé"), "ééééé");
    assert_eq!(short_job_id(&"é".repeat(10)), "é".repeat(8));
}

#[test]
fn playlist_steps_wait_between_videos_only() {
    let mut run = PlaylistRun::new(3);
    assert_eq!(next_playlist_step(&mut run, PlaylistEvent::Ready { cancelled: false }), PlaylistAction::Transcribe { index: 1 });
    let done = PlaylistEvent::Transcribed { title: "A".to_string(), url: "u".to_string(), transcript: "t".to_string() };
    assert_eq!(next_playlist_step(&mut run, done), PlaylistAction::Wait);
    assert_eq!(next_playlist_step(&mut run, PlaylistEvent::Ready { cancelled: false }), PlaylistAction::Transcribe { index: 2 });
    // A video whose job could not be made is skipped at once, without a wait.
    assert_eq!(next_playlist_step(&mut run, PlaylistEvent::JobNotCreated), PlaylistAction::Next);
    assert_eq!(next_playlist_step(&mut run, PlaylistEvent::Ready { cancelled: false }), PlaylistAction::Transcribe { index: 3 });
    // No wait after the last video.
    assert_eq!(next_playlist_step(&mut run, PlaylistEvent::TranscriptionFailed), PlaylistAction::Next);
    assert_eq!(
        next_playlist_step(&mut run, PlaylistEvent::Ready { cancelled: false }),
        PlaylistAction::PostSummary { completed: 1, failed: 2, skipped: 0, total: 3 }
    );
    assert!(run.combined_transcript().unwrap().contains("[1/3] A"));
}

#[test]
fn playlist_steps_stop_at_cancellation() {
    let mut run = PlaylistRun::new(4);
    assert_eq!(next_playlist_step(&mut run, PlaylistEvent::Ready { cancelled: false }), PlaylistAction::Transcribe { index: 1 });
    let done = PlaylistEvent::Transcribed { title: "A".to_string(), url: "u".to_string(), transcript: "t".to_string() };
    assert_eq!(next_playlist_step(&mut run, done), PlaylistAction::Wait);
    assert_eq!(
        next_playlist_step(&mut run, PlaylistEvent::Ready { cancelled: true }),
        PlaylistAction::PostCancelled { completed: 1, total: 4 }
    );
}

#[test]
fn youtube_url_kind_from_captures() {
    let v = youtube_url_from_captures("x", None, Some("abcdefghijk".to_string()), Some("zzzzzzzzzzz".to_string()), None, Some("PL1".to_string())).unwrap();
    assert_eq!(v.video_id.as_deref(), Some("abcdefghijk"));
    assert_eq!(v.playlist_id.as_deref(), Some("PL1"));
    assert_eq!(v.url_type, YouTubeUrlType::VideoInPlaylist);
    let p = youtube_url_from_captures("y", None, None, None, Some("PLd".to_string()), Some("PLp".to_string())).unwrap();
    assert_eq!(p.playlist_id.as_deref(), Some("PLd"));
    assert_eq!(p.url_type, YouTubeUrlType::Playlist);
    assert!(youtube_url_from_captures("z", None, None, None, None, None).is_err());
}
