use persona_bot::analytics::{
    chat_model_of, dalle_image_milli, embedding_milli_per_million, gpt_image_price_milli, is_reported_mount,
    sora_milli_per_second, tts_milli_per_million, ChatModel, CostBucket, DiskInfo, WHISPER_MILLI_PER_MINUTE,
};
use persona_bot::audio::{
    download_path, ffmpeg_args, ffmpeg_failure_message, mp3_output_path, transcription_failure_message,
    transcription_outcome, AudioTranscriber,
};

#[test]
fn test_cost_bucket_names() {
    assert_eq!(CostBucket::Ask.as_str(), "ask");
    assert_eq!(CostBucket::Transcription.as_str(), "transcription");
    assert_eq!(CostBucket::Unknown.as_str(), "unknown");
}

#[test]
fn test_chat_model_tiers() {
    assert_eq!(chat_model_of("GPT-5.2-Pro"), ChatModel::Gpt52Pro);
    assert_eq!(chat_model_of("gpt-5-mini-2025"), ChatModel::Gpt5Mini);
    assert_eq!(chat_model_of("gpt-4o-mini"), ChatModel::Gpt4oMini);
    assert_eq!(chat_model_of("gpt-4-turbo-preview"), ChatModel::Gpt4Turbo);
    assert_eq!(chat_model_of("o4-mini-deep-research"), ChatModel::O4MiniDeepResearch);
    assert_eq!(chat_model_of("llama-3"), ChatModel::Gpt35Turbo);
    assert_eq!(ChatModel::Gpt52.milli_per_million(), (1750, 14000));
    assert_eq!(ChatModel::Gpt35Turbo.milli_per_million(), (500, 1500));
    // The rates in dollars per thousand tokens are the published ones.
    let (input, output) = ChatModel::Gpt5Nano.milli_per_million();
    assert_eq!(input as f64 / 1_000_000.0, 0.00005);
    assert_eq!(output as f64 / 1_000_000.0, 0.0004);
}

#[test]
fn test_image_and_media_prices() {
    assert_eq!(dalle_image_milli("1024x1024", "standard"), 40);
    assert_eq!(dalle_image_milli("1024x1024", "HD"), 80);
    assert_eq!(dalle_image_milli("1792x1024", "standard"), 80);
    assert_eq!(dalle_image_milli("1024x1792", "hd"), 120);
    assert_eq!(gpt_image_price_milli("1024x1024", "low"), 9);
    assert_eq!(gpt_image_price_milli("1536x1024", "High"), 200);
    assert_eq!(gpt_image_price_milli("1024x1536", "auto"), 50);
    assert_eq!(tts_milli_per_million(true), 30000);
    assert_eq!(embedding_milli_per_million("text-embedding-3-large"), 130);
    assert_eq!(embedding_milli_per_million("ada"), 100);
    assert_eq!(sora_milli_per_second("sora-2-pro", "1024x1792"), 500);
    assert_eq!(sora_milli_per_second("sora-2-pro", "720p"), 300);
    assert_eq!(sora_milli_per_second("sora-2", "1024x1792"), 100);
    assert_eq!(WHISPER_MILLI_PER_MINUTE, 6);
}

#[test]
fn test_disk_reports() {
    assert!(is_reported_mount("/"));
    assert!(is_reported_mount("/home/user"));
    assert!(is_reported_mount("/var"));
    assert!(!is_reported_mount("/boot"));
    let d = DiskInfo::from_space("/".to_string(), 100, 30);
    assert_eq!(d.used, 70);
    assert_eq!(DiskInfo::from_space("/".to_string(), 10, 30).used, 0);
}

#[test]
fn test_audio_formats() {
    let t = AudioTranscriber::new("key".to_string());
    assert!(t.is_audio_file("Voice.OGG"));
    assert!(t.is_audio_file("clip.mp3"));
    assert!(!t.is_audio_file("notes.txt"));
    assert!(t.needs_conversion("memo.flac"));
    assert!(!t.needs_conversion("memo.M4A"));
    let args = t.transcription_args("/tmp/a.mp3");
    assert_eq!(args[2], "Authorization: Bearer key");
    assert_eq!(args[6], "file=@/tmp/a.mp3");
}

#[test]
fn test_audio_paths_and_messages() {
    assert_eq!(download_path("a.ogg"), "/tmp/discord_audio_a.ogg");
    assert_eq!(mp3_output_path("/tmp/x.y.ogg"), "/tmp/x.y.mp3");
    assert_eq!(mp3_output_path("noext"), "noext.mp3");
    assert_eq!(ffmpeg_args("in", "out")[8], "out");
    assert_eq!(
        ffmpeg_failure_message("ffmpeg: not found"),
        "FFmpeg is required for this format but not installed. Install with: apt install ffmpeg"
    );
    assert_eq!(ffmpeg_failure_message("bad codec"), "FFmpeg conversion failed: bad codec");
    assert_eq!(transcription_outcome(Some("hi".to_string()), None), Ok("hi".to_string()));
    assert_eq!(
        transcription_outcome(None, Some("{\"message\":\"x\"}".to_string())),
        Err("OpenAI API error: {\"message\":\"x\"}".to_string())
    );
    assert_eq!(transcription_outcome(None, None), Err("Unexpected response format".to_string()));
    assert_eq!(transcription_failure_message("e"), "Transcription failed: e");
}
