use persona_bot::ipc::{
    channel_persona_choice, channel_persona_reply, decode_frame, encode_frame, guild_setting_reply,
    locate_channel, send_message_reply, set_feature_reply, ChannelInfo, ChannelType, FrameError,
    GuildInfo, TuiCommand, MAX_FRAME_BYTES,
};
use persona_bot::ipc::server::{error_entry, feature_states, history_message, history_summary, sql_date, sql_time_or, IpcServer, MAX_CLIENTS};

#[test]
fn test_encode_decode_roundtrip() {
    // The JSON form of `BotEvent::Heartbeat { timestamp: 12345 }`.
    let event = br#"{"type":"Heartbeat","timestamp":12345}"#;
    let encoded = encode_frame(event);

    let (payload, used) = decode_frame(&encoded).unwrap();
    assert_eq!(used, encoded.len());
    let decoded: serde_json::Value = serde_json::from_slice(&payload).unwrap();

    match decoded.get("type").and_then(|t| t.as_str()) {
        Some("Heartbeat") => assert_eq!(decoded["timestamp"].as_i64(), Some(12345)),
        _ => panic!("Wrong event type"),
    }
}

#[test]
fn test_frame_layout() {
    let encoded = encode_frame(b"abc");
    assert_eq!(encoded, vec![0, 0, 0, 3, b'a', b'b', b'c']);
    let empty = encode_frame(b"");
    assert_eq!(empty, vec![0, 0, 0, 0]);
    assert_eq!(decode_frame(&empty), Ok((Vec::new(), 4)));
}

#[test]
fn test_decode_reads_only_first_frame() {
    let mut buf = encode_frame(b"one");
    buf.extend(encode_frame(b"second"));
    let (first, used) = decode_frame(&buf).unwrap();
    assert_eq!(first, b"one".to_vec());
    assert_eq!(used, 7);
    let (second, used2) = decode_frame(&buf[used..]).unwrap();
    assert_eq!(second, b"second".to_vec());
    assert_eq!(used2, 10);
}

#[test]
fn test_decode_incomplete_and_too_large() {
    assert_eq!(decode_frame(&[0, 0]), Err(FrameError::Incomplete));
    assert_eq!(decode_frame(&[0, 0, 0, 5, 1, 2]), Err(FrameError::Incomplete));
    let too_large = (MAX_FRAME_BYTES as u32 + 1).to_be_bytes();
    assert_eq!(decode_frame(&too_large), Err(FrameError::TooLarge(10_485_761)));
    assert_eq!(FrameError::TooLarge(10_485_761).message(), "Message too large: 10485761 bytes");
    assert_eq!(FrameError::Incomplete.message(), "failed to fill whole buffer");
}

fn guilds() -> Vec<GuildInfo> {
    vec![
        GuildInfo {
            id: 1,
            name: "Alpha".to_string(),
            channels: vec![ChannelInfo { id: 10, name: "general".to_string(), channel_type: ChannelType::Text }],
            member_count: Some(3),
        },
        GuildInfo {
            id: 2,
            name: "Beta".to_string(),
            channels: vec![
                ChannelInfo { id: 20, name: "voice".to_string(), channel_type: ChannelType::Voice },
                ChannelInfo { id: 21, name: "news".to_string(), channel_type: ChannelType::News },
            ],
            member_count: None,
        },
    ]
}

#[test]
fn test_locate_channel() {
    let g = guilds();
    assert_eq!(locate_channel(&g, 21), ("news".to_string(), Some(2), Some("Beta".to_string())));
    assert_eq!(locate_channel(&g, 10), ("general".to_string(), Some(1), Some("Alpha".to_string())));
    assert_eq!(locate_channel(&g, 99), ("99".to_string(), None, None));
}

#[test]
fn test_command_replies() {
    let sent = send_message_reply(Ok(42));
    assert!(sent.success);
    assert_eq!(sent.message, "Message sent (id: 42)");
    let failed = send_message_reply(Err("boom".to_string()));
    assert!(!failed.success);
    assert_eq!(failed.message, "Failed to send message: boom");

    assert_eq!(set_feature_reply("council", true, Ok(())).message, "Feature 'council' enabled");
    assert_eq!(set_feature_reply("council", false, Ok(())).message, "Feature 'council' disabled");
    assert_eq!(set_feature_reply("x", true, Err("no".to_string())).message, "Failed to set feature: no");

    assert_eq!(channel_persona_choice(""), None);
    assert_eq!(channel_persona_choice("muse"), Some("muse"));
    assert_eq!(channel_persona_reply("muse", Ok(())).message, "Channel persona set to 'muse'");
    assert_eq!(guild_setting_reply("k", "v", Ok(())).message, "Setting 'k' updated to 'v'");
    assert_eq!(guild_setting_reply("k", "v", Err("e".to_string())).message, "Failed to set setting: e");
}

#[test]
fn server_admits_at_most_ten_clients() {
    let mut s = IpcServer::new();
    for _ in 0..MAX_CLIENTS {
        assert!(s.admit_client());
    }
    assert!(!s.admit_client());
    assert_eq!(s.client_count(), 10);
    s.release_client();
    assert_eq!(s.client_count(), 9);
    assert!(s.admit_client());
}

#[test]
fn server_tracks_watched_channels() {
    let mut s = IpcServer::new();
    assert!(!s.broadcast_allowed(Some(5)));
    assert!(s.broadcast_allowed(None));
    s.track_command(&TuiCommand::WatchChannel { channel_id: 5 });
    s.track_command(&TuiCommand::WatchChannel { channel_id: 5 });
    s.add_watched_channel(7);
    assert!(s.is_channel_watched(5));
    assert!(s.broadcast_allowed(Some(5)));
    // The set hands its channels out in its own order.
    let mut watched = s.get_watched_channels();
    watched.sort();
    assert_eq!(watched, vec![5, 7]);
    s.track_command(&TuiCommand::UnwatchChannel { channel_id: 5 });
    s.track_command(&TuiCommand::GetStatus);
    assert!(!s.is_channel_watched(5));
    s.remove_watched_channel(7);
    assert!(s.get_watched_channels().is_empty());
}

#[test]
fn server_reports_status_and_guilds() {
    let mut s = IpcServer::new();
    let r = s.ready_report();
    assert_eq!((r.bot_user_id, r.bot_username.as_str(), r.guilds.len()), (0, "Unknown", 0));
    s.set_guilds(vec![GuildInfo { id: 1, name: "g".to_string(), channels: Vec::new(), member_count: Some(3) }]);
    s.set_bot_info(42, "bot".to_string());
    s.set_active_sessions(4);
    let st = s.status_report(90);
    assert!(st.connected);
    assert_eq!((st.uptime_seconds, st.guild_count, st.active_sessions), (90, 1, 4));
    let r = s.ready_report();
    assert_eq!((r.bot_user_id, r.bot_username.as_str()), (42, "bot"));
    assert_eq!(r.guilds[0].name, "g");
    assert_eq!(s.get_guilds()[0].member_count, Some(3));
    assert_eq!(s.get_bot_user_id(), Some(42));
    assert_eq!(s.get_bot_username().as_deref(), Some("bot"));
    assert_eq!(s.get_active_sessions(), 4);
}

#[test]
fn stored_times_parse_as_utc_millis() {
    assert_eq!(sql_time_or("2024-01-02 03:04:05", 7), 1_704_164_645_000);
    assert_eq!(sql_time_or("yesterday", 7), 7);
    assert_eq!(sql_date("2024-01-02"), Some(1_704_153_600_000));
    assert_eq!(sql_date("2024-13-02"), None);
}

#[test]
fn history_rows_become_display_messages() {
    let m = history_message("123", "hi".to_string(), "2024-01-02 03:04:05", "assistant", Some("obi".to_string()), 9);
    assert_eq!((m.id, m.author_id, m.author_name.as_str()), (0, 123, "obi"));
    assert_eq!((m.author_discriminator.as_str(), m.content.as_str()), ("0000", "hi"));
    assert_eq!(m.timestamp, 1_704_164_645_000);
    assert!(m.is_bot);
    assert!(m.attachments.is_empty() && m.embeds_count == 0);
    let u = history_message("someone", "yo".to_string(), "bad", "user", None, 9);
    assert_eq!((u.author_id, u.author_name.as_str(), u.timestamp, u.is_bot), (0, "someone", 9, false));
}

#[test]
fn error_rows_keep_their_fields() {
    let e = error_entry(
        3,
        "db".to_string(),
        "boom".to_string(),
        None,
        Some("u".to_string()),
        None,
        Some("/ask".to_string()),
        "2024-01-02 03:04:05",
        0,
    );
    assert_eq!((e.id, e.error_type.as_str(), e.error_message.as_str()), (3, "db", "boom"));
    assert_eq!(e.timestamp, 1_704_164_645_000);
    assert_eq!(e.command.as_deref(), Some("/ask"));
}

#[test]
fn channels_with_history_take_cached_names() {
    let guilds = vec![GuildInfo {
        id: 7,
        name: "Guild".to_string(),
        channels: vec![ChannelInfo { id: 42, name: "general".to_string(), channel_type: ChannelType::Text }],
        member_count: None,
    }];
    let s = history_summary(&guilds, "42", Some("9"), 12, Some("2024-01-02 03:04:05"));
    assert_eq!((s.channel_id, s.guild_id, s.message_count), (42, Some(7), 12));
    assert_eq!(s.channel_name.as_deref(), Some("general"));
    assert_eq!(s.guild_name.as_deref(), Some("Guild"));
    assert_eq!(s.last_activity, Some(1_704_164_645_000));
    let u = history_summary(&guilds, "43", Some("9"), 1, Some("never"));
    assert_eq!((u.channel_id, u.guild_id, u.last_activity), (43, Some(9), None));
    assert!(u.channel_name.is_none() && u.guild_name.is_none());
    let bad = history_summary(&guilds, "x", None, 0, None);
    assert_eq!((bad.channel_id, bad.guild_id), (0, None));
}

#[test]
fn feature_states_default_to_on() {
    let ids = vec!["council".to_string(), "debate".to_string()];
    let stored = vec![("debate".to_string(), false), ("debate".to_string(), true)];
    assert_eq!(
        feature_states(&ids, &stored),
        vec![("council".to_string(), true), ("debate".to_string(), false)]
    );
    assert!(feature_states(&ids, &Vec::new()).iter().all(|(_, on)| *on));
}
