use persona_bot::ipc::{ChannelHistorySummary, ChannelInfo, ChannelType, DisplayMessage, ErrorInfo, GuildInfo};
use persona_bot::tui::app::{App, InputMode, InputPurpose, Screen, SettingsTab};
use persona_bot::tui::event::{map_key_event, KeyAction, KeyCode, KeyInput, MOD_CONTROL, MOD_NONE, MOD_SHIFT};
use persona_bot::tui::state::channels::{ChannelState, MAX_MESSAGES_PER_CHANNEL};
use persona_bot::tui::state::errors::ErrorsState;
use persona_bot::tui::state::stats_cache::{format_uptime, StatsRefresh, TimePeriod};
use persona_bot::tui::state::users::UsersState;
use persona_bot::tui::state::channels::ChannelMetadata;
use persona_bot::tui::ui::{
    continuation_indent, continuation_line, message_pane_title, message_wrap_width, scrolled_title, truncate_text,
    truncate_user_id, visible_window, wrap_text,
};

fn msg(id: u64, content: &str) -> DisplayMessage {
    DisplayMessage {
        id,
        author_id: 7,
        author_name: "alice".to_string(),
        author_discriminator: "0000".to_string(),
        content: content.to_string(),
        timestamp: 0,
        is_bot: false,
        attachments: Vec::new(),
        embeds_count: 0,
    }
}

fn key(code: KeyCode, modifiers: u8) -> KeyInput {
    KeyInput { code, modifiers }
}

#[test]
fn test_screen_titles_and_keys() {
    assert_eq!(Screen::Channels.title(), "Channel Watcher");
    assert_eq!(Screen::Errors.title(), "Error Logs");
    assert_eq!(Screen::Help.key(), '?');
    assert_eq!(Screen::Settings.key(), '5');
    let all = Screen::all();
    assert_eq!(all.len(), 7);
    assert_eq!(all[0], Screen::Dashboard);
    assert_eq!(all[6], Screen::Help);
}

#[test]
fn test_map_key_event_normal_mode() {
    assert_eq!(map_key_event(key(KeyCode::Char('q'), MOD_NONE), false), KeyAction::Quit);
    assert_eq!(map_key_event(key(KeyCode::Char('c'), MOD_CONTROL), false), KeyAction::Quit);
    assert_eq!(map_key_event(key(KeyCode::Char('c'), MOD_NONE), false), KeyAction::NoOp);
    assert_eq!(map_key_event(key(KeyCode::Char('3'), MOD_NONE), false), KeyAction::SwitchScreen(Screen::Stats));
    assert_eq!(map_key_event(key(KeyCode::Up, MOD_SHIFT), false), KeyAction::Up);
    assert_eq!(map_key_event(key(KeyCode::Char('j'), MOD_NONE), false), KeyAction::Down);
    assert_eq!(map_key_event(key(KeyCode::Char('G'), MOD_SHIFT), false), KeyAction::End);
    assert_eq!(map_key_event(key(KeyCode::Char('/'), MOD_NONE), false), KeyAction::StartInput);
    assert_eq!(map_key_event(key(KeyCode::Left, MOD_CONTROL), false), KeyAction::NoOp);
    assert_eq!(map_key_event(key(KeyCode::Tab, MOD_NONE), false), KeyAction::TabRight);
    assert_eq!(map_key_event(key(KeyCode::BackTab, MOD_SHIFT), false), KeyAction::TabLeft);
    assert_eq!(map_key_event(key(KeyCode::Esc, MOD_NONE), false), KeyAction::Back);
}

#[test]
fn test_map_key_event_edit_mode() {
    assert_eq!(map_key_event(key(KeyCode::Char('q'), MOD_NONE), true), KeyAction::Char('q'));
    assert_eq!(map_key_event(key(KeyCode::Esc, MOD_NONE), true), KeyAction::CancelInput);
    assert_eq!(map_key_event(key(KeyCode::Enter, MOD_NONE), true), KeyAction::SubmitInput);
    assert_eq!(map_key_event(key(KeyCode::Backspace, MOD_NONE), true), KeyAction::Backspace);
    assert_eq!(map_key_event(key(KeyCode::Up, MOD_NONE), true), KeyAction::NoOp);
}

#[test]
fn test_channel_buffer_keeps_latest() {
    let mut state = ChannelState::new();
    state.add_message(1, msg(0, "ignored"));
    assert!(state.get_messages(1).is_none());
    state.watch(1);
    for i in 0..(MAX_MESSAGES_PER_CHANNEL as u64 + 5) {
        state.add_message(1, msg(i, "x"));
    }
    let buffer = state.get_messages(1).unwrap();
    assert_eq!(buffer.len(), MAX_MESSAGES_PER_CHANNEL);
    assert_eq!(buffer[0].id, 5);
    assert_eq!(buffer[MAX_MESSAGES_PER_CHANNEL - 1].id, 204);
}

#[test]
fn test_channel_history_goes_first() {
    let mut state = ChannelState::new();
    state.watch(9);
    state.add_message(9, msg(10, "new"));
    state.start_fetching_history();
    assert!(state.is_fetching_history());
    state.set_history(9, vec![msg(1, "old"), msg(2, "older")]);
    assert!(!state.is_fetching_history());
    let ids: Vec<u64> = state.get_messages(9).unwrap().iter().map(|m| m.id).collect();
    assert_eq!(ids, vec![1, 2, 10]);
    assert!(!state.needs_history(9));
    assert!(state.needs_history(8));

    state.remove_message(9, 2);
    let ids: Vec<u64> = state.get_messages(9).unwrap().iter().map(|m| m.id).collect();
    assert_eq!(ids, vec![1, 10]);
}

#[test]
fn test_channel_unwatch_clears() {
    let mut state = ChannelState::default();
    state.watch(3);
    state.watch(3);
    state.watch(4);
    assert_eq!(state.watched_channels().len(), 2);
    state.set_channel_info(3, "general".to_string(), Some(1), Some("Guild".to_string()), 12);
    assert_eq!(state.get_metadata(3).unwrap().name, "general");
    state.select(3);
    state.scroll_down(5, 3);
    assert_eq!(state.scroll_offset(), 3);
    state.scroll_up(10);
    assert_eq!(state.scroll_offset(), 0);
    state.unwatch(3);
    assert!(!state.is_watching(3));
    assert!(state.get_metadata(3).is_none());
    assert!(state.selected().is_none());
    assert_eq!(state.message_count(3), 0);
    assert!(state.is_watching(4));
}

#[test]
fn test_scroll_to_bottom() {
    let mut state = ChannelState::new();
    state.watch(1);
    for i in 0..4 {
        state.add_message(1, msg(i, "m"));
    }
    state.select(1);
    state.scroll_to_bottom();
    assert_eq!(state.scroll_offset(), 3);
    state.scroll_to_top();
    assert_eq!(state.scroll_offset(), 0);
}

fn err(kind: &str) -> ErrorInfo {
    ErrorInfo {
        id: 1,
        error_type: kind.to_string(),
        error_message: "boom".to_string(),
        stack_trace: None,
        user_id: None,
        channel_id: None,
        command: None,
        timestamp: 0,
    }
}

#[test]
fn test_error_counts_most_frequent_first() {
    let mut state = ErrorsState::new();
    state.set_errors(vec![err("api"), err("db"), err("db"), err("io"), err("db"), err("api")], 100);
    let counts = state.error_counts();
    assert_eq!(counts.len(), 3);
    assert_eq!(counts[0], ("db".to_string(), 3));
    assert_eq!(counts[1], ("api".to_string(), 2));
    assert_eq!(counts[2], ("io".to_string(), 1));
    assert!(ErrorsState::new().error_counts().is_empty());
}

#[test]
fn test_errors_navigation_and_refresh() {
    let mut state = ErrorsState::new();
    assert!(state.needs_refresh(0));
    state.set_errors(vec![err("a"), err("b")], 100);
    assert!(!state.needs_refresh(129));
    assert!(state.needs_refresh(130));
    state.select_next();
    state.select_next();
    assert_eq!(state.selected_index, 1);
    state.enter_details();
    assert!(state.viewing_details);
    state.select_next();
    assert_eq!(state.details_scroll, 1);
    state.select_previous();
    state.select_previous();
    assert_eq!(state.details_scroll, 0);
    assert_eq!(state.selected_index, 1);
    state.exit_details();
    state.select_previous();
    assert_eq!(state.selected_index, 0);
}

#[test]
fn test_users_state_details_follow_selection() {
    let mut state: UsersState<u32, &str, u8> = UsersState::new();
    state.set_users(vec![("u1".to_string(), 10), ("u2".to_string(), 20)], 0);
    state.set_user_details("u2", "stats", vec![1]);
    assert!(state.selected_user_stats.is_none());
    state.set_user_details("u1", "stats", vec![1, 2]);
    assert_eq!(state.selected_user_stats, Some("stats"));
    state.enter_details();
    assert!(state.viewing_details);
    state.select_next();
    assert_eq!(state.selected_index, 1);
    assert!(state.selected_user_stats.is_none());
    assert!(!state.viewing_details);
    state.select_next();
    assert_eq!(state.selected_index, 1);
    assert!(state.needs_refresh(60));
    assert!(!state.needs_refresh(59));
}

#[test]
fn test_time_periods() {
    assert_eq!(TimePeriod::Week.label(), "This Week");
    assert_eq!(TimePeriod::AllTime.next(), TimePeriod::Today);
    assert_eq!(TimePeriod::Month.days(), Some(30));
    assert_eq!(TimePeriod::AllTime.days(), None);
    let mut refresh = StatsRefresh::new();
    assert_eq!(refresh.time_period, TimePeriod::Week);
    assert!(refresh.needs_refresh(0));
    refresh.complete_refresh(10);
    assert!(!refresh.needs_refresh(39));
    assert!(refresh.needs_refresh(40));
    refresh.cycle_time_period();
    assert_eq!(refresh.time_period, TimePeriod::Month);
    assert!(refresh.needs_refresh(11));
}

#[test]
fn test_format_uptime() {
    assert_eq!(format_uptime(59), "0m");
    assert_eq!(format_uptime(3_660), "1h 1m");
    assert_eq!(format_uptime(90_061), "1d 1h 1m");
}

#[test]
fn test_app_events() {
    let mut app = App::new();
    app.set_connected(true);
    app.on_ready(Vec::new(), 42, "Bot".to_string(), "12:00:00");
    assert!(app.bot_connected);
    assert_eq!(app.activity_log.last().unwrap(), "[12:00:00] Bot connected: Bot");
    app.on_disconnected(None, "12:00:01");
    assert_eq!(app.activity_log.last().unwrap(), "[12:00:01] Bot disconnected: Unknown reason");
    app.on_command_response(true, Some("ok".to_string()));
    app.on_command_response(false, Some("bad".to_string()));
    assert_eq!(app.status_message.as_deref(), Some("ok"));
    assert_eq!(app.error_message.as_deref(), Some("bad"));
    app.channel_state.watch(5);
    app.on_message_create(5, msg(1, &"y".repeat(60)), "t");
    assert_eq!(app.activity_log.last().unwrap(), &format!("[t] #5: alice - {}...", "y".repeat(47)));
    assert_eq!(app.channel_state.message_count(5), 1);
    app.on_message_delete(5, 1);
    assert_eq!(app.channel_state.message_count(5), 0);
    app.set_connected(false);
    assert!(!app.bot_connected);
}

#[test]
fn test_activity_log_keeps_last_hundred() {
    let mut app = App::new();
    for i in 0..105 {
        app.add_activity(&format!("event {}", i), "t");
    }
    assert_eq!(app.activity_log.len(), 100);
    assert_eq!(app.activity_log[0], "[t] event 5");
}

#[test]
fn test_app_input_and_settings() {
    let mut app = App::new();
    app.start_message_input();
    assert_eq!(app.input_mode, InputMode::Editing);
    assert_eq!(app.input_purpose, InputPurpose::SendMessage);
    app.input_char('h');
    app.input_char('é');
    app.input_backspace();
    app.input_char('i');
    assert_eq!(app.take_input(), "hi");
    assert!(app.input_buffer.is_empty());
    app.switch_screen(Screen::Settings);
    assert_eq!(app.input_mode, InputMode::Normal);
    app.settings_tab_left();
    assert_eq!(app.settings_tab, SettingsTab::Guild);
    *app.settings_current_index_mut() = 4;
    assert_eq!(app.settings_current_index(), 4);
    assert_eq!(app.settings_list_len(20, 17), 10);
    app.settings_tab_right();
    assert_eq!(app.settings_tab, SettingsTab::Features);
    assert_eq!(app.settings_current_index(), 0);
    assert!(app.is_feature_enabled("council"));
    assert!(!app.toggle_feature_state("council"));
    assert!(!app.is_feature_enabled("council"));
    assert!(app.toggle_feature_state("council"));
    app.on_feature_states(vec![("debate".to_string(), false)], "t");
    assert!(!app.is_feature_enabled("debate"));
    assert!(app.is_feature_enabled("council"));
}

fn channel(id: u64, name: &str, channel_type: ChannelType) -> ChannelInfo {
    ChannelInfo { id, name: name.to_string(), channel_type }
}

fn history(channel_id: u64, guild_id: u64, name: Option<&str>, count: u64) -> ChannelHistorySummary {
    ChannelHistorySummary {
        channel_id,
        channel_name: name.map(|n| n.to_string()),
        guild_id: Some(guild_id),
        guild_name: None,
        message_count: count,
        last_activity: None,
    }
}

#[test]
fn test_browse_merges_and_sorts() {
    let mut app = App::new();
    let guild = GuildInfo {
        id: 1,
        name: "G".to_string(),
        channels: vec![
            channel(10, "zeta", ChannelType::Text),
            channel(11, "voice", ChannelType::Voice),
            channel(12, "alpha", ChannelType::Forum),
            channel(13, "busy", ChannelType::Text),
        ],
        member_count: None,
    };
    app.on_ready(vec![guild], 1, "Bot".to_string(), "t");
    app.on_channels_with_history(
        vec![history(13, 1, None, 5), history(20, 1, Some("archived"), 9), history(30, 2, None, 1), history(13, 1, None, 7)],
        "t",
    );
    assert_eq!(app.db_channel_history.len(), 3);
    assert_eq!(app.db_channel_history[0].message_count, 7);
    assert_eq!(app.pending_watches, vec![13, 20, 30]);
    assert!(app.channel_state.is_watching(20));
    assert_eq!(app.activity_log.last().unwrap(), "[t] Auto-watching 4 channels with history");

    app.start_browse_mode();
    assert_eq!(app.browse_available_channels().len(), 3);
    assert_eq!(app.browse_merged_channel_count(), 4);
    // archived (9) > busy (7) > alpha, zeta (no stored history, by name)
    let order: Vec<(u64, String)> = (0..4)
        .map(|i| {
            app.browse_channel_index = i;
            app.browse_selected_channel_info().unwrap()
        })
        .collect();
    assert_eq!(
        order,
        vec![(20, "archived".to_string()), (13, "busy".to_string()), (12, "alpha".to_string()), (10, "zeta".to_string())]
    );
    app.browse_channel_index = 4;
    assert!(app.browse_selected_channel_info().is_none());

    app.browse_channel_index = 0;
    app.browse_pane_right();
    app.browse_down();
    app.browse_down();
    app.browse_down();
    app.browse_down();
    assert_eq!(app.browse_channel_index, 3);
    app.browse_up();
    assert_eq!(app.browse_channel_index, 2);
    app.browse_pane_left();
    app.browse_down();
    assert_eq!(app.browse_guild_index, 0);
}

#[test]
fn wrap_text_breaks_between_words() {
    assert_eq!(wrap_text("hello world foo", 11), vec!["hello world", "foo"]);
    assert_eq!(wrap_text("  hello   world  ", 20), vec!["hello world"]);
}

#[test]
fn wrap_text_blank_and_zero_width() {
    assert_eq!(wrap_text("", 10), vec![""]);
    assert_eq!(wrap_text("   \n\t", 5), vec![""]);
    assert_eq!(wrap_text("a b  c", 0), vec!["a b  c"]);
}

#[test]
fn wrap_text_cuts_long_words() {
    // A long word on an empty line becomes lines of its own, pieces and all.
    assert_eq!(wrap_text("cdefghi x", 3), vec!["cde", "fgh", "i", "x"]);
    // After a finished line, the last piece starts the next line.
    assert_eq!(wrap_text("ab cdefghi x", 3), vec!["ab", "cde", "fgh", "i x"]);
    for line in wrap_text("the quick brown fox jumps over the lazy dog", 7) {
        assert!(line.chars().count() <= 7);
        assert!(!line.is_empty());
    }
}

#[test]
fn truncate_text_and_user_ids() {
    assert_eq!(truncate_text("hello world", 8), "hello...");
    assert_eq!(truncate_text("hi", 8), "hi");
    assert_eq!(truncate_user_id("123456789012345678"), "123456789012345678");
    assert_eq!(truncate_user_id("1234567890123456789"), "123456789012345...");
}

#[test]
fn message_pane_titles_and_windows() {
    assert_eq!(message_pane_title(None, None, 0), "Messages (select a channel)");
    let meta = ChannelMetadata { guild_id: Some(1), name: "general".to_string(), guild_name: Some("Guild".to_string()), message_count: 0 };
    assert_eq!(message_pane_title(Some(5), Some(&meta), 3), "#general in Guild - 3 messages");
    let bare = ChannelMetadata { guild_name: None, ..meta.clone() };
    assert_eq!(message_pane_title(Some(5), Some(&bare), 1), "#general - 1 messages");
    assert_eq!(message_pane_title(Some(5), None, 0), "Channel 5 - 0 messages");
    assert_eq!(visible_window(50, 10, 12), (10, 20));
    assert_eq!(visible_window(5, 10, 12), (5, 5));
    assert_eq!(visible_window(5, 0, 1), (0, 0));
    assert_eq!(scrolled_title("T", 10, 10, 50), "T [11-20/50]");
    assert_eq!(scrolled_title("T", 0, 10, 5), "T");
    assert_eq!(scrolled_title("T", 0, 10, 12), "T [1-10/12]");
    assert_eq!(continuation_indent("alice"), 18);
    assert_eq!(message_wrap_width(80, 18), 62);
    assert_eq!(message_wrap_width(30, 18), 20);
    assert_eq!(continuation_line(3, "x"), "   x");
}
