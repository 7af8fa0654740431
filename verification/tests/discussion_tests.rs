use persona_bot::council::CouncilState;
use persona_bot::debate::{
    debate_closing_text, debate_embed_footer, debate_embed_text, portrait_key, DebateConfig,
    DebateOrchestrator,
};
use persona_bot::discussion::{
    create_awaiting_buttons, create_council_buttons, create_debate_buttons, detect_thread_context,
    format_council_context_for_debate, format_debate_context_for_council, format_prior_context,
    hear_button_id, parse_council_speaker_id, parse_debate_hear_id, speaker_button_id,
    ButtonKind, DiscussionMessage, DiscussionType, ThreadContext,
};
use persona_bot::personas::PersonaManager;

#[test]
fn test_council_state_creation() {
    let state = CouncilState::new(
        "Test topic".to_string(),
        vec!["obi".to_string(), "muppet".to_string()],
        "user123".to_string(),
        Some("guild456".to_string()),
    );

    assert_eq!(state.topic, "Test topic");
    assert_eq!(state.persona_ids.len(), 2);
    assert!(state.history.is_empty());
    assert!(state.rules.is_none());
    assert!(state.is_active);
    assert!(!state.opening_complete);
}

#[test]
fn test_council_state_with_rules() {
    let state = CouncilState::with_rules(
        "Test topic".to_string(),
        vec!["obi".to_string()],
        "user123".to_string(),
        None,
        Some("Be respectful".to_string()),
    );

    assert_eq!(state.rules, Some("Be respectful".to_string()));
    assert!(state.is_active);
}

#[test]
fn test_council_state_lifecycle() {
    let mut state = CouncilState::new(
        "Test".to_string(),
        vec!["obi".to_string()],
        "user".to_string(),
        None,
    );

    assert!(!state.opening_complete);
    state.mark_opening_complete();
    assert!(state.opening_complete);

    assert!(state.is_active);
    state.deactivate();
    assert!(!state.is_active);
}

#[test]
fn test_council_message_history() {
    let mut state = CouncilState::new(
        "Test topic".to_string(),
        vec!["obi".to_string()],
        "user123".to_string(),
        None,
    );

    state.add_user_message("What do you think?".to_string());
    state.add_persona_response("obi", "The Force guides us.".to_string());

    assert_eq!(state.history.len(), 2);
    assert_eq!(state.history[0].role, "user");
    assert_eq!(state.history[1].role, "assistant");
    assert_eq!(state.history[1].persona_id, Some("obi".to_string()));
}

#[test]
fn council_summary_without_history_is_the_topic() {
    let state = CouncilState::new("Tabs".to_string(), vec![], "u".to_string(), None);
    assert_eq!(state.get_context_summary(), "Original topic: Tabs");
}

#[test]
fn council_summary_keeps_the_last_ten_messages() {
    let mut state = CouncilState::new("T".to_string(), vec!["obi".to_string()], "u".to_string(), None);
    for i in 0..12 {
        if i % 2 == 0 {
            state.add_user_message(format!("q{i}"));
        } else {
            state.add_persona_response("obi", format!("a{i}"));
        }
    }
    let s = state.get_context_summary();
    assert!(s.starts_with("Original topic: T\n\nPrevious discussion:\n[User]: q2\n\n[obi]: a3\n\n"));
    assert!(!s.contains("q0"));
    assert!(!s.contains("a1\n"));
    assert!(s.ends_with("[obi]: a11\n\n"));
}

#[test]
fn test_debate_config() {
    let config = DebateConfig {
        persona1_id: "obi".to_string(),
        persona2_id: "muppet".to_string(),
        topic: "Is the Force real?".to_string(),
        rounds: 6,
        initiator_id: "123".to_string(),
        guild_id: Some("456".to_string()),
    };

    assert_eq!(config.persona1_id, "obi");
    assert_eq!(config.persona2_id, "muppet");
    assert_eq!(config.rounds, 6);
}

#[test]
fn test_orchestrator_creation() {
    let orchestrator = DebateOrchestrator::new();
    assert!(orchestrator.persona_manager.get_persona("obi").is_some());
}

#[test]
fn test_build_debate_prompt_opening() {
    let orchestrator = DebateOrchestrator::new();
    let persona = orchestrator.persona_manager.get_persona("obi").unwrap();

    let prompt = orchestrator.build_debate_prompt(
        persona,
        "Muppet Friend",
        "Is pineapple on pizza acceptable?",
        true,
    );

    assert!(prompt.contains("OPENING STATEMENT"));
    assert!(prompt.contains("Muppet Friend"));
    assert!(prompt.contains("pineapple on pizza"));
}

#[test]
fn test_build_debate_prompt_response() {
    let orchestrator = DebateOrchestrator::new();
    let persona = orchestrator.persona_manager.get_persona("muppet").unwrap();

    let prompt = orchestrator.build_debate_prompt(
        persona,
        "Obi-Wan",
        "Is pineapple on pizza acceptable?",
        false,
    );

    assert!(!prompt.contains("OPENING STATEMENT"));
    assert!(prompt.contains("Respond to your opponent"));
    assert!(prompt.contains("Obi-Wan"));
}

fn sample_config(rounds: i64) -> DebateConfig {
    DebateConfig {
        persona1_id: "obi".to_string(),
        persona2_id: "muppet".to_string(),
        topic: "Cats or dogs?".to_string(),
        rounds,
        initiator_id: "1".to_string(),
        guild_id: None,
    }
}

#[test]
fn debate_turns_alternate_and_pause_until_the_last() {
    let o = DebateOrchestrator::new();
    let p1 = o.persona_manager.get_persona("obi").unwrap().clone();
    let p2 = o.persona_manager.get_persona("muppet").unwrap().clone();
    let config = sample_config(3);
    let t1 = o.plan_turn(&p1, &p2, &config, 1);
    assert!(t1.first_speaks && t1.is_opening && t1.pause_after);
    assert_eq!(t1.user_message, "Begin the debate on: Cats or dogs?");
    assert!(t1.system_prompt.starts_with(&p1.system_prompt));
    let t2 = o.plan_turn(&p1, &p2, &config, 2);
    assert!(!t2.first_speaks && !t2.is_opening && t2.pause_after);
    assert_eq!(
        t2.user_message,
        "Your opponent Obi-Wan just said their piece. Respond to continue the debate on: Cats or dogs?"
    );
    let t3 = o.plan_turn(&p1, &p2, &config, 3);
    assert!(t3.first_speaks && !t3.pause_after);
}

#[test]
fn debate_embed_text_and_footer() {
    let long = "x".repeat(4001);
    let t = debate_embed_text(&long);
    assert_eq!(t.len(), 4000);
    assert!(t.ends_with("..."));
    assert_eq!(debate_embed_text("short"), "short");
    assert_eq!(debate_embed_text(&"y".repeat(4000)).len(), 4000);
    assert_eq!(debate_embed_footer(2, 6), "Response 2/6");
}

#[test]
fn debate_closing_and_portrait_key() {
    let m = PersonaManager::new();
    let a = m.get_persona("obi").unwrap();
    let b = m.get_persona("analyst").unwrap();
    assert_eq!(
        debate_closing_text(a, b, "Tea?", -1),
        "**Topic:** Tea?\n\n**Debaters:** Obi-Wan vs Step-by-Step Analyst\n**Rounds:** -1"
    );
    assert_eq!(portrait_key("Step-by-Step Analyst"), "step_by_step_analyst");
    assert_eq!(portrait_key("The Bard"), "the_bard");
}

#[test]
fn test_parse_council_speaker_id() {
    let custom_id = "speaker_council_123456789_obi_0";
    let result = parse_council_speaker_id(custom_id);
    assert!(result.is_some());
    let (thread_id, persona_id) = result.unwrap();
    assert_eq!(thread_id, 123456789);
    assert_eq!(persona_id, "obi");
}

#[test]
fn test_parse_debate_hear_id() {
    let custom_id = "hear_debate_987654321_muppet";
    let result = parse_debate_hear_id(custom_id);
    assert!(result.is_some());
    let (thread_id, persona_id) = result.unwrap();
    assert_eq!(thread_id, 987654321);
    assert_eq!(persona_id, "muppet");
}

#[test]
fn test_invalid_parse() {
    assert!(parse_council_speaker_id("invalid_id").is_none());
    assert!(parse_debate_hear_id("invalid_id").is_none());
}

#[test]
fn parse_edge_cases() {
    assert_eq!(parse_council_speaker_id("speaker_council_+7_zen"), Some((7, "zen".to_string())));
    assert!(parse_council_speaker_id("speaker_council_12").is_none());
    assert!(parse_council_speaker_id("speaker_council_x_obi_0").is_none());
    assert!(parse_council_speaker_id("speaker_council_18446744073709551616_obi_0").is_none());
    assert!(parse_debate_hear_id("hear_debate_5").is_none());
    assert_eq!(parse_debate_hear_id("hear_debate_5_a_b"), Some((5, "a_b".to_string())));
}

#[test]
fn button_ids_round_trip() {
    let id = speaker_button_id(42, "chef", 3);
    assert_eq!(id, "speaker_council_42_chef_3");
    assert_eq!(parse_council_speaker_id(&id), Some((42, "chef".to_string())));
    let h = hear_button_id(u64::MAX, "dev_ops");
    assert_eq!(parse_debate_hear_id(&h), Some((u64::MAX, "dev_ops".to_string())));
}

#[test]
fn council_buttons_layout() {
    let m = PersonaManager::new();
    let ids: Vec<String> = [
        "obi", "muppet", "chef", "teacher", "analyst", "visionary", "noir", "zen", "bard", "coach",
        "scientist",
    ]
    .iter()
    .map(|s| s.to_string())
    .collect();
    let rows = create_council_buttons(9, &ids, &m);
    assert_eq!(rows.len(), 3);
    assert_eq!(rows[0].len(), 5);
    assert_eq!(rows[1].len(), 5);
    assert_eq!(rows[0][0].custom_id, "speaker_council_9_obi_0");
    assert_eq!(rows[0][0].label, "Hear Obi-Wan");
    assert_eq!(rows[0][4].label, "Hear Step-by-Step Analyst");
    assert_eq!(rows[2][0].custom_id, "continue_council_9");
    assert_eq!(rows[2][1].custom_id, "dismiss_council_9");
    assert_eq!(rows[2][1].kind, ButtonKind::Secondary);
    let few = create_council_buttons(1, &vec!["zen".to_string(), "averyveryverylongpersonaid".to_string()], &m);
    assert_eq!(few.len(), 2);
    assert_eq!(few[0][1].label, "Hear averyveryverylong...");
}

#[test]
fn debate_and_awaiting_buttons() {
    let m = PersonaManager::new();
    let rows = create_debate_buttons(5, "obi", "chef", &m);
    assert_eq!(rows[0][0].custom_id, "hear_debate_5_obi");
    assert_eq!(rows[0][1].label, "Hear Chef");
    assert_eq!(rows[1][0].label, "Continue (+4 rounds)");
    assert_eq!(rows[1][1].custom_id, "debate_end_5");
    let row = create_awaiting_buttons(5, DiscussionType::Debate);
    assert_eq!(row[0].custom_id, "debate_continue_5");
    assert_eq!(row[0].label, "Continue Debate");
}

#[test]
fn test_discussion_type_display() {
    assert_eq!(DiscussionType::Council.to_string(), "Council");
    assert_eq!(DiscussionType::Debate.to_string(), "Debate");
}

#[test]
fn test_discussion_message_constructors() {
    let user_msg = DiscussionMessage::user("Hello");
    assert_eq!(user_msg.role, "user");
    assert!(user_msg.speaker.is_none());
    assert_eq!(user_msg.content, "Hello");

    let persona_msg = DiscussionMessage::persona("obi", "The Force is with you");
    assert_eq!(persona_msg.role, "assistant");
    assert_eq!(persona_msg.speaker, Some("obi".to_string()));

    let system_msg = DiscussionMessage::system("System info");
    assert_eq!(system_msg.role, "system");
    assert!(system_msg.speaker.is_none());
}

#[test]
fn test_thread_context() {
    let mut ctx = ThreadContext::new(
        DiscussionType::Council,
        "Test topic",
        vec!["obi".to_string(), "muppet".to_string()],
    );

    assert_eq!(ctx.discussion_type, DiscussionType::Council);
    assert_eq!(ctx.topic, "Test topic");
    assert_eq!(ctx.participants.len(), 2);
    assert_eq!(ctx.message_count(), 0);

    ctx.add_message(DiscussionMessage::user("Question"));
    assert_eq!(ctx.message_count(), 1);

    let ctx_with_rules = ctx.with_rules(Some("Be respectful".to_string()));
    assert_eq!(ctx_with_rules.rules, Some("Be respectful".to_string()));
}

#[test]
fn test_thread_context_creation() {
    let ctx = ThreadContext::new(
        DiscussionType::Council,
        "Test topic",
        vec!["obi".to_string(), "muppet".to_string()],
    );

    assert_eq!(ctx.discussion_type, DiscussionType::Council);
    assert_eq!(ctx.participants.len(), 2);
}

#[test]
fn test_format_prior_context() {
    let mut ctx = ThreadContext::new(
        DiscussionType::Council,
        "Should we use tabs or spaces?",
        vec!["obi".to_string()],
    );
    ctx.add_message(DiscussionMessage::user("What are your thoughts?"));
    ctx.add_message(DiscussionMessage::persona(
        "obi",
        "The Force suggests spaces for readability.",
    ));
    ctx = ctx.with_rules(Some("Be respectful of coding preferences".to_string()));

    let persona_manager = PersonaManager::new();
    let formatted = format_prior_context(&ctx, &persona_manager);

    assert!(formatted.contains("Prior Council Context"));
    assert!(formatted.contains("tabs or spaces"));
    assert!(formatted.contains("Established Rules"));
    assert!(formatted.contains("Discussion Summary"));
}

#[test]
fn prior_context_exact_text() {
    let mut ctx = ThreadContext::new(
        DiscussionType::Debate,
        "T",
        vec!["obi".to_string(), "nobody".to_string()],
    );
    ctx.add_message(DiscussionMessage::persona("obi", &"z".repeat(201)));
    let m = PersonaManager::new();
    let s = format_prior_context(&ctx, &m);
    let expected = format!(
        "## Prior Debate Context\n\n**Original Topic:** T\n\n**Previous Participants:** Obi-Wan, nobody\n\n**Discussion Summary:**\n- **Obi-Wan**: {}...\n\nYou are joining this ongoing discussion. Build upon what has been said while bringing your unique perspective.\n",
        "z".repeat(197)
    );
    assert_eq!(s, expected);
    let c = format_debate_context_for_council(&ctx, &m);
    assert!(c.starts_with(&s) && c.ends_with("challenge the debate positions.\n"));
    let d = format_council_context_for_debate(&ctx, &m);
    assert!(d.ends_with("the council's discussion points.\n"));
}

#[test]
fn detect_prefers_council_then_debate() {
    let mut state = CouncilState::new("C".to_string(), vec!["zen".to_string()], "u".to_string(), None);
    state.add_user_message("hi".to_string());
    state.history.push(persona_bot::council::CouncilMessage {
        role: "assistant".to_string(),
        persona_id: None,
        content: "x".to_string(),
    });
    let config = sample_config(4);
    let history = vec![
        ("assistant".to_string(), "a".to_string()),
        ("user".to_string(), "b".to_string()),
        ("assistant".to_string(), "c".to_string()),
        ("assistant".to_string(), "d".to_string()),
    ];
    let c = detect_thread_context(Some(&state), Some((&config, None, &history))).unwrap();
    assert_eq!(c.discussion_type, DiscussionType::Council);
    assert_eq!(c.messages[1].speaker, Some(String::new()));
    let d = detect_thread_context(None, Some((&config, Some("r".to_string()), &history))).unwrap();
    assert_eq!(d.discussion_type, DiscussionType::Debate);
    let speakers: Vec<Option<String>> = d.messages.iter().map(|m| m.speaker.clone()).collect();
    assert_eq!(
        speakers,
        vec![Some("obi".to_string()), None, Some("muppet".to_string()), Some("obi".to_string())]
    );
    assert_eq!(d.rules, Some("r".to_string()));
    assert!(detect_thread_context(None, None).is_none());
}
