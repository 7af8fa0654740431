use persona_bot::personas::{
    add_persona_choices, apply_paragraph_limit, is_valid_persona, PersonaManager, PromptBuilder, PERSONA_CHOICES,
};
use persona_bot::plugins::commands::{ChoiceSpec, OptionKind, OptionSpec};

#[test]
fn test_persona_manager_creation() {
    let manager = PersonaManager::new();
    assert!(manager.get_persona("obi").is_some());
    assert!(manager.get_persona("muppet").is_some());
    assert!(manager.get_persona("chef").is_some());
    assert!(manager.get_persona("teacher").is_some());
    assert!(manager.get_persona("analyst").is_some());
    assert!(manager.get_persona("visionary").is_some());
    assert!(manager.get_persona("noir").is_some());
    assert!(manager.get_persona("zen").is_some());
    assert!(manager.get_persona("bard").is_some());
    assert!(manager.get_persona("coach").is_some());
    assert!(manager.get_persona("scientist").is_some());
    assert!(manager.get_persona("gamer").is_some());
    assert!(manager.get_persona("architect").is_some());
    assert!(manager.get_persona("debugger").is_some());
    assert!(manager.get_persona("review").is_some());
    assert!(manager.get_persona("devops").is_some());
    assert!(manager.get_persona("designer").is_some());
    assert!(manager.get_persona("nonexistent").is_none());
}

#[test]
fn test_get_system_prompt_with_modifiers() {
    let manager = PersonaManager::new();

    let base_prompt = manager.get_system_prompt("muppet", None);
    assert!(base_prompt.contains("warm, enthusiastic friend"));

    let explain_prompt = manager.get_system_prompt("muppet", Some("explain"));
    assert!(explain_prompt.contains("clear explanations"));

    let simple_prompt = manager.get_system_prompt("muppet", Some("simple"));
    assert!(simple_prompt.contains("analogies"));

    let steps_prompt = manager.get_system_prompt("muppet", Some("steps"));
    assert!(steps_prompt.contains("actionable steps"));

    let recipe_prompt = manager.get_system_prompt("muppet", Some("recipe"));
    assert!(recipe_prompt.contains("recipe"));
}

#[test]
fn test_persona_descriptions() {
    let manager = PersonaManager::new();
    let personas = manager.list_personas();

    assert!(!personas.is_empty());
    for (_, persona) in personas {
        assert!(!persona.name.is_empty());
        assert!(!persona.description.is_empty());
        assert!(!persona.system_prompt.is_empty());
        assert!(persona.color != 0, "Persona should have a color set");
    }
}

#[test]
fn test_persona_colors() {
    let manager = PersonaManager::new();

    let obi = manager.get_persona("obi").unwrap();
    assert_eq!(obi.color, 0x4A90D9);

    let visionary = manager.get_persona("visionary").unwrap();
    assert_eq!(visionary.color, 0x9B59B6);

    let gamer = manager.get_persona("gamer").unwrap();
    assert_eq!(gamer.color, 0x9146FF);
}

#[test]
fn test_verbosity_suffix_concise() {
    let manager = PersonaManager::new();
    let prompt = manager.get_system_prompt_with_verbosity("muppet", None, "concise");
    assert!(prompt.contains("brief and to the point"));
    assert!(prompt.contains("2-3 sentences"));
    assert!(prompt.contains("Want me to elaborate?"));
}

#[test]
fn test_verbosity_suffix_detailed() {
    let manager = PersonaManager::new();
    let prompt = manager.get_system_prompt_with_verbosity("muppet", None, "detailed");
    assert!(prompt.contains("comprehensive"));
    assert!(prompt.contains("Include examples"));
    assert!(prompt.contains("wants depth"));
}

#[test]
fn test_verbosity_suffix_normal() {
    let manager = PersonaManager::new();
    let prompt_normal = manager.get_system_prompt_with_verbosity("muppet", None, "normal");
    let prompt_base = manager.get_system_prompt("muppet", None);
    assert_eq!(prompt_normal, prompt_base);
}

#[test]
fn test_verbosity_with_modifier() {
    let manager = PersonaManager::new();
    let prompt = manager.get_system_prompt_with_verbosity("muppet", Some("explain"), "concise");
    assert!(prompt.contains("clear explanations"));
    assert!(prompt.contains("brief and to the point"));
}

#[test]
fn test_get_portrait_url_without_base() {
    let manager = PersonaManager::new();
    assert!(manager.get_portrait_url("obi", None).is_none());
}

#[test]
fn test_get_portrait_url_with_base() {
    let manager = PersonaManager::new();
    let url = manager.get_portrait_url("obi", Some("https://example.com/portraits"));
    assert!(url.is_some());
    assert_eq!(url.unwrap(), "https://example.com/portraits/obi.png");
}

#[test]
fn test_get_portrait_url_trailing_slash() {
    let manager = PersonaManager::new();
    let url = manager.get_portrait_url("muppet", Some("https://example.com/portraits/"));
    assert!(url.is_some());
    assert_eq!(url.unwrap(), "https://example.com/portraits/muppet.png");
}

#[test]
fn test_get_persona_with_portrait() {
    let manager = PersonaManager::new();
    let persona = manager.get_persona_with_portrait("chef", Some("https://cdn.example.com/img"));

    assert!(persona.is_some());
    let p = persona.unwrap();
    assert_eq!(p.name, "Chef");
    assert!(p.portrait_url.is_some());
    assert_eq!(p.portrait_url.unwrap(), "https://cdn.example.com/img/chef.png");
}

#[test]
fn test_apply_paragraph_limit_no_limit() {
    let prompt = "Test prompt";
    let result = apply_paragraph_limit(prompt, 0);
    assert_eq!(result, "Test prompt");
}

#[test]
fn test_apply_paragraph_limit_with_limit() {
    let prompt = "Test prompt";
    let result = apply_paragraph_limit(prompt, 3);
    assert!(result.contains("Test prompt"));
    assert!(result.contains("IMPORTANT: Limit your response to 3 paragraph(s) maximum."));
}

#[test]
fn test_apply_paragraph_limit_single_paragraph() {
    let prompt = "Test prompt";
    let result = apply_paragraph_limit(prompt, 1);
    assert!(result.contains("IMPORTANT: Limit your response to 1 paragraph(s) maximum."));
}

#[test]
fn test_prompt_builder_basic() {
    let manager = PersonaManager::new();
    let prompt = PromptBuilder::new(&manager, "obi").build();
    assert!(!prompt.is_empty());
}

#[test]
fn test_prompt_builder_with_modifier() {
    let manager = PersonaManager::new();
    let prompt = PromptBuilder::new(&manager, "teacher")
        .with_modifier(Some("explain"))
        .build();
    assert!(prompt.contains("clear explanations"));
}

#[test]
fn test_prompt_builder_with_verbosity() {
    let manager = PersonaManager::new();
    let prompt = PromptBuilder::new(&manager, "analyst")
        .with_verbosity("concise")
        .build();
    assert!(prompt.contains("brief and to the point"));
}

#[test]
fn test_prompt_builder_with_max_paragraphs() {
    let manager = PersonaManager::new();
    let prompt = PromptBuilder::new(&manager, "chef")
        .with_max_paragraphs(Some(3))
        .build();
    assert!(prompt.contains("3 paragraph(s) maximum"));
}

#[test]
fn test_prompt_builder_zero_paragraphs_ignored() {
    let manager = PersonaManager::new();
    let prompt = PromptBuilder::new(&manager, "chef")
        .with_max_paragraphs(Some(0))
        .build();
    assert!(!prompt.contains("paragraph(s) maximum"));
}

#[test]
fn test_prompt_builder_chained() {
    let manager = PersonaManager::new();
    let prompt = PromptBuilder::new(&manager, "scientist")
        .with_modifier(Some("simple"))
        .with_verbosity("detailed")
        .with_max_paragraphs(Some(5))
        .build();

    assert!(prompt.contains("simple and concise"));
    assert!(prompt.contains("comprehensive, detailed"));
    assert!(prompt.contains("5 paragraph(s) maximum"));
}

#[test]
fn test_persona_choices_complete() {
    assert_eq!(PERSONA_CHOICES.len(), 17);
}

#[test]
fn test_is_valid_persona() {
    assert!(is_valid_persona("obi"));
    assert!(is_valid_persona("designer"));
    assert!(!is_valid_persona("invalid"));
}

#[test]
fn test_all_personas_have_unique_ids() {
    let mut ids: Vec<&str> = PERSONA_CHOICES.iter().map(|(_, id)| *id).collect();
    ids.sort();
    ids.dedup();
    assert_eq!(ids.len(), PERSONA_CHOICES.len(), "Duplicate persona IDs found");
}

#[test]
fn unknown_persona_falls_back_to_generic_prompt() {
    let manager = PersonaManager::new();
    assert_eq!(manager.get_system_prompt("nobody", None), "You are a helpful assistant.");
    assert_eq!(
        manager.get_system_prompt("nobody", Some("steps")),
        "You are a helpful assistant. Break this out into clear, actionable steps."
    );
}

#[test]
fn unknown_modifier_and_verbosity_add_nothing() {
    let manager = PersonaManager::new();
    let base = manager.get_system_prompt("zen", None);
    assert_eq!(manager.get_system_prompt_with_verbosity("zen", Some("poem"), "loud"), base);
}

#[test]
fn builder_matches_manager_and_paragraph_limit() {
    let manager = PersonaManager::new();
    let built = PromptBuilder::new(&manager, "bard")
        .with_modifier(Some("steps"))
        .with_verbosity("concise")
        .with_max_paragraphs(Some(2))
        .build();
    let expected = apply_paragraph_limit(
        &manager.get_system_prompt_with_verbosity("bard", Some("steps"), "concise"),
        2,
    );
    assert_eq!(built, expected);
}

#[test]
fn portrait_without_base_and_for_unknown_persona() {
    let manager = PersonaManager::new();
    let p = manager.get_persona_with_portrait("zen", None).unwrap();
    assert!(p.portrait_url.is_none());
    let url = manager.get_portrait_url("unknown", Some("https://x.test///"));
    assert_eq!(url.unwrap(), "https://x.test/unknown.png");
}

#[test]
fn persona_choices_added_to_an_option() {
    let mut option = OptionSpec {
        name: "persona".to_string(),
        description: "Who answers".to_string(),
        kind: OptionKind::String,
        required: true,
        choices: vec![ChoiceSpec::Text { name: "Default".to_string(), value: "default".to_string() }],
    };
    add_persona_choices(&mut option);
    assert_eq!(option.choices.len(), 18);
    match &option.choices[1] {
        ChoiceSpec::Text { name, value } => assert_eq!((name.as_str(), value.as_str()), ("Obi-Wan", "obi")),
        other => panic!("unexpected choice {:?}", other),
    }
    match &option.choices[17] {
        ChoiceSpec::Text { name, value } => assert_eq!((name.as_str(), value.as_str()), ("Designer", "designer")),
        other => panic!("unexpected choice {:?}", other),
    }
    assert_eq!(option.name, "persona");
}

#[test]
fn persona_colors_are_distinct() {
    let manager = PersonaManager::new();
    let colors: Vec<u32> = manager.list_personas().iter().map(|(_, p)| p.color).collect();
    assert_eq!(colors.len(), 17);
    for i in 0..colors.len() {
        assert_ne!(colors[i], 0);
        for j in i + 1..colors.len() {
            assert_ne!(colors[i], colors[j]);
        }
    }
    assert_eq!(manager.get_persona("review").unwrap().name, "The Code Review Specialist");
}
