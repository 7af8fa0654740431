use persona_bot::plugins::commands::{create_plugins_command, parse_i32_str, parse_option_type, ChoiceSpec, OptionKind};
use persona_bot::plugins::config::{
    Choice, CommandDefinition, CommandOption, ExecutionConfig, OutputConfig, Plugin, SecurityConfig,
};
use std::collections::HashMap;

fn create_test_plugin(name: &str, enabled: bool) -> Plugin {
    Plugin {
        name: name.to_string(),
        description: "Test plugin".to_string(),
        enabled,
        version: "1.0.0".to_string(),
        command: CommandDefinition {
            name: name.to_string(),
            description: "Test command".to_string(),
            options: vec![CommandOption {
                name: "input".to_string(),
                description: "Input parameter".to_string(),
                option_type: "string".to_string(),
                required: true,
                default: None,
                validation: None,
                choices: vec![],
            }],
        },
        execution: ExecutionConfig {
            command: "echo".to_string(),
            args: vec!["${input}".to_string()],
            timeout_seconds: 60,
            working_directory: None,
            max_output_bytes: 1000,
            env: HashMap::new(),
            chunking: None,
        },
        security: SecurityConfig::default(),
        output: OutputConfig::default(),
        playlist: None,
    }
}

#[test]
fn test_create_plugins_command_returns_single_command() {
    let plugins = vec![create_test_plugin("enabled_plugin", true), create_test_plugin("disabled_plugin", false)];

    let cmd = create_plugins_command(&plugins);

    assert_eq!(cmd.name, "plugins");
    assert_eq!(cmd.subcommands.len(), 1);
    let subcommand = &cmd.subcommands[0];
    assert_eq!(subcommand.name, "enabled_plugin");
    assert_eq!(subcommand.kind().code(), 1);
}

#[test]
fn test_create_plugins_command_no_plugins() {
    let cmd = create_plugins_command(&[]);
    assert_eq!(cmd.name, "plugins");
    assert!(cmd.subcommands.is_empty());
}

#[test]
fn test_parse_option_types() {
    assert_eq!(parse_option_type("string"), OptionKind::String);
    assert_eq!(parse_option_type("STRING"), OptionKind::String);
    assert_eq!(parse_option_type("integer"), OptionKind::Integer);
    assert_eq!(parse_option_type("boolean"), OptionKind::Boolean);
    assert_eq!(parse_option_type("user"), OptionKind::User);
    assert_eq!(parse_option_type("channel"), OptionKind::Channel);
    assert_eq!(parse_option_type("role"), OptionKind::Role);
    assert_eq!(parse_option_type("unknown"), OptionKind::String);
    assert_eq!(parse_option_type("Number").code(), 10);
    assert_eq!(parse_option_type("attachment").code(), 11);
}

#[test]
fn test_command_with_choices() {
    let mut plugin = create_test_plugin("test", true);
    plugin.command.options = vec![CommandOption {
        name: "format".to_string(),
        description: "Output format".to_string(),
        option_type: "string".to_string(),
        required: true,
        default: None,
        validation: None,
        choices: vec![
            Choice { name: "JSON".to_string(), value: "json".to_string() },
            Choice { name: "Text".to_string(), value: "text".to_string() },
        ],
    }];

    let cmd = create_plugins_command(&[plugin]);

    assert_eq!(cmd.subcommands.len(), 1);
    let subcommand_options = &cmd.subcommands[0].options;
    assert_eq!(subcommand_options.len(), 1);
    assert_eq!(subcommand_options[0].choices.len(), 2);
}

#[test]
fn test_subcommand_has_correct_parameters() {
    let plugins = vec![create_test_plugin("my_plugin", true)];
    let cmd = create_plugins_command(&plugins);

    let sub_options = &cmd.subcommands[0].options;
    assert_eq!(sub_options.len(), 1);
    assert_eq!(sub_options[0].name, "input");
    assert!(sub_options[0].required);
    assert_eq!(sub_options[0].kind.code(), 3);
}

#[test]
fn test_integer_choices_keep_parsable_values() {
    let mut plugin = create_test_plugin("count", true);
    plugin.command.options[0].option_type = "integer".to_string();
    plugin.command.options[0].choices = vec![
        Choice { name: "one".to_string(), value: "1".to_string() },
        Choice { name: "bad".to_string(), value: "x1".to_string() },
        Choice { name: "neg".to_string(), value: "-2147483648".to_string() },
        Choice { name: "big".to_string(), value: "2147483648".to_string() },
    ];
    let cmd = create_plugins_command(&[plugin]);
    let choices = &cmd.subcommands[0].options[0].choices;
    assert_eq!(choices.len(), 2);
    match &choices[0] {
        ChoiceSpec::Int { name, value } => {
            assert_eq!(name, "one");
            assert_eq!(*value, 1);
        }
        other => panic!("unexpected {:?}", other),
    }
    match &choices[1] {
        ChoiceSpec::Int { value, .. } => assert_eq!(*value, i32::MIN),
        other => panic!("unexpected {:?}", other),
    }
}

#[test]
fn test_parse_i32_like_std() {
    for s in ["0", "+7", "-7", "2147483647", "-2147483648", "2147483648", "", "-", "+", "-+1", "1a", " 1", "99999999999999999999"] {
        assert_eq!(parse_i32_str(s), s.parse::<i32>().ok(), "input {:?}", s);
    }
}
