use persona_bot::plugins::config::{
    default_archive, default_max_inline, default_max_output, default_string, default_timeout,
    default_true, ChunkingConfig, CommandDefinition, CommandOption, ConfigError, ExecutionConfig,
    OutputConfig, Plugin, PluginConfig, PluginType, RawCommandDefinition, RawExecutionConfig,
    RawOutputConfig, RawPlugin, SecurityConfig, ValidationRule,
};
use std::collections::HashMap;

fn s(x: &str) -> String {
    x.to_string()
}

fn strings(xs: &[&str]) -> Vec<String> {
    xs.iter().map(|x| x.to_string()).collect()
}

/// A plugin as the monolithic schema reads it, with the schema's defaults
/// for every field the text leaves out.
fn schema_plugin(name: &str, command_name: &str, options: Vec<CommandOption>, command: &str, args: &[&str]) -> Plugin {
    Plugin {
        name: s(name),
        description: s("Test"),
        enabled: default_true(),
        version: s("1.0.0"),
        command: CommandDefinition { name: s(command_name), description: s("Test command"), options },
        execution: ExecutionConfig {
            command: s(command),
            args: strings(args),
            timeout_seconds: default_timeout(),
            working_directory: None,
            max_output_bytes: default_max_output(),
            env: HashMap::new(),
            chunking: None,
        },
        security: SecurityConfig::default(),
        output: OutputConfig {
            auto_archive_minutes: default_archive(),
            max_inline_length: default_max_inline(),
            ..OutputConfig::default()
        },
        playlist: None,
    }
}

fn option(name: &str, pattern: Option<&str>) -> CommandOption {
    CommandOption {
        name: s(name),
        description: s("Input"),
        option_type: default_string(),
        required: false,
        default: None,
        validation: pattern.map(|p| ValidationRule {
            pattern: Some(s(p)),
            min_length: None,
            max_length: None,
            min_value: None,
            max_value: None,
        }),
        choices: Vec::new(),
    }
}

fn raw(name: &str, description: &str, plugin_type: Option<PluginType>) -> RawPlugin {
    RawPlugin {
        name: s(name),
        description: s(description),
        version: s("1.0.0"),
        plugin_type,
        enabled: default_true(),
        command: None,
        execution: None,
        security: None,
        output: None,
        playlist: None,
    }
}

fn raw_command(name: Option<&str>, description: &str) -> Option<RawCommandDefinition> {
    Some(RawCommandDefinition { name: name.map(s), description: s(description), options: Vec::new() })
}

fn raw_execution() -> RawExecutionConfig {
    RawExecutionConfig {
        command: None,
        args: None,
        script: None,
        timeout_seconds: None,
        working_directory: None,
        max_output_bytes: None,
        env: None,
        chunking: None,
    }
}

fn raw_output() -> RawOutputConfig {
    RawOutputConfig {
        create_thread: None,
        thread_name_template: None,
        auto_archive_minutes: None,
        post_as_file: None,
        file_name_template: None,
        max_inline_length: None,
        summary_prompt: None,
        chunk_summary_prompt: None,
        error_template: None,
        source_param: None,
    }
}

#[test]
fn test_parse_minimal_config() {
    let config = PluginConfig { plugins: vec![schema_plugin("test", "test", Vec::new(), "echo", &["hello"])] };
    assert_eq!(config.plugins.len(), 1);
    assert_eq!(config.plugins[0].name, "test");
    assert!(config.plugins[0].enabled);
}

#[test]
fn test_parse_full_config() {
    let mut url = option("url", Some("^https?://"));
    url.description = s("Video URL");
    url.option_type = s("string");
    url.required = true;
    url.validation.as_mut().unwrap().max_length = Some(200);
    let mut plugin = schema_plugin(
        "transcribe",
        "transcribe",
        vec![url],
        "docker",
        &["run", "--rm", "quietly", "${url}"],
    );
    plugin.description = s("Transcribe videos");
    plugin.command.description = s("Transcribe a video");
    plugin.execution.timeout_seconds = 600;
    plugin.security.cooldown_seconds = 60;
    plugin.output.create_thread = true;
    plugin.output.thread_name_template = Some(s("Transcript: ${url}"));
    plugin.output.post_as_file = true;
    plugin.output.max_inline_length = 1500;
    let config = PluginConfig { plugins: vec![plugin] };
    config.validate().unwrap();

    let plugin = &config.plugins[0];
    assert_eq!(plugin.name, "transcribe");
    assert_eq!(plugin.execution.timeout_seconds, 600);
    assert_eq!(plugin.security.cooldown_seconds, 60);
    assert!(plugin.output.create_thread);
}

#[test]
fn test_validate_invalid_command_name() {
    let config = PluginConfig { plugins: vec![schema_plugin("test", "TestCommand", Vec::new(), "echo", &[])] };
    assert!(config.validate().is_err());
}

#[test]
fn test_virtual_plugin_allowed() {
    let config = PluginConfig { plugins: vec![schema_plugin("test_cancel", "test_cancel", Vec::new(), "", &[])] };
    assert!(config.validate().is_ok());
    assert!(config.plugins[0].is_virtual());
}

#[test]
fn test_validate_invalid_regex() {
    let config = PluginConfig {
        plugins: vec![schema_plugin("test", "test", vec![option("input", Some("[invalid"))], "echo", &[])],
    };
    assert!(config.validate().is_err());
}

#[test]
fn test_validate_error_texts() {
    let upper = PluginConfig { plugins: vec![schema_plugin("test", "TestCommand", Vec::new(), "echo", &[])] };
    assert_eq!(upper.validate().unwrap_err().message(), "Command name must be lowercase: TestCommand");

    let long_name = "a".repeat(33);
    let long = PluginConfig { plugins: vec![schema_plugin("p", &long_name, Vec::new(), "echo", &[])] };
    assert_eq!(
        long.validate().unwrap_err().message(),
        format!("Command name too long (max 32 chars): {}", long_name)
    );

    let mut wordy = schema_plugin("wordy", "wordy", Vec::new(), "echo", &[]);
    wordy.command.description = "d".repeat(101);
    let wordy = PluginConfig { plugins: vec![wordy] };
    assert_eq!(wordy.validate().unwrap_err().message(), "Command description too long (max 100 chars): wordy");

    let bad_option = PluginConfig {
        plugins: vec![schema_plugin("p", "p", vec![option("Input", None)], "echo", &[])],
    };
    assert_eq!(bad_option.validate().unwrap_err().message(), "Option name must be lowercase: Input in plugin p");

    let bad_regex = PluginConfig {
        plugins: vec![schema_plugin("p", "p", vec![option("input", Some("[invalid"))], "echo", &[])],
    };
    match bad_regex.validate().unwrap_err() {
        ConfigError::InvalidRegex { option, plugin, error } => {
            assert_eq!(option, "input");
            assert_eq!(plugin, "p");
            assert!(!error.is_empty());
        }
        other => panic!("unexpected error {:?}", other),
    }
    assert!(bad_regex
        .validate()
        .unwrap_err()
        .message()
        .starts_with("Invalid regex pattern for option 'input' in plugin 'p': "));
}

#[test]
fn test_validate_checks_every_plugin_in_order() {
    let good = schema_plugin("a", "a", Vec::new(), "echo", &[]);
    let bad = schema_plugin("b", "Bad", Vec::new(), "echo", &[]);
    let config = PluginConfig { plugins: vec![good.clone(), bad, good] };
    assert_eq!(config.validate().unwrap_err().message(), "Command name must be lowercase: Bad");
    assert!(PluginConfig::empty().validate().is_ok());
}

#[test]
fn test_raw_plugin_shell_defaults() {
    let mut r = raw("test", "A test plugin", Some(PluginType::Shell));
    r.command = raw_command(None, "Run a test");
    r.execution = Some(RawExecutionConfig { script: Some(s("echo hello")), ..raw_execution() });
    let plugin = r.resolve();

    assert_eq!(plugin.name, "test");
    assert_eq!(plugin.command.name, "test");
    assert_eq!(plugin.execution.command, "sh");
    assert_eq!(plugin.execution.args, vec!["-c", "echo hello"]);
    assert_eq!(plugin.execution.timeout_seconds, 30);
    assert_eq!(plugin.execution.max_output_bytes, 4096);
    assert!(!plugin.output.create_thread);
    assert_eq!(plugin.output.max_inline_length, 2000);
}

#[test]
fn test_raw_plugin_virtual_defaults() {
    let mut r = raw("cancel_thing", "Cancel an operation", Some(PluginType::Virtual));
    r.command = raw_command(None, "Cancel it");
    let plugin = r.resolve();

    assert!(plugin.is_virtual());
    assert_eq!(plugin.execution.timeout_seconds, 5);
    assert_eq!(plugin.execution.max_output_bytes, 0);
    assert!(!plugin.output.create_thread);
}

#[test]
fn test_raw_plugin_docker_defaults() {
    let mut r = raw("transcribe", "Transcribe videos", Some(PluginType::Docker));
    r.command = raw_command(None, "Transcribe a video");
    r.execution = Some(RawExecutionConfig { args: Some(strings(&["run", "--rm", "my-image"])), ..raw_execution() });
    let plugin = r.resolve();

    assert_eq!(plugin.execution.command, "docker");
    assert_eq!(plugin.execution.timeout_seconds, 600);
    assert_eq!(plugin.execution.max_output_bytes, 10_485_760);
    assert!(plugin.output.create_thread);
    assert_eq!(plugin.output.max_inline_length, 1500);
}

#[test]
fn test_raw_plugin_explicit_overrides() {
    let mut r = raw("custom", "Custom plugin", Some(PluginType::Shell));
    r.command = raw_command(Some("my_custom_cmd"), "A custom command");
    r.execution = Some(RawExecutionConfig {
        command: Some(s("python3")),
        args: Some(strings(&["-c", "print('hi')"])),
        timeout_seconds: Some(120),
        max_output_bytes: Some(8192),
        ..raw_execution()
    });
    r.output = Some(RawOutputConfig { create_thread: Some(true), max_inline_length: Some(500), ..raw_output() });
    let plugin = r.resolve();

    assert_eq!(plugin.command.name, "my_custom_cmd");
    assert_eq!(plugin.execution.command, "python3");
    assert_eq!(plugin.execution.timeout_seconds, 120);
    assert_eq!(plugin.execution.max_output_bytes, 8192);
    assert!(plugin.output.create_thread);
    assert_eq!(plugin.output.max_inline_length, 500);
}

#[test]
fn test_raw_plugin_script_sugar() {
    let mut r = raw("greet", "Say hello", Some(PluginType::Shell));
    r.command = raw_command(None, "Greet the user");
    r.execution = Some(RawExecutionConfig { script: Some(s("echo \"Hello, world!\"")), ..raw_execution() });
    let plugin = r.resolve();

    assert_eq!(plugin.execution.command, "sh");
    assert_eq!(plugin.execution.args.len(), 2);
    assert_eq!(plugin.execution.args[0], "-c");
    assert!(plugin.execution.args[1].contains("Hello, world!"));
}

#[test]
fn test_raw_plugin_command_name_inference() {
    let mut r = raw("my_plugin", "My plugin", Some(PluginType::Shell));
    r.command = raw_command(None, "Does things");
    let plugin = r.resolve();

    assert_eq!(plugin.command.name, "my_plugin");
}

#[test]
fn test_raw_plugin_api_defaults() {
    let mut r = raw("beta", "Second plugin", Some(PluginType::Api));
    r.command = raw_command(None, "Beta command");
    r.execution = Some(RawExecutionConfig { script: Some(s("echo beta")), ..raw_execution() });
    let plugin = r.resolve();
    assert_eq!(plugin.execution.timeout_seconds, 15);
    assert_eq!(plugin.execution.max_output_bytes, 4096);
}

#[test]
fn test_raw_plugin_without_type_or_sections() {
    let plugin = raw("bare", "Bare plugin", None).resolve();
    assert_eq!(plugin.command.name, "bare");
    assert_eq!(plugin.command.description, "Bare plugin");
    assert!(plugin.is_virtual());
    assert_eq!(plugin.execution.timeout_seconds, 300);
    assert_eq!(plugin.execution.max_output_bytes, 10_485_760);
    assert!(!plugin.output.create_thread);
    assert_eq!(plugin.output.max_inline_length, 1500);
    assert_eq!(plugin.output.auto_archive_minutes, 60);

    let mut with_output = raw("bare", "Bare plugin", None);
    with_output.output = Some(raw_output());
    let plugin = with_output.resolve();
    assert_eq!(plugin.output.max_inline_length, 1500);
    assert_eq!(plugin.output.auto_archive_minutes, 60);
}

#[test]
fn test_backward_compatible_full_schema() {
    let mut r = raw("legacy", "Legacy plugin", None);
    let mut input = option("input", None);
    input.description = s("Input value");
    input.option_type = s("string");
    input.required = true;
    r.command = Some(RawCommandDefinition { name: Some(s("legacy")), description: s("Legacy command"), options: vec![input] });
    r.execution = Some(RawExecutionConfig {
        command: Some(s("echo")),
        args: Some(strings(&["hello"])),
        timeout_seconds: Some(60),
        max_output_bytes: Some(8192),
        ..raw_execution()
    });
    r.security = Some(SecurityConfig { cooldown_seconds: 10, guild_only: true, ..SecurityConfig::default() });
    r.output = Some(RawOutputConfig { create_thread: Some(false), max_inline_length: Some(2000), ..raw_output() });
    let plugin = r.resolve();

    assert_eq!(plugin.name, "legacy");
    assert_eq!(plugin.command.name, "legacy");
    assert_eq!(plugin.execution.command, "echo");
    assert_eq!(plugin.execution.timeout_seconds, 60);
    assert_eq!(plugin.execution.max_output_bytes, 8192);
    assert_eq!(plugin.security.cooldown_seconds, 10);
    assert!(plugin.security.guild_only);
    assert!(!plugin.output.create_thread);
    assert_eq!(plugin.output.max_inline_length, 2000);
}

#[test]
fn test_chunking_defaults() {
    let c = ChunkingConfig::default();
    assert!(c.enabled);
    assert_eq!(c.chunk_duration_secs, 600);
    assert_eq!(c.cumulative_summary_interval, 1);
}
