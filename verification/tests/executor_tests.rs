use persona_bot::plugins::executor::{limit_output, PluginExecutor};
use std::collections::HashMap;

fn create_test_executor() -> PluginExecutor {
    PluginExecutor::new(vec!["echo".to_string(), "cat".to_string()])
}

#[test]
fn test_command_allowlist() {
    let executor = create_test_executor();
    assert!(executor.is_allowed("echo"));
    assert!(executor.is_allowed("cat"));
    assert!(!executor.is_allowed("rm"));
}

#[test]
fn test_substitute_params() {
    let executor = create_test_executor();
    let args = vec!["--url".to_string(), "${url}".to_string()];
    let mut params = HashMap::new();
    params.insert("url".to_string(), "https://example.com".to_string());
    let result = executor.substitute_params(&args, &params).unwrap();
    assert_eq!(result, vec!["--url", "https://example.com"]);
}

#[test]
fn test_substitute_params_missing() {
    let executor = create_test_executor();
    let args = vec!["${missing}".to_string()];
    let params = HashMap::new();
    let result = executor.substitute_params(&args, &params);
    assert!(result.is_err());
}

#[test]
fn test_validate_argument_safe() {
    let executor = create_test_executor();
    assert!(executor.validate_argument("safe-argument").is_ok());
    assert!(executor.validate_argument("https://example.com/path?q=1").is_ok());
    assert!(executor.validate_argument("file.txt").is_ok());
}

#[test]
fn test_validate_argument_url_with_ampersand() {
    let executor = create_test_executor();
    assert!(executor
        .validate_argument("https://www.youtube.com/watch?v=abc123&list=PLxyz")
        .is_ok());
    assert!(executor.validate_argument("https://example.com/path?a=1&b=2&c=3").is_ok());
    assert!(executor.validate_argument("http://example.com/?foo=bar&baz=qux").is_ok());
    assert!(executor.validate_argument("foo & bar").is_err());
    assert!(executor.validate_argument("command && other").is_err());
}

#[test]
fn test_validate_argument_dangerous() {
    let executor = create_test_executor();
    assert!(executor.validate_argument("arg; rm -rf /").is_err());
    assert!(executor.validate_argument("arg | cat").is_err());
    assert!(executor.validate_argument("$(whoami)").is_err());
    assert!(executor.validate_argument("arg`id`").is_err());
    assert!(executor.validate_argument("arg\ninjected").is_err());
}

#[test]
fn test_substitute_params_rejects_dangerous_user_input() {
    let executor = create_test_executor();
    let args = vec!["${url}".to_string()];
    let mut params = HashMap::new();
    params.insert("url".to_string(), "https://evil.com; rm -rf /".to_string());
    let result = executor.substitute_params(&args, &params);
    assert!(result.is_err());
    assert!(result.unwrap_err().to_string().contains("Invalid parameter"));
}

#[test]
fn test_substitute_params_allows_shell_script_in_config() {
    let executor = create_test_executor();
    let args = vec!["-c".to_string(), "TMPDIR=$(mktemp -d) && echo $TMPDIR".to_string()];
    let params = HashMap::new();
    let result = executor.substitute_params(&args, &params).unwrap();
    assert_eq!(result[1], "TMPDIR=$(mktemp -d) && echo $TMPDIR");
}

#[test]
fn validate_argument_error_messages() {
    let executor = create_test_executor();
    assert_eq!(
        executor.validate_argument("a|b").unwrap_err(),
        "Argument contains forbidden character '|': a|b"
    );
    assert_eq!(
        executor.validate_argument("x\ny").unwrap_err(),
        "Argument contains forbidden character newline: x\ny"
    );
}

#[test]
fn unsubstituted_placeholder_message() {
    let executor = create_test_executor();
    let args = vec!["--lang=${language}".to_string()];
    let err = executor.substitute_params(&args, &HashMap::new()).unwrap_err();
    assert_eq!(err, "Unsubstituted placeholder ${language}: parameter not provided");
}

#[test]
fn limit_output_truncates() {
    assert_eq!(limit_output("hello", 10), "hello");
    assert_eq!(limit_output("hello world", 5), "hello...\n\n[Output truncated at 5 bytes]");
}
