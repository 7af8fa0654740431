use persona_bot::startup::{
    build_notification_text, commit_count, git_log_args, format_commit_for_thread, format_commits_for_dm,
    multi_column_fields, parse_detailed_commits, parse_github_url, recent_changes, startup_targets,
    update_note_text, CommitInfo, StartupNotifier,
};

#[test]
fn test_recent_commits_parsing() {
    let recent: &str = "";
    assert!(recent_changes(recent, true).is_empty());
}

#[test]
fn test_commit_line_parsing() {
    let line = "abc1234|feat: add new feature";
    let parts: Vec<&str> = line.splitn(2, '|').collect();
    assert_eq!(parts.len(), 2);
    assert_eq!(parts[0], "abc1234");
    assert_eq!(parts[1], "feat: add new feature");
    assert_eq!(recent_changes(line, true), "- feat: add new feature (`abc1234`)");
}

#[test]
fn test_parse_detailed_commits_basic() {
    let output = "COMMIT_START\nabc1234\nfeat: add new feature\n\nFILES_START\nsrc/main.rs\nsrc/lib.rs\n";
    let commits = parse_detailed_commits(output);

    assert_eq!(commits.len(), 1);
    assert_eq!(commits[0].hash, "abc1234");
    assert_eq!(commits[0].subject, "feat: add new feature");
    assert!(commits[0].body.is_empty());
    assert_eq!(commits[0].files.len(), 2);
    assert_eq!(commits[0].files[0], "src/main.rs");
    assert_eq!(commits[0].files[1], "src/lib.rs");
}

#[test]
fn test_parse_detailed_commits_with_body() {
    let output = "COMMIT_START\ndef5678\nfix: resolve bug\nThis commit fixes a bug\nin the authentication flow.\nFILES_START\nsrc/auth.rs\n";
    let commits = parse_detailed_commits(output);

    assert_eq!(commits.len(), 1);
    assert_eq!(commits[0].hash, "def5678");
    assert_eq!(commits[0].subject, "fix: resolve bug");
    assert!(commits[0].body.contains("authentication flow"));
    assert_eq!(commits[0].files.len(), 1);
}

#[test]
fn test_parse_detailed_commits_multiple() {
    let output = "COMMIT_START\nabc1234\nfeat: first\n\nFILES_START\na.rs\nCOMMIT_START\ndef5678\nfix: second\n\nFILES_START\nb.rs\n";
    let commits = parse_detailed_commits(output);

    assert_eq!(commits.len(), 2);
    assert_eq!(commits[0].hash, "abc1234");
    assert_eq!(commits[0].subject, "feat: first");
    assert_eq!(commits[1].hash, "def5678");
    assert_eq!(commits[1].subject, "fix: second");
}

#[test]
fn test_parse_detailed_commits_empty() {
    let commits = parse_detailed_commits("");
    assert!(commits.is_empty());
}

#[test]
fn parse_commits_body_joined_and_short_blocks_skipped() {
    let output = "junk\nCOMMIT_START\nonlyhash\nCOMMIT_START\n  h1  \n s \n b1 \n\n b2\nFILES_START\n\nf1\n";
    let commits = parse_detailed_commits(output);
    assert_eq!(commits.len(), 1);
    assert_eq!(commits[0].hash, "h1");
    assert_eq!(commits[0].subject, "s");
    assert_eq!(commits[0].body, "b1\nb2");
    assert_eq!(commits[0].files, vec!["f1".to_string()]);
}

fn sample(body: &str, files: Vec<&str>) -> CommitInfo {
    CommitInfo {
        hash: "abc1234".to_string(),
        subject: "feat: add new feature".to_string(),
        body: body.to_string(),
        files: files.into_iter().map(|f| f.to_string()).collect(),
    }
}

#[test]
fn test_format_commit_for_thread() {
    let commit = sample("This is the body", vec!["src/main.rs", "src/lib.rs"]);
    let formatted = format_commit_for_thread(&commit, None);
    assert!(formatted.contains("feat: add new feature"));
    assert!(formatted.contains("abc1234"));
    assert!(formatted.contains("This is the body"));
    assert!(formatted.contains("src/main.rs"));
    assert!(formatted.contains("src/lib.rs"));
    assert_eq!(
        formatted,
        "**feat: add new feature** (`abc1234`)\n\nThis is the body\n\n**Files changed:**\n```\nsrc/main.rs\nsrc/lib.rs\n```"
    );
}

#[test]
fn test_format_commit_for_thread_with_link() {
    let commit = sample("", vec![]);
    let formatted = format_commit_for_thread(&commit, Some("https://github.com/user/repo"));
    assert!(formatted.contains("feat: add new feature"));
    assert!(formatted.contains("[`abc1234`](https://github.com/user/repo/commit/abc1234)"));
}

#[test]
fn format_commit_for_thread_is_capped() {
    let commit = sample(&"x".repeat(3000), vec![]);
    let formatted = format_commit_for_thread(&commit, None);
    assert!(formatted.ends_with("\n... (truncated)"));
    assert_eq!(formatted.len(), 1900 + "\n... (truncated)".len());
}

#[test]
fn test_format_commits_for_dm() {
    let commits = vec![sample("", vec!["src/main.rs"])];
    let formatted = format_commits_for_dm(&commits, None);
    assert!(formatted.contains("Recent Changes"));
    assert!(formatted.contains("feat: add new feature"));
    assert!(formatted.contains("abc1234"));
    assert!(formatted.contains("src/main.rs"));
}

#[test]
fn test_format_commits_for_dm_with_link() {
    let commits = vec![sample("", vec![])];
    let formatted = format_commits_for_dm(&commits, Some("https://github.com/user/repo"));
    assert!(formatted.contains("[`abc1234`](https://github.com/user/repo/commit/abc1234)"));
}

#[test]
fn format_commits_for_dm_limits_files_and_body() {
    let commits = vec![sample(&"b".repeat(250), vec!["1", "2", "3", "4", "5", "6", "7"])];
    let formatted = format_commits_for_dm(&commits, None);
    let expected = format!(
        "**Recent Changes (Detailed):**\n\n**feat: add new feature** (`abc1234`)\n{}...\nFiles changed:\n  `1`\n  `2`\n  `3`\n  `4`\n  `5`\n  ... and 2 more\n",
        "b".repeat(200)
    );
    assert_eq!(formatted, expected);
}

#[test]
fn test_parse_github_url_ssh() {
    let url = "git@github.com:user/repo.git";
    let result = parse_github_url(url);
    assert_eq!(result, Some("https://github.com/user/repo".to_string()));
}

#[test]
fn test_parse_github_url_https() {
    let url = "https://github.com/user/repo.git";
    let result = parse_github_url(url);
    assert_eq!(result, Some("https://github.com/user/repo".to_string()));
}

#[test]
fn test_parse_github_url_https_no_git_suffix() {
    let url = "https://github.com/user/repo";
    let result = parse_github_url(url);
    assert_eq!(result, Some("https://github.com/user/repo".to_string()));
}

#[test]
fn test_parse_github_url_invalid() {
    let url = "https://gitlab.com/user/repo.git";
    let result = parse_github_url(url);
    assert_eq!(result, None);
}

#[test]
fn multi_column_layout() {
    let items: Vec<String> = (1..=7).map(|i| format!("p{i}")).collect();
    let fields = multi_column_fields("Plugins", &items, 3);
    assert_eq!(fields.len(), 3);
    assert_eq!(fields[0], ("Plugins".to_string(), "p1\np2\np3".to_string()));
    assert_eq!(fields[1].0, "\u{200B}");
    assert_eq!(fields[2].1, "p7");
    let few: Vec<String> = vec!["a".to_string(), "b".to_string()];
    assert_eq!(multi_column_fields("T", &few, 3), vec![("T".to_string(), "a\nb".to_string())]);
    assert!(multi_column_fields("T", &Vec::new(), 3).is_empty());
}

#[test]
fn notification_text_and_settings() {
    let text = build_notification_text(
        "Bot",
        "1.2.3",
        2,
        Some("  Big update  "),
        &Vec::new(),
        "abc|first\ndef|second",
    );
    assert_eq!(
        text,
        "\u{1F7E2} **Bot is Online!**\n\nVersion: v1.2.3\nConnected to 2 guild(s)\n\n**Update Notes:**\nBig update\n\n**Recent Changes:**\n- first (abc)\n- second (def)"
    );
    assert_eq!(update_note_text("   ", 500), None);
    assert_eq!(update_note_text(&"u".repeat(600), 500), Some(format!("{}...", "u".repeat(500))));
    assert_eq!(startup_targets(Some("enabled"), Some("42"), None), Some((Some(42), None)));
    assert_eq!(startup_targets(Some("disabled"), Some("42"), None), None);
    assert_eq!(startup_targets(Some("enabled"), Some("x"), None), None);
    assert_eq!(commit_count(Some("3")), 3);
    assert_eq!(commit_count(Some("many")), 5);
    assert_eq!(commit_count(None), 5);
    let mut n = StartupNotifier::new();
    assert!(n.take_first_ready());
    assert!(!n.take_first_ready());
}

#[test]
fn git_log_asks_for_one_to_twenty_commits() {
    assert_eq!(
        git_log_args(5),
        vec!["log", "-5", "--format=COMMIT_START%n%h%n%s%n%b%nFILES_START", "--name-only"]
    );
    assert_eq!(git_log_args(0)[1], "-1");
    assert_eq!(git_log_args(99)[1], "-20");
}
