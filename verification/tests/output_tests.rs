use persona_bot::plugins::output::{
    count_words, create_progress_bar, escape_markdown, format_transcript_sentences, sanitize_filename,
    split_message, truncate_str, OutputFormat,
};
use persona_bot::format::format_word_count;

#[test]
fn test_split_message_short() {
    let chunks = split_message("hello world", 100);
    assert_eq!(chunks.len(), 1);
    assert_eq!(chunks[0], "hello world");
}

#[test]
fn test_split_message_long() {
    let content = "line 1\nline 2\nline 3\nline 4\nline 5";
    let chunks = split_message(content, 15);
    assert!(chunks.len() > 1);
    let rejoined: String = chunks.join("\n");
    assert!(rejoined.contains("line 1"));
    assert!(rejoined.contains("line 5"));
}

#[test]
fn test_split_message_very_long_line() {
    let content = "a".repeat(100);
    let chunks = split_message(&content, 30);
    assert!(chunks.len() > 1);
    let total_len: usize = chunks.iter().map(|c| c.len()).sum();
    assert_eq!(total_len, 100);
}

#[test]
fn test_format_transcript_sentences() {
    let input = "Hello world. This is a test. Another sentence!";
    let result = format_transcript_sentences(input);
    assert_eq!(result, "Hello world.\nThis is a test.\nAnother sentence!");
}

#[test]
fn test_format_transcript_sentences_with_questions() {
    let input = "What is this? It's a test. Really? Yes!";
    let result = format_transcript_sentences(input);
    assert_eq!(result, "What is this?\nIt's a test.\nReally?\nYes!");
}

#[test]
fn test_format_transcript_sentences_preserves_incomplete() {
    let input = "This is complete. But this is not";
    let result = format_transcript_sentences(input);
    assert_eq!(result, "This is complete.\nBut this is not");
}

#[test]
fn test_count_words() {
    assert_eq!(count_words("hello world"), 2);
    assert_eq!(count_words("one two three four five"), 5);
    assert_eq!(count_words(""), 0);
    assert_eq!(count_words("   spaced   out   "), 2);
}

#[test]
fn test_format_word_count() {
    assert_eq!(format_word_count(500), "~500");
    assert_eq!(format_word_count(1000), "~1,000");
    assert_eq!(format_word_count(12345), "~12,345");
}

#[test]
fn test_output_format_from_str() {
    assert_eq!(OutputFormat::from_str("text"), OutputFormat::Text);
    assert_eq!(OutputFormat::from_str("TEXT"), OutputFormat::Text);
    assert_eq!(OutputFormat::from_str("files"), OutputFormat::Files);
    assert_eq!(OutputFormat::from_str("FILES"), OutputFormat::Files);
    assert_eq!(OutputFormat::from_str("auto"), OutputFormat::Auto);
    assert_eq!(OutputFormat::from_str("anything"), OutputFormat::Auto);
}

#[test]
fn test_output_format_should_use_file() {
    assert!(!OutputFormat::Text.should_use_file(5000));
    assert!(OutputFormat::Files.should_use_file(100));
    assert!(!OutputFormat::Auto.should_use_file(1000));
    assert!(OutputFormat::Auto.should_use_file(3000));
}

#[test]
fn test_escape_markdown() {
    assert_eq!(escape_markdown("Hello World"), "Hello World");
    assert_eq!(
        escape_markdown("[Tutorial] Learn Rust (Part 1)"),
        "\\[Tutorial\\] Learn Rust \\(Part 1\\)"
    );
    assert_eq!(
        escape_markdown("Test *emphasis* and _underline_"),
        "Test \\*emphasis\\* and \\_underline\\_"
    );
    assert_eq!(escape_markdown("*_`[]()~>#"), "\\*\\_\\`\\[\\]\\(\\)\\~\\>\\#");
    assert_eq!(escape_markdown(""), "");
}

#[test]
fn split_message_hard_splits_into_exact_pieces() {
    let chunks = split_message(&"b".repeat(65), 30);
    assert_eq!(chunks, vec!["b".repeat(30), "b".repeat(30), "b".repeat(5)]);
}

#[test]
fn split_message_packs_lines_up_to_limit() {
    let chunks = split_message("aaaa\nbbbb\ncccc", 10);
    assert_eq!(chunks, vec!["aaaa\nbbbb", "cccc"]);
}

#[test]
fn split_message_chunks_fit_limit() {
    let text = "alpha beta\ngamma\n\ndelta epsilon zeta eta\ntheta";
    for chunk in split_message(text, 12) {
        assert!(chunk.len() <= 12);
    }
}

#[test]
fn truncate_str_keeps_short_and_cuts_long() {
    assert_eq!(truncate_str("short", 10), "short");
    assert_eq!(truncate_str("abcdefghijkl", 8), "abcde...");
    assert_eq!(truncate_str("abcdef", 2), "...");
}

#[test]
fn progress_bar_values() {
    assert_eq!(
        create_progress_bar(5, 10),
        format!("[{}{}] 50%", "█".repeat(10), "░".repeat(10))
    );
    assert_eq!(create_progress_bar(0, 0), format!("[{}] 0%", "░".repeat(20)));
}

#[test]
fn sanitize_filename_values() {
    assert_eq!(sanitize_filename("  My Video: Part #2!  "), "my_video_part_2");
}

#[test]
fn transcript_newlines_end_lines() {
    assert_eq!(format_transcript_sentences("one\ntwo\n\nthree"), "one\ntwo\n\nthree");
}

#[test]
fn split_message_chunks_all_fit() {
    let content = format!("{}\nshort\n{}\nend line here", "x".repeat(47), "é".repeat(20));
    for max in [10usize, 16, 20, 40] {
        for chunk in split_message(&content, max) {
            assert!(chunk.len() <= max, "chunk {:?} is over {} bytes", chunk, max);
        }
    }
}

#[test]
fn truncated_text_fits_its_limit() {
    let s = "The quick brown fox jumps over the lazy dog";
    for max in 3..60 {
        assert!(truncate_str(s, max).len() <= max);
    }
    assert_eq!(truncate_str(s, 3), "...");
}

#[test]
fn transcript_keeps_paragraph_breaks() {
    assert_eq!(
        format_transcript_sentences("First paragraph.\n\nSecond paragraph."),
        "First paragraph.\n\nSecond paragraph."
    );
    assert_eq!(format_transcript_sentences("A.\nB."), "A.\nB.");
    assert_eq!(format_transcript_sentences("A.\n  \n\n\nB. C"), "A.\n\nB.\nC");
    assert_eq!(format_transcript_sentences("\n\nStart."), "Start.");
}

#[test]
fn split_message_keeps_every_character_but_newlines() {
    let content = format!("{}\nshort\n\n{}\nend line here", "x".repeat(47), "é".repeat(20));
    for max in [10usize, 16, 20, 40] {
        let chunks = split_message(&content, max);
        assert!(chunks.iter().all(|c| !c.is_empty()));
        let kept: String = chunks.concat().chars().filter(|c| *c != '\n').collect();
        let expected: String = content.chars().filter(|c| *c != '\n').collect();
        assert_eq!(kept, expected);
    }
}
