//! Tests of the suggestion templates.

use ctxopt_core::{BuildTool, Suggestion, SuggestionType};

#[test]
fn test_build_errors_suggestion() {
    let suggestion = Suggestion::build_errors(42, BuildTool::TypeScript);
    assert_eq!(suggestion.suggestion_type, SuggestionType::BuildErrors);
    assert!(suggestion.display_message.contains("42"));
    assert!(suggestion.display_message.contains("tsc"));
}

#[test]
fn test_large_output_suggestion() {
    let suggestion = Suggestion::large_output(10240);
    assert_eq!(suggestion.suggestion_type, SuggestionType::LargeOutput);
    assert!(suggestion.display_message.contains("10KB"));
}

#[test]
fn test_prompt_reminder_suggestion() {
    let suggestion = Suggestion::prompt_reminder();
    assert_eq!(suggestion.suggestion_type, SuggestionType::PromptReminder);
    assert!(suggestion.display_message.contains("smart_file_read"));
}

#[test]
fn test_file_read_suggestion() {
    let suggestion = Suggestion::file_read("src/main.ts");
    assert_eq!(suggestion.suggestion_type, SuggestionType::FileRead);
    assert!(suggestion.display_message.contains("src/main.ts"));
}

#[test]
fn templates_test_format_for_display() {
    let suggestion = Suggestion::prompt_reminder();
    let formatted = suggestion.format_for_display();
    assert!(formatted.starts_with('\n'));
    assert!(formatted.ends_with('\n'));
}

#[test]
fn test_build_errors_message_exact() {
    let suggestion = Suggestion::build_errors(3, BuildTool::Rust);
    assert_eq!(
        suggestion.display_message,
        "\x1b[33m[ctxopt]\x1b[0m 3 cargo errors detected. \
         Use \x1b[36mmcp__ctxopt__auto_optimize\x1b[0m to compress (95%+ savings)."
    );
}

#[test]
fn test_large_output_message_exact() {
    let suggestion = Suggestion::large_output(50000);
    assert_eq!(
        suggestion.display_message,
        "\x1b[33m[ctxopt]\x1b[0m large output (~48KB). \
         Use \x1b[36mmcp__ctxopt__compress_context\x1b[0m for 40-60% savings."
    );
}
