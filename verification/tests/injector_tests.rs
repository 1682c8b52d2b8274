//! Tests of the injector's policy thresholds and the suggestion formats.

use ctxopt_core::{BuildTool, ContentType, ContextInjector, Suggestion, SuggestionType};

#[test]
fn test_should_inject_build_errors_threshold() {
    let injector = ContextInjector::new();

    // Fewer than three errors: no injection.
    let few_errors = ContentType::BuildError { error_count: 2, tool: BuildTool::TypeScript };
    assert!(
        !injector.should_inject(&few_errors),
        "Should not inject for < 3 errors"
    );

    // Three or more errors: injection.
    let many_errors = ContentType::BuildError { error_count: 10, tool: BuildTool::TypeScript };
    assert!(
        injector.should_inject(&many_errors),
        "Should inject for >= 3 errors"
    );
}

#[test]
fn injector_tests_test_should_inject_large_output() {
    let injector = ContextInjector::new();

    let small = ContentType::LargeOutput { size: 1000 };
    assert!(
        !injector.should_inject(&small),
        "Should not inject for small output"
    );

    let large = ContentType::LargeOutput { size: 10000 };
    assert!(
        injector.should_inject(&large),
        "Should inject for large output"
    );
}

#[test]
fn injector_tests_test_throttling() {
    let mut injector = ContextInjector::with_interval(50);

    let content = ContentType::BuildError { error_count: 10, tool: BuildTool::Rust };

    let first = injector.generate_suggestion(&content);
    assert!(first.is_some(), "First injection should succeed");

    let second = injector.generate_suggestion(&content);
    assert!(second.is_none(), "Second immediate injection should be blocked");
}

#[test]
fn test_suggestion_build_errors_format() {
    let suggestion = Suggestion::build_errors(42, BuildTool::TypeScript);

    assert_eq!(suggestion.suggestion_type, SuggestionType::BuildErrors);
    assert!(
        suggestion.display_message.contains("42"),
        "Should contain error count"
    );
}

#[test]
fn test_suggestion_large_output_format() {
    let suggestion = Suggestion::large_output(50000);

    assert_eq!(suggestion.suggestion_type, SuggestionType::LargeOutput);
    assert!(
        suggestion.display_message.contains("auto_optimize")
            || suggestion.display_message.contains("large"),
        "Should mention optimization"
    );
}

#[test]
fn test_suggestion_file_read_format() {
    let suggestion = Suggestion::file_read("src/main.ts");

    assert_eq!(suggestion.suggestion_type, SuggestionType::FileRead);
    assert!(
        suggestion.display_message.contains("smart_file_read")
            || suggestion.display_message.contains("main.ts"),
        "Should mention file or tool"
    );
}

#[test]
fn test_suggestion_prompt_reminder_format() {
    let suggestion = Suggestion::prompt_reminder();

    assert_eq!(suggestion.suggestion_type, SuggestionType::PromptReminder);
}

#[test]
fn injector_tests_test_format_for_display() {
    let suggestion = Suggestion::build_errors(10, BuildTool::Rust);
    let formatted = suggestion.format_for_display();

    assert!(formatted.starts_with('\n'), "Should start with newline");
    assert!(formatted.ends_with('\n'), "Should end with newline");
}

#[test]
fn test_build_tool_display() {
    assert_eq!(BuildTool::TypeScript.as_str(), "tsc");
    assert_eq!(BuildTool::Rust.as_str(), "cargo");
    assert_eq!(BuildTool::ESLint.as_str(), "eslint");
    assert_eq!(BuildTool::Python.as_str(), "python");
    assert_eq!(BuildTool::Go.as_str(), "go");
}

#[test]
fn test_file_read_non_code_never_emits() {
    let mut injector = ContextInjector::with_interval_at(10, 0);
    let doc = ContentType::FileRead { file_path: "README.md".to_string() };
    assert!(injector.generate_suggestion_at(100_000, &doc).is_none());
    assert_eq!(injector.total_suggestions(), 0);
}

#[test]
fn test_is_code_file_case_insensitive_suffix() {
    assert!(ContextInjector::is_code_file("MAIN.RS"));
    assert!(ContextInjector::is_code_file("Window.Swift"));
    assert!(!ContextInjector::is_code_file("notes.TXT"));
    assert!(!ContextInjector::is_code_file("rs"));
}
