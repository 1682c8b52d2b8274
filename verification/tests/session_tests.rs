//! End-to-end scenarios over the analyzer, the injector and the session
//! pipeline, plus the utility functions and the PTY data types.

use ctxopt_core::session::process_output;
use ctxopt_core::{
    estimate_tokens, is_code_file, strip_ansi, BuildTool, ContentType, ContextInjector, PtyError,
    PtySize, StreamAnalyzer,
};

#[test]
fn test_typescript_error_run() {
    let mut analyzer = StreamAnalyzer::new();
    let chunk = "src/index.ts:10:5 - error TS2304: Cannot find name 'foo'.\n\
                 src/index.ts:15:10 - error TS2339: X.\n\
                 src/index.ts:20:1 - error TS2322: Y.\n";
    let result = analyzer.analyze(chunk);

    assert!(result.content_types.iter().any(|ct| matches!(
        ct,
        ContentType::BuildError { error_count: 3, tool: BuildTool::TypeScript }
    )));
    assert_eq!(analyzer.total_errors(), 3);
}

#[test]
fn test_rust_diagnostic_block() {
    let mut analyzer = StreamAnalyzer::new();
    let chunk = "error[E0425]: cannot happen here\nerror[E0308]: neither here\n";
    let result = analyzer.analyze(chunk);

    assert!(result.content_types.iter().any(|ct| matches!(
        ct,
        ContentType::BuildError { error_count: 2, tool: BuildTool::Rust }
    )));
}

#[test]
fn test_large_output_scenario() {
    let mut analyzer = StreamAnalyzer::new();
    let result = analyzer.analyze(&"x".repeat(10_000));
    assert!(result
        .content_types
        .iter()
        .any(|ct| matches!(ct, ContentType::LargeOutput { size: 10_000 })));

    let mut injector = ContextInjector::with_interval_at(10, 0);
    let large = ContentType::LargeOutput { size: 10_000 };
    let first = injector.generate_suggestion_at(1_000, &large);
    assert!(first.is_some(), "One large-output suggestion should be emitted");
    // An immediate identical call is blocked by the throttle, and even after
    // the interval the recent-kind window blocks a repetition.
    assert!(injector.generate_suggestion_at(1_005, &large).is_none());
    assert!(injector.generate_suggestion_at(1_100, &large).is_none());
}

#[test]
fn test_file_read_scenario() {
    let mut analyzer = StreamAnalyzer::new();
    let result = analyzer.analyze("Reading file: src/main.ts");
    assert!(result.content_types.iter().any(
        |ct| matches!(ct, ContentType::FileRead { file_path } if file_path == "src/main.ts")
    ));

    let mut injector = ContextInjector::with_interval_at(10, 0);
    let read = ContentType::FileRead { file_path: "src/main.ts".to_string() };
    let emitted = injector.generate_suggestion_at(100_000, &read);
    assert!(emitted.is_some());
    assert!(emitted.unwrap().display_message.contains("src/main.ts"));

    let mut analyzer2 = StreamAnalyzer::new();
    let result2 = analyzer2.analyze("Reading file: README.md");
    assert!(result2.content_types.iter().any(
        |ct| matches!(ct, ContentType::FileRead { file_path } if file_path == "README.md")
    ));
    let mut injector2 = ContextInjector::with_interval_at(10, 0);
    let doc = ContentType::FileRead { file_path: "README.md".to_string() };
    assert!(injector2.generate_suggestion_at(100_000, &doc).is_none());
}

#[test]
fn test_prompt_reminder_cap_scenario() {
    let mut injector = ContextInjector::with_interval_at(1, 0);

    for i in 0..5u64 {
        // Calls at least two milliseconds apart.
        let now = 100_000 + i * 2;
        let result = injector.generate_suggestion_at(now, &ContentType::PromptReady);
        if i < 3 {
            assert!(result.is_some(), "Should allow first 3 reminders, failed at {}", i);
        } else {
            assert!(result.is_none(), "Should block after 3 reminders, failed at {}", i);
        }
    }
    assert_eq!(injector.prompt_reminders_used(), 3);
}

#[test]
fn test_ansi_strip_scenario() {
    let mut analyzer = StreamAnalyzer::new();
    let mut injector = ContextInjector::with_interval_at(10, 0);
    let raw = "\x1b[31mError\x1b[0m: boom";
    let result = process_output(&mut analyzer, &mut injector, true, 100_000, raw);
    assert_eq!(result.clean_output, "Error: boom");
    assert_eq!(result.output, raw, "The raw output retains the escapes");
}

#[test]
fn test_process_output_empty() {
    let mut analyzer = StreamAnalyzer::new();
    let mut injector = ContextInjector::with_interval_at(10, 0);
    let result = process_output(&mut analyzer, &mut injector, true, 100_000, "");
    assert_eq!(result.output, "");
    assert_eq!(result.clean_output, "");
    assert_eq!(result.token_estimate, 0);
    assert_eq!(result.total_size, 0);
    assert!(result.suggestions.is_empty());
    assert_eq!(result.detected_types, vec!["empty".to_string()]);
    assert_eq!(analyzer.total_tokens(), 0);
}

#[test]
fn test_process_output_labels_and_suggestions() {
    let mut analyzer = StreamAnalyzer::new();
    let mut injector = ContextInjector::with_interval_at(10, 0);
    let chunk = "error TS2304: a\nerror TS2304: b\nerror TS2304: c";
    let result = process_output(&mut analyzer, &mut injector, true, 100_000, chunk);
    assert_eq!(
        result.detected_types,
        vec!["BuildError { error_count: 3, tool: TypeScript }".to_string()]
    );
    assert_eq!(result.suggestions.len(), 1);
    assert!(result.suggestions[0].starts_with('\n'));
    assert!(result.suggestions[0].contains("tsc"));
    assert_eq!(injector.total_suggestions(), 1);
}

#[test]
fn test_process_output_suggestions_disabled() {
    let mut analyzer = StreamAnalyzer::new();
    let mut injector = ContextInjector::with_interval_at(10, 0);
    let chunk = "error TS2304: a\nerror TS2304: b\nerror TS2304: c";
    let result = process_output(&mut analyzer, &mut injector, false, 100_000, chunk);
    assert!(result.suggestions.is_empty());
    assert_eq!(injector.total_suggestions(), 0);
    assert_eq!(analyzer.total_errors(), 3);
}

#[test]
fn test_estimate_tokens_exact() {
    assert_eq!(estimate_tokens("".to_string()), 0);
    assert_eq!(estimate_tokens("abc".to_string()), 0);
    assert_eq!(estimate_tokens("abcd".to_string()), 1);
    assert_eq!(estimate_tokens("abcdefgh".to_string()), 2);
    // Multi-byte characters count by their UTF-8 byte length.
    assert_eq!(estimate_tokens("éééé".to_string()), 2);
}

#[test]
fn test_estimate_tokens_additive_over_concat() {
    let a = "hello wor";
    let b = "ld and more";
    let whole = format!("{}{}", a, b);
    assert_eq!(estimate_tokens(whole), (a.len() + b.len()) as u32 / 4);
}

#[test]
fn test_is_code_file_util() {
    assert!(is_code_file("x/y/z.kt".to_string()));
    assert!(!is_code_file("x/y/z.txt".to_string()));
}

#[test]
fn test_strip_ansi_util() {
    assert_eq!(
        strip_ansi("\x1b[32mok\x1b[0m".to_string()),
        "ok"
    );
}

#[test]
fn pty_tests_test_pty_size_default() {
    let size = PtySize::default();
    assert_eq!(size.rows, 24);
    assert_eq!(size.cols, 80);
}

#[test]
fn test_pty_error_messages() {
    assert_eq!(
        PtyError::CreateError("no pty".to_string()).message(),
        "Failed to create PTY: no pty"
    );
    assert_eq!(
        PtyError::SpawnError("enoent".to_string()).message(),
        "Failed to spawn command: enoent"
    );
    assert_eq!(
        PtyError::WriteError("pipe".to_string()).message(),
        "Failed to write to PTY: pipe"
    );
    assert_eq!(PtyError::IoError("eio".to_string()).message(), "IO error: eio");
    assert_eq!(
        PtyError::TermiosError("tcgetattr".to_string()).message(),
        "Failed to configure terminal: tcgetattr"
    );
}
