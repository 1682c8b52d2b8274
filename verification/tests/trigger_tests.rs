//! Tests of the injector's triggering policy.

use ctxopt_core::{BuildTool, ContentType, ContextInjector};

#[test]
fn test_should_inject_build_errors() {
    let injector = ContextInjector::new();

    // Fewer than three errors: no injection.
    assert!(!injector.should_inject(&ContentType::BuildError {
        error_count: 2,
        tool: BuildTool::TypeScript,
    }));

    // Three or more errors: injection.
    assert!(injector.should_inject(&ContentType::BuildError {
        error_count: 5,
        tool: BuildTool::TypeScript,
    }));
}

#[test]
fn triggers_test_should_inject_large_output() {
    let injector = ContextInjector::new();

    // Small output: no injection.
    assert!(!injector.should_inject(&ContentType::LargeOutput { size: 5000 }));

    // Large output: injection.
    assert!(injector.should_inject(&ContentType::LargeOutput { size: 15000 }));
}

#[test]
fn test_should_inject_file_read() {
    let injector = ContextInjector::new();

    // Code file: injection.
    assert!(injector.should_inject(&ContentType::FileRead {
        file_path: "src/main.ts".to_string(),
    }));

    // Non-code file: no injection.
    assert!(!injector.should_inject(&ContentType::FileRead {
        file_path: "README.md".to_string(),
    }));
}

#[test]
fn test_is_code_file() {
    assert!(ContextInjector::is_code_file("src/main.ts"));
    assert!(ContextInjector::is_code_file("app.py"));
    assert!(ContextInjector::is_code_file("lib.rs"));
    assert!(ContextInjector::is_code_file("main.go"));
    assert!(ContextInjector::is_code_file("App.java"));
    assert!(!ContextInjector::is_code_file("README.md"));
    assert!(!ContextInjector::is_code_file("config.json"));
    assert!(!ContextInjector::is_code_file("package.yaml"));
}

#[test]
fn triggers_test_prompt_reminder_limit() {
    let mut injector = ContextInjector::with_interval_at(10, 0);

    // The first three reminders are allowed; the throttle is long since
    // elapsed at each explicit clock reading.
    for i in 0..3u64 {
        let now = 100_000 + i * 100_000;
        let suggestion = injector.generate_suggestion_at(now, &ContentType::PromptReady);
        assert!(suggestion.is_some(), "Reminder {} should be allowed", i + 1);
    }

    // The fourth is blocked by the cap.
    assert!(injector
        .generate_suggestion_at(500_000, &ContentType::PromptReady)
        .is_none());
    assert_eq!(injector.prompt_reminders_used(), 3);
}

#[test]
fn test_set_enabled() {
    let mut injector = ContextInjector::new();
    assert!(injector.is_enabled());

    injector.set_enabled(false);
    assert!(!injector.is_enabled());

    // While disabled, should_inject is always false.
    assert!(!injector.should_inject(&ContentType::BuildError {
        error_count: 100,
        tool: BuildTool::TypeScript,
    }));
}

#[test]
fn triggers_test_reset() {
    let mut injector = ContextInjector::with_interval_at(10, 0);

    // Produce some suggestions at well-separated clock readings.
    injector.generate_suggestion_at(100_000, &ContentType::PromptReady);
    injector.generate_suggestion_at(200_000, &ContentType::LargeOutput { size: 20000 });

    assert!(injector.total_suggestions() > 0);
    assert!(injector.prompt_reminders_used() > 0);

    injector.reset();

    assert_eq!(injector.total_suggestions(), 0);
    assert_eq!(injector.prompt_reminders_used(), 0);
}

#[test]
fn test_time_until_next_injection() {
    let injector = ContextInjector::with_interval(1000);

    // At startup the throttle is backdated, so injection is possible at once.
    assert_eq!(injector.time_until_next_injection(), 0);

    // Right after an injection the full interval remains.
    let mut injector = ContextInjector::with_interval_at(1000, 1_000_000);
    injector.generate_suggestion_at(1_000_000, &ContentType::LargeOutput { size: 20000 });
    let time_until = injector.time_until_next_injection_at(1_000_000);
    assert!(time_until > 0);
    assert!(time_until <= 1000);
}

#[test]
fn test_normal_content_never_injects() {
    let injector = ContextInjector::new();
    assert!(!injector.should_inject(&ContentType::Normal));
}

#[test]
fn test_recent_types_window() {
    let mut injector = ContextInjector::with_interval_at(10, 0);
    let build = ContentType::BuildError { error_count: 10, tool: BuildTool::TypeScript };

    // First injection is recorded.
    assert!(injector.generate_suggestion_at(100_000, &build).is_some());

    // The same kind is blocked while it sits in the recent window, even after
    // the interval has passed.
    assert!(injector.generate_suggestion_at(200_000, &build).is_none());

    // A different kind is allowed.
    let large = ContentType::LargeOutput { size: 20000 };
    assert!(injector.generate_suggestion_at(300_000, &large).is_some());
}

#[test]
fn test_throttle_blocks_within_interval() {
    let mut injector = ContextInjector::with_interval_at(5000, 0);
    let large = ContentType::LargeOutput { size: 20000 };
    assert!(injector.generate_suggestion_at(100_000, &large).is_some());
    // 4999 ms later: still blocked by the interval alone.
    let read = ContentType::FileRead { file_path: "a.rs".to_string() };
    assert!(injector.generate_suggestion_at(104_999, &read).is_none());
    // 5000 ms later: the interval has passed.
    assert!(injector.generate_suggestion_at(105_000, &read).is_some());
}
