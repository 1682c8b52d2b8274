//! Tests of the stream analyzer on single chunks.

use ctxopt_core::{BuildTool, ContentType, StreamAnalyzer};

#[test]
fn test_detect_typescript_error() {
    let mut analyzer = StreamAnalyzer::new();
    let result = analyzer.analyze("error TS2304: Cannot find name 'foo'");

    assert!(result.content_types.iter().any(|ct| matches!(
        ct,
        ContentType::BuildError { tool: BuildTool::TypeScript, .. }
    )));
}

#[test]
fn test_detect_rust_error() {
    let mut analyzer = StreamAnalyzer::new();
    let result = analyzer.analyze("error[E0425]: cannot find value `foo`");

    assert!(result.content_types.iter().any(|ct| matches!(
        ct,
        ContentType::BuildError { tool: BuildTool::Rust, .. }
    )));
}

#[test]
fn test_detect_python_error() {
    let mut analyzer = StreamAnalyzer::new();
    let result = analyzer.analyze("NameError: name 'foo' is not defined");

    assert!(result.content_types.iter().any(|ct| matches!(
        ct,
        ContentType::BuildError { tool: BuildTool::Python, .. }
    )));
}

#[test]
fn test_detect_go_error() {
    let mut analyzer = StreamAnalyzer::new();
    let result = analyzer.analyze("undefined: foo");

    assert!(result.content_types.iter().any(|ct| matches!(
        ct,
        ContentType::BuildError { tool: BuildTool::Go, .. }
    )));
}

#[test]
fn analyzer_test_detect_file_read() {
    let mut analyzer = StreamAnalyzer::new();
    let result = analyzer.analyze("Reading file: src/main.ts");

    assert!(result
        .content_types
        .iter()
        .any(|ct| matches!(ct, ContentType::FileRead { .. })));
}

#[test]
fn analyzer_test_detect_large_output() {
    let mut analyzer = StreamAnalyzer::new();

    let large_text = "x".repeat(6000);
    let result = analyzer.analyze(&large_text);

    assert!(result
        .content_types
        .iter()
        .any(|ct| matches!(ct, ContentType::LargeOutput { .. })));
}

#[test]
fn test_detect_prompt_ready() {
    let mut analyzer = StreamAnalyzer::new();
    let result = analyzer.analyze("some output ❯");

    assert!(result
        .content_types
        .iter()
        .any(|ct| matches!(ct, ContentType::PromptReady)));
}

#[test]
fn test_strip_ansi() {
    let analyzer = StreamAnalyzer::new();
    let text_with_ansi = "\x1b[31mError\x1b[0m: something failed";
    let clean = analyzer.strip_ansi(text_with_ansi);

    assert_eq!(clean, "Error: something failed");
}

#[test]
fn test_normal_content() {
    let mut analyzer = StreamAnalyzer::new();
    let result = analyzer.analyze("just some normal text");

    assert!(result
        .content_types
        .iter()
        .any(|ct| matches!(ct, ContentType::Normal)));
}

#[test]
fn test_multiple_errors_count() {
    let mut analyzer = StreamAnalyzer::new();
    let text = "error TS2304: foo\nerror TS2304: bar\nerror TS2304: baz";
    let result = analyzer.analyze(text);

    if let Some(ContentType::BuildError { error_count, .. }) =
        result.content_types.iter().find(|ct| {
            matches!(
                ct,
                ContentType::BuildError { tool: BuildTool::TypeScript, .. }
            )
        })
    {
        assert_eq!(*error_count, 3);
    } else {
        panic!("Expected TypeScript build error");
    }
}

#[test]
fn test_total_tokens() {
    let mut analyzer = StreamAnalyzer::new();
    analyzer.analyze("hello world");
    analyzer.analyze("more text");

    assert!(analyzer.total_tokens() > 0);
}

#[test]
fn analyzer_test_reset() {
    let mut analyzer = StreamAnalyzer::new();
    analyzer.analyze("error TS2304: foo");
    analyzer.reset();

    assert_eq!(analyzer.total_tokens(), 0);
    assert_eq!(analyzer.total_errors(), 0);
    assert_eq!(analyzer.buffer_size(), 0);
}

#[test]
fn test_prompt_clears_buffer() {
    let mut analyzer = StreamAnalyzer::new();
    analyzer.analyze("some text");
    assert!(analyzer.buffer_size() > 0);
    let result = analyzer.analyze("done ❯");
    assert!(result
        .content_types
        .iter()
        .any(|ct| matches!(ct, ContentType::PromptReady)));
    assert_eq!(analyzer.buffer_size(), 0);
    assert_eq!(result.total_size, 0);
}

#[test]
fn test_classification_deterministic() {
    let chunk = "error TS2304: x\nReading file: a.ts ❯";
    let mut first = StreamAnalyzer::new();
    let mut second = StreamAnalyzer::new();
    let r1 = first.analyze(chunk);
    let r2 = second.analyze(chunk);
    assert_eq!(r1.content_types, r2.content_types);
    assert_eq!(r1.token_estimate, r2.token_estimate);
    assert_eq!(r1.clean_text, r2.clean_text);
}
