//! Tests of the pattern catalog: tool patterns, file-read capture, prompt
//! readiness, and ANSI stripping.

use ctxopt_core::patterns::{file_read_capture, pattern_matches, prompt_ready_matches};
use ctxopt_core::{strip_ansi, BuildTool};

#[test]
fn test_typescript_pattern() {
    assert!(pattern_matches(
        "error TS2304: Cannot find name 'foo'",
        BuildTool::TypeScript
    ));
    assert!(pattern_matches("Cannot find module 'react'", BuildTool::TypeScript));
    assert!(pattern_matches(
        "has no exported member 'useState'",
        BuildTool::TypeScript
    ));
}

#[test]
fn test_rust_pattern() {
    assert!(pattern_matches(
        "error[E0425]: cannot find value `foo`",
        BuildTool::Rust
    ));
    assert!(pattern_matches("cannot find type `MyType`", BuildTool::Rust));
    assert!(pattern_matches("cannot find crate `serde`", BuildTool::Rust));
}

#[test]
fn test_python_pattern() {
    assert!(pattern_matches(
        "NameError: name 'foo' is not defined",
        BuildTool::Python
    ));
    assert!(pattern_matches(
        "ImportError: No module named 'requests'",
        BuildTool::Python
    ));
    assert!(pattern_matches("SyntaxError: invalid syntax", BuildTool::Python));
}

#[test]
fn test_go_pattern() {
    assert!(pattern_matches("undefined: foo", BuildTool::Go));
    assert!(pattern_matches("cannot find package \"fmt\"", BuildTool::Go));
    assert!(pattern_matches("syntax error: unexpected", BuildTool::Go));
}

#[test]
fn test_file_read_pattern() {
    let caps = file_read_capture("Reading file: src/main.ts");
    assert!(caps.is_some());
    assert_eq!(caps.unwrap(), "src/main.ts");
}

#[test]
fn test_prompt_ready_pattern() {
    assert!(prompt_ready_matches("❯"));
    assert!(prompt_ready_matches("some output >"));
    assert!(prompt_ready_matches("user@host:~$"));
}

#[test]
fn test_ansi_escape_pattern() {
    let text = "\x1b[31mError\x1b[0m: something failed";
    let clean = strip_ansi(text.to_string());
    assert_eq!(clean, "Error: something failed");
}

#[test]
fn test_build_tool_as_str() {
    assert_eq!(BuildTool::TypeScript.as_str(), "tsc");
    assert_eq!(BuildTool::Rust.as_str(), "cargo");
    assert_eq!(BuildTool::Python.as_str(), "python");
}

#[test]
fn test_eslint_pattern_requires_rule_id() {
    assert!(pattern_matches(
        "  10:5  error  'foo' is not defined  no-undef/x",
        BuildTool::ESLint
    ));
    assert!(!pattern_matches(
        "  10:5  error  'foo' is not defined  noundef",
        BuildTool::ESLint
    ));
}

#[test]
fn test_file_read_quoted_and_keyword_forms() {
    assert_eq!(
        file_read_capture("file_path: 'src/app.py'").unwrap(),
        "src/app.py"
    );
    assert_eq!(file_read_capture("Read file: \"lib.rs\"").unwrap(), "lib.rs");
    assert_eq!(file_read_capture("Reading notes.txt"), None);
}

#[test]
fn test_prompt_ready_needs_trailing_marker() {
    assert!(!prompt_ready_matches("a > b"));
    assert!(!prompt_ready_matches("plain text"));
    assert!(prompt_ready_matches("agent > "));
}

#[test]
fn test_strip_ansi_removes_osc_sequence() {
    let text = "\x1b]0;title\x07body";
    assert_eq!(strip_ansi(text.to_string()), "body");
}

#[test]
fn test_strip_ansi_keeps_unterminated_escape() {
    // An escape that never completes is not a recognised sequence and stays.
    assert_eq!(strip_ansi("\x1b[31".to_string()), "\x1b[31");
}

#[test]
fn test_strip_ansi_idempotent_on_stripped_text() {
    let once = strip_ansi("\x1b[31mError\x1b[0m: boom".to_string());
    let twice = strip_ansi(once.clone());
    assert_eq!(once, twice);
}
