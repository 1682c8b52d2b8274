//! Streaming classification and throttled suggestions for the output of an
//! interactive child process running behind a pseudo-terminal.
//!
//! The library watches a text stream, strips terminal escape sequences,
//! classifies each chunk (build errors, file reads, large output, prompt
//! readiness), and decides when a classification should surface as a
//! user-facing suggestion, subject to rate and repetition limits.

pub mod analyzer;
pub mod buffer;
pub mod clock;
pub mod estimator;
pub mod injector;
pub mod patterns;
pub mod pty;
pub mod session;
pub mod templates;
pub mod text;

pub use analyzer::{AnalysisResult, StreamAnalyzer};
pub use buffer::RingBuffer;
pub use injector::ContextInjector;
pub use patterns::{BuildTool, ContentType};
pub use pty::{PtyError, PtySize};
pub use session::{estimate_tokens, is_code_file, process_output, strip_ansi, ReadResult};
pub use templates::{Suggestion, SuggestionType};
