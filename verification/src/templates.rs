//! Suggestion templates: pure constructors of the colored display messages
//! surfaced for each content category.

use vstd::prelude::*;

use crate::patterns::{spec_tool_str, BuildTool};
use crate::text::append_chars;

verus! {

/// Kind of a surfaced suggestion.
#[derive(Debug, Clone, Copy, PartialEq, Eq, Structural)]
pub enum SuggestionType {
    BuildErrors,
    LargeOutput,
    PromptReminder,
    FileRead,
}

/// A suggestion ready for display.
#[derive(Debug, Clone)]
pub struct Suggestion {
    /// Which category the suggestion reacts to.
    pub suggestion_type: SuggestionType,
    /// The colored one-line message shown to the user.
    pub display_message: String,
}

/// Mathematical image of a suggestion.
pub struct SuggestionV {
    pub suggestion_type: SuggestionType,
    pub display_message: Seq<char>,
}

impl View for Suggestion {
    type V = SuggestionV;

    open spec fn view(&self) -> SuggestionV {
        SuggestionV {
            suggestion_type: self.suggestion_type,
            display_message: self.display_message@,
        }
    }
}

/// The character for one decimal digit.
pub open spec fn digit_char(d: nat) -> char {
    (('0' as u8) + (d as u8)) as char
}

/// Decimal digits of `n`, most significant first.
pub open spec fn spec_decimal(n: nat) -> Seq<char>
    decreases n,
{
    if n < 10 {
        seq![digit_char(n)]
    } else {
        spec_decimal(n / 10).push(digit_char(n % 10))
    }
}

fn digit_char_exec(d: usize) -> (c: char)
    requires
        d < 10,
    ensures
        c == digit_char(d as nat),
{
    (('0' as u8) + (d as u8)) as char
}

/// Appends the decimal digits of `n` to `out`.
fn decimal_digits(n: usize, out: &mut Vec<char>)
    ensures
        final(out)@ == old(out)@ + spec_decimal(n as nat),
    decreases n,
{
    if n < 10 {
        out.push(digit_char_exec(n));
        proof {
            assert(old(out)@.push(digit_char(n as nat)) =~= old(out)@ + spec_decimal(n as nat));
        }
    } else {
        decimal_digits(n / 10, out);
        out.push(digit_char_exec(n % 10));
        proof {
            assert((old(out)@ + spec_decimal(n as nat / 10)).push(digit_char(n as nat % 10))
                =~= old(out)@ + spec_decimal(n as nat));
        }
    }
}

/// The decimal rendering of `n`, as a string.
pub fn decimal_string(n: usize) -> (s: String)
    ensures
        s@ == spec_decimal(n as nat),
{
    let mut digits: Vec<char> = Vec::new();
    decimal_digits(n, &mut digits);
    let mut s = String::new();
    append_chars(&mut s, &digits);
    proof {
        assert(Seq::<char>::empty() + digits@ =~= digits@);
    }
    s
}

/// The message suggesting compression after build errors: count, tool name,
/// and the recommended command.
pub open spec fn spec_build_errors_msg(n: nat, tool: BuildTool) -> Seq<char> {
    "\x1b[33m[ctxopt]\x1b[0m "@ + spec_decimal(n) + " "@ + spec_tool_str(tool)
        + " errors detected. Use \x1b[36mmcp__ctxopt__auto_optimize\x1b[0m to compress (95%+ savings)."@
}

/// The message suggesting compression of a large output, showing its size in
/// kilobytes (integer division).
pub open spec fn spec_large_output_msg(size: nat) -> Seq<char> {
    "\x1b[33m[ctxopt]\x1b[0m large output (~"@ + spec_decimal(size / 1024)
        + "KB). Use \x1b[36mmcp__ctxopt__compress_context\x1b[0m for 40-60% savings."@
}

/// The fixed dim-colored reminder of the available tools.
pub open spec fn spec_prompt_reminder_msg() -> Seq<char> {
    "\x1b[90m[ctxopt] MCP tools: smart_file_read, auto_optimize, compress_context\x1b[0m"@
}

/// The message suggesting a smarter read of the named file.
pub open spec fn spec_file_read_msg(path: Seq<char>) -> Seq<char> {
    "\x1b[33m[ctxopt]\x1b[0m Reading "@ + path
        + ". Consider \x1b[36mmcp__ctxopt__smart_file_read\x1b[0m for 50-70% savings."@
}

impl Suggestion {
    /// Suggestion for a batch of build errors.
    pub fn build_errors(error_count: usize, tool: BuildTool) -> (s: Suggestion)
        ensures
            s@.suggestion_type == SuggestionType::BuildErrors,
            s@.display_message == spec_build_errors_msg(error_count as nat, tool),
    {
        let mut m = String::new();
        m.append("\x1b[33m[ctxopt]\x1b[0m ");
        let count = decimal_string(error_count);
        m.append(count.as_str());
        m.append(" ");
        m.append(tool.as_str());
        m.append(
            " errors detected. Use \x1b[36mmcp__ctxopt__auto_optimize\x1b[0m to compress (95%+ savings).",
        );
        proof {
            assert(m@ =~= spec_build_errors_msg(error_count as nat, tool));
        }
        Suggestion { suggestion_type: SuggestionType::BuildErrors, display_message: m }
    }

    /// Suggestion for a voluminous output block.
    pub fn large_output(size: usize) -> (s: Suggestion)
        ensures
            s@.suggestion_type == SuggestionType::LargeOutput,
            s@.display_message == spec_large_output_msg(size as nat),
    {
        let size_kb = size / 1024;
        let mut m = String::new();
        m.append("\x1b[33m[ctxopt]\x1b[0m large output (~");
        let kb = decimal_string(size_kb);
        m.append(kb.as_str());
        m.append("KB). Use \x1b[36mmcp__ctxopt__compress_context\x1b[0m for 40-60% savings.");
        proof {
            assert(m@ =~= spec_large_output_msg(size as nat));
        }
        Suggestion { suggestion_type: SuggestionType::LargeOutput, display_message: m }
    }

    /// The light reminder shown when the prompt is ready.
    pub fn prompt_reminder() -> (s: Suggestion)
        ensures
            s@.suggestion_type == SuggestionType::PromptReminder,
            s@.display_message == spec_prompt_reminder_msg(),
    {
        let mut m = String::new();
        m.append("\x1b[90m[ctxopt] MCP tools: smart_file_read, auto_optimize, compress_context\x1b[0m");
        proof {
            assert(m@ =~= spec_prompt_reminder_msg());
        }
        Suggestion { suggestion_type: SuggestionType::PromptReminder, display_message: m }
    }

    /// Suggestion reacting to a file-read transcript.
    pub fn file_read(file_path: &str) -> (s: Suggestion)
        ensures
            s@.suggestion_type == SuggestionType::FileRead,
            s@.display_message == spec_file_read_msg(file_path@),
    {
        let mut m = String::new();
        m.append("\x1b[33m[ctxopt]\x1b[0m Reading ");
        m.append(file_path);
        m.append(". Consider \x1b[36mmcp__ctxopt__smart_file_read\x1b[0m for 50-70% savings.");
        proof {
            assert(m@ =~= spec_file_read_msg(file_path@));
        }
        Suggestion { suggestion_type: SuggestionType::FileRead, display_message: m }
    }

    /// The display form of the message: framed by blank lines.
    pub fn format_for_display(&self) -> (r: String)
        ensures
            r@ == "\n"@ + self@.display_message + "\n"@,
    {
        let mut r = String::new();
        r.append("\n");
        r.append(self.display_message.as_str());
        r.append("\n");
        proof {
            assert(r@ =~= "\n"@ + self@.display_message + "\n"@);
        }
        r
    }
}

} // verus!
