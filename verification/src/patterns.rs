//! The pattern catalog: the classification grammar the analyzer applies to
//! the cleaned output stream.
//!
//! Each pattern is written out as a spec function over character sequences
//! together with an executable matcher proved equivalent to it. Build-tool
//! diagnostics are recognised line by line; a tool's error count is the
//! number of lines on which its pattern matches.

use vstd::prelude::*;

use crate::text::{
    chars_of, in_class, in_class_exec, is_ascii_alpha, is_digit, is_ws, lemma_run_end, lit_ci_at,
    lit_ci_at_exec, run_end, run_end_exec, CharClass,
};

verus! {

/// Build tools whose diagnostics the classifier recognises.
#[derive(Debug, Clone, Copy, PartialEq, Eq, Structural)]
pub enum BuildTool {
    TypeScript,
    ESLint,
    Rust,
    Go,
    Python,
    Webpack,
    Vite,
    Generic,
}

/// Short display string of a build tool.
pub open spec fn spec_tool_str(t: BuildTool) -> Seq<char> {
    match t {
        BuildTool::TypeScript => "tsc"@,
        BuildTool::ESLint => "eslint"@,
        BuildTool::Rust => "cargo"@,
        BuildTool::Go => "go"@,
        BuildTool::Python => "python"@,
        BuildTool::Webpack => "webpack"@,
        BuildTool::Vite => "vite"@,
        BuildTool::Generic => "generic"@,
    }
}

impl BuildTool {
    pub fn as_str(&self) -> (r: &'static str)
        ensures
            r@ == spec_tool_str(*self),
    {
        match self {
            BuildTool::TypeScript => "tsc",
            BuildTool::ESLint => "eslint",
            BuildTool::Rust => "cargo",
            BuildTool::Go => "go",
            BuildTool::Python => "python",
            BuildTool::Webpack => "webpack",
            BuildTool::Vite => "vite",
            BuildTool::Generic => "generic",
        }
    }
}

/// Category assigned to a chunk of stream output.
#[derive(Debug, Clone, PartialEq)]
pub enum ContentType {
    /// Build-tool diagnostics were recognised.
    BuildError { error_count: usize, tool: BuildTool },
    /// A file-read transcript naming `file_path` was recognised.
    FileRead { file_path: String },
    /// The accumulated buffer has grown past the large-output threshold.
    LargeOutput { size: usize },
    /// The child is ready for input.
    PromptReady,
    /// Nothing specific was recognised.
    Normal,
}

/// Mathematical image of a `ContentType`: the file path as a character
/// sequence, the counts as unbounded integers.
pub enum ContentTypeV {
    BuildError { error_count: nat, tool: BuildTool },
    FileRead { file_path: Seq<char> },
    LargeOutput { size: nat },
    PromptReady,
    Normal,
}

impl View for ContentType {
    type V = ContentTypeV;

    open spec fn view(&self) -> ContentTypeV {
        match self {
            ContentType::BuildError { error_count, tool } => ContentTypeV::BuildError {
                error_count: *error_count as nat,
                tool: *tool,
            },
            ContentType::FileRead { file_path } => ContentTypeV::FileRead {
                file_path: file_path@,
            },
            ContentType::LargeOutput { size } => ContentTypeV::LargeOutput {
                size: *size as nat,
            },
            ContentType::PromptReady => ContentTypeV::PromptReady,
            ContentType::Normal => ContentTypeV::Normal,
        }
    }
}

// ---------------------------------------------------------------------------
// ANSI escape stripping
// ---------------------------------------------------------------------------

/// Exclusive end of the escape sequence starting at `i`, if one starts there.
/// Two forms are recognised: `ESC [ <digits or ;>* <letter>` and
/// `ESC ] <anything but BEL or line feed>* BEL`.
pub open spec fn esc_end(s: Seq<char>, i: int) -> Option<int> {
    if 0 <= i < s.len() && s[i] == '\u{1b}' && i + 1 < s.len() {
        if s[i + 1] == '[' {
            let j = run_end(s, i + 2, CharClass::CsiParam);
            if j < s.len() && is_ascii_alpha(s[j]) {
                Some(j + 1)
            } else {
                None
            }
        } else if s[i + 1] == ']' {
            let j = run_end(s, i + 2, CharClass::OscBody);
            if j < s.len() && s[j] == '\u{7}' {
                Some(j + 1)
            } else {
                None
            }
        } else {
            None
        }
    } else {
        None
    }
}

/// An escape sequence spans at least three characters and ends within `s`.
pub proof fn lemma_esc_end_bounds(s: Seq<char>, i: int)
    requires
        esc_end(s, i) is Some,
    ensures
        i + 3 <= esc_end(s, i)->Some_0 <= s.len(),
{
    lemma_run_end(s, i + 2, CharClass::CsiParam);
    lemma_run_end(s, i + 2, CharClass::OscBody);
}

/// The text from position `i` on with every escape sequence removed:
/// escape sequences are skipped, other characters are kept, scanning left to
/// right without overlap.
pub open spec fn strip_from(s: Seq<char>, i: int) -> Seq<char>
    decreases s.len() - i,
    when 0 <= i
    via strip_from_decreases
{
    if i >= s.len() {
        Seq::empty()
    } else {
        match esc_end(s, i) {
            Some(e) => strip_from(s, e),
            None => seq![s[i]] + strip_from(s, i + 1),
        }
    }
}

#[via_fn]
proof fn strip_from_decreases(s: Seq<char>, i: int) {
    if i < s.len() && esc_end(s, i) is Some {
        lemma_esc_end_bounds(s, i);
    }
}

/// The text with every ANSI escape sequence removed.
pub open spec fn spec_strip_ansi(s: Seq<char>) -> Seq<char> {
    strip_from(s, 0)
}

/// Executable escape-sequence recognition at one position.
fn esc_end_exec(v: &Vec<char>, i: usize) -> (r: Option<usize>)
    requires
        i < v@.len(),
    ensures
        match r {
            Some(e) => esc_end(v@, i as int) == Some(e as int) && i < e <= v@.len(),
            None => esc_end(v@, i as int) is None,
        },
{
    let len = v.len();
    if v[i] != '\u{1b}' || i + 1 >= len {
        return None;
    }
    if v[i + 1] == '[' {
        let j = run_end_exec(v, i + 2, CharClass::CsiParam);
        if j < v.len() && in_class_exec(CharClass::AsciiAlpha, v[j]) {
            Some(j + 1)
        } else {
            None
        }
    } else if v[i + 1] == ']' {
        let j = run_end_exec(v, i + 2, CharClass::OscBody);
        if j < v.len() && v[j] == '\u{7}' {
            Some(j + 1)
        } else {
            None
        }
    } else {
        None
    }
}

/// Removes every ANSI escape sequence from a character vector.
pub fn strip_ansi_chars(v: &Vec<char>) -> (out: Vec<char>)
    ensures
        out@ == spec_strip_ansi(v@),
{
    let mut out: Vec<char> = Vec::new();
    let mut i: usize = 0;
    while i < v.len()
        invariant
            i <= v@.len(),
            spec_strip_ansi(v@) == out@ + strip_from(v@, i as int),
        decreases v@.len() - i,
    {
        match esc_end_exec(v, i) {
            Some(e) => {
                i = e;
            },
            None => {
                let ghost prev = out@;
                out.push(v[i]);
                proof {
                    assert(out@ + strip_from(v@, i + 1) =~= prev + strip_from(v@, i as int));
                }
                i += 1;
            },
        }
    }
    proof {
        assert(out@ + strip_from(v@, i as int) =~= out@);
    }
    out
}

/// A text without any escape character has nothing to strip.
pub proof fn lemma_strip_no_esc(s: Seq<char>, i: int)
    requires
        0 <= i <= s.len(),
        forall|k: int| 0 <= k < s.len() ==> s[k] != '\u{1b}',
    ensures
        strip_from(s, i) == s.subrange(i, s.len() as int),
    decreases s.len() - i,
{
    if i >= s.len() {
        assert(strip_from(s, i) =~= s.subrange(i, s.len() as int));
    } else {
        lemma_strip_no_esc(s, i + 1);
        assert(strip_from(s, i) =~= s.subrange(i, s.len() as int));
    }
}

/// Stripping is idempotent on every input whose stripped form retains no
/// escape character: stripping such a text a second time changes nothing.
/// (A stripped text can retain an escape character when removing one
/// sequence splices a new one together, so the premise is needed.)
pub proof fn lemma_strip_ansi_idempotent(x: Seq<char>)
    requires
        forall|k: int|
            0 <= k < spec_strip_ansi(x).len() ==> spec_strip_ansi(x)[k] != '\u{1b}',
    ensures
        spec_strip_ansi(spec_strip_ansi(x)) == spec_strip_ansi(x),
{
    let y = spec_strip_ansi(x);
    lemma_strip_no_esc(y, 0);
    assert(y.subrange(0, y.len() as int) =~= y);
}

// ---------------------------------------------------------------------------
// Prompt readiness
// ---------------------------------------------------------------------------

/// A prompt is visible at position `i`: either the prompt glyph, or a `>` or
/// `$` followed by nothing but whitespace to the end of the text.
pub open spec fn prompt_at(s: Seq<char>, i: int) -> bool {
    &&& 0 <= i < s.len()
    &&& {
        ||| s[i] == '\u{276f}'
        ||| {
            &&& (s[i] == '>' || s[i] == '$')
            &&& forall|j: int| i < j < s.len() ==> is_ws(s[j])
        }
    }
}

/// The text signals that the child is ready for input.
pub open spec fn spec_prompt_ready(s: Seq<char>) -> bool {
    exists|i: int| prompt_at(s, i)
}

/// Executable prompt detection over a character vector.
pub fn prompt_ready_chars(v: &Vec<char>) -> (b: bool)
    ensures
        b == spec_prompt_ready(v@),
{
    let mut i: usize = 0;
    while i < v.len()
        invariant
            i <= v@.len(),
            forall|k: int| 0 <= k < i ==> v@[k] != '\u{276f}',
        decreases v@.len() - i,
    {
        if v[i] == '\u{276f}' {
            assert(prompt_at(v@, i as int));
            return true;
        }
        i += 1;
    }
    let mut j: usize = v.len();
    while j > 0 && in_class_exec(CharClass::Ws, v[j - 1])
        invariant
            j <= v@.len(),
            forall|k: int| j <= k < v@.len() ==> is_ws(v@[k]),
        decreases j,
    {
        j -= 1;
    }
    if j > 0 && (v[j - 1] == '>' || v[j - 1] == '$') {
        assert(prompt_at(v@, j - 1));
        true
    } else {
        assert(forall|k: int| 0 <= k < v@.len() ==> v@[k] != '\u{276f}');
        assert(!spec_prompt_ready(v@)) by {
            if exists|i: int| prompt_at(v@, i) {
                let i = choose|i: int| prompt_at(v@, i);
                if i < j - 1 {
                    assert(is_ws(v@[j - 1]));
                } else if i >= j {
                    assert(is_ws(v@[i]));
                }
            }
        }
        false
    }
}

/// Prompt detection on a string.
pub fn prompt_ready_matches(text: &str) -> (b: bool)
    ensures
        b == spec_prompt_ready(text@),
{
    let v = chars_of(text);
    prompt_ready_chars(&v)
}

// ---------------------------------------------------------------------------
// Lines
// ---------------------------------------------------------------------------

/// The text split at line feeds; the separators are dropped, and a trailing
/// line feed yields a final empty line.
pub open spec fn spec_lines(s: Seq<char>) -> Seq<Seq<char>>
    decreases s.len(),
    via spec_lines_decreases
{
    let nl = run_end(s, 0, CharClass::NotNl);
    if nl >= s.len() {
        seq![s]
    } else {
        seq![s.subrange(0, nl)] + spec_lines(s.subrange(nl + 1, s.len() as int))
    }
}

#[via_fn]
proof fn spec_lines_decreases(s: Seq<char>) {
    lemma_run_end(s, 0, CharClass::NotNl);
}

/// If everything from `i` up to `p` is in the class and `p` is the end of the
/// text or outside the class, then `p` is the run end.
pub proof fn lemma_run_end_is(s: Seq<char>, i: int, cls: CharClass, p: int)
    requires
        0 <= i <= p <= s.len(),
        forall|k: int| i <= k < p ==> in_class(cls, s[k]),
        p < s.len() ==> !in_class(cls, s[p]),
    ensures
        run_end(s, i, cls) == p,
    decreases p - i,
{
    if i < p {
        lemma_run_end_is(s, i + 1, cls, p);
    }
}

/// The views of a vector of line vectors.
pub open spec fn lines_view(ls: Seq<Vec<char>>) -> Seq<Seq<char>> {
    ls.map_values(|l: Vec<char>| l@)
}

/// Splits a character vector into its lines.
pub fn split_lines(v: &Vec<char>) -> (ls: Vec<Vec<char>>)
    ensures
        lines_view(ls@) == spec_lines(v@),
{
    let mut ls: Vec<Vec<char>> = Vec::new();
    let mut cur: Vec<char> = Vec::new();
    let ghost mut start: int = 0;
    let mut i: usize = 0;
    proof {
        assert(v@.subrange(0, v@.len() as int) =~= v@);
        assert(lines_view(ls@) =~= Seq::<Seq<char>>::empty());
        assert(lines_view(ls@) + spec_lines(v@) =~= spec_lines(v@));
        assert(cur@ =~= v@.subrange(0, 0));
    }
    while i < v.len()
        invariant
            0 <= start <= i <= v@.len(),
            cur@ == v@.subrange(start, i as int),
            forall|k: int| start <= k < i ==> v@[k] != '\n',
            spec_lines(v@) == lines_view(ls@) + spec_lines(v@.subrange(start, v@.len() as int)),
        decreases v@.len() - i,
    {
        if v[i] == '\n' {
            proof {
                let rest = v@.subrange(start, v@.len() as int);
                lemma_run_end_is(rest, 0, CharClass::NotNl, i - start);
                assert(rest.subrange(0, i - start) =~= cur@);
                assert(rest.subrange(i - start + 1, rest.len() as int) =~= v@.subrange(
                    i + 1,
                    v@.len() as int,
                ));
                assert(lines_view(ls@.push(cur)) =~= lines_view(ls@).push(cur@));
                assert(lines_view(ls@).push(cur@) + spec_lines(v@.subrange(i + 1, v@.len() as int))
                    =~= lines_view(ls@) + spec_lines(rest));
            }
            ls.push(cur);
            cur = Vec::new();
            proof {
                start = i + 1;
            }
        } else {
            proof {
                assert(v@.subrange(start, i + 1) =~= v@.subrange(start, i as int).push(
                    v@[i as int],
                ));
            }
            cur.push(v[i]);
        }
        i += 1;
    }
    proof {
        let rest = v@.subrange(start, v@.len() as int);
        lemma_run_end_is(rest, 0, CharClass::NotNl, rest.len() as int);
        assert(rest =~= cur@);
        assert(lines_view(ls@.push(cur)) =~= lines_view(ls@).push(cur@));
        assert(lines_view(ls@).push(cur@) =~= lines_view(ls@) + seq![cur@]);
    }
    ls.push(cur);
    ls
}

// ---------------------------------------------------------------------------
// Build-tool diagnostics, matched line by line
// ---------------------------------------------------------------------------

/// `error <ws> TS<dddd>:` at position `i`.
pub open spec fn ts_code_at(s: Seq<char>, i: int) -> bool {
    &&& lit_ci_at(s, i, "error"@)
    &&& {
        let j = run_end(s, i + 5, CharClass::Ws);
        &&& j > i + 5
        &&& lit_ci_at(s, j, "ts"@)
        &&& j + 7 <= s.len()
        &&& is_digit(s[j + 2])
        &&& is_digit(s[j + 3])
        &&& is_digit(s[j + 4])
        &&& is_digit(s[j + 5])
        &&& s[j + 6] == ':'
    }
}

/// A TypeScript diagnostic at position `i`: a `TS` error code, or one of the
/// fixed compiler phrases.
pub open spec fn ts_at(s: Seq<char>, i: int) -> bool {
    ||| ts_code_at(s, i)
    ||| lit_ci_at(s, i, "cannot find name"@)
    ||| lit_ci_at(s, i, "cannot find module"@)
    ||| lit_ci_at(s, i, "has no exported member"@)
}

/// `error[E<dddd>]:` at position `i`.
pub open spec fn rust_code_at(s: Seq<char>, i: int) -> bool {
    &&& lit_ci_at(s, i, "error[e"@)
    &&& i + 13 <= s.len()
    &&& is_digit(s[i + 7])
    &&& is_digit(s[i + 8])
    &&& is_digit(s[i + 9])
    &&& is_digit(s[i + 10])
    &&& s[i + 11] == ']'
    &&& s[i + 12] == ':'
}

/// A Rust diagnostic at position `i`.
pub open spec fn rust_at(s: Seq<char>, i: int) -> bool {
    ||| rust_code_at(s, i)
    ||| lit_ci_at(s, i, "cannot find value"@)
    ||| lit_ci_at(s, i, "cannot find type"@)
    ||| lit_ci_at(s, i, "cannot find crate"@)
}

/// A Go diagnostic at position `i`.
pub open spec fn go_at(s: Seq<char>, i: int) -> bool {
    ||| lit_ci_at(s, i, "undefined:"@)
    ||| lit_ci_at(s, i, "cannot find package"@)
    ||| lit_ci_at(s, i, "syntax error"@)
}

/// A Python diagnostic at position `i`: a known exception name and a colon.
pub open spec fn python_at(s: Seq<char>, i: int) -> bool {
    ||| lit_ci_at(s, i, "nameerror:"@)
    ||| lit_ci_at(s, i, "importerror:"@)
    ||| lit_ci_at(s, i, "syntaxerror:"@)
    ||| lit_ci_at(s, i, "modulenotfounderror:"@)
    ||| lit_ci_at(s, i, "typeerror:"@)
}

/// A keyword with a whitespace or colon trail (or the end of the line).
pub open spec fn word_trail(s: Seq<char>, i: int, w: Seq<char>) -> bool {
    &&& lit_ci_at(s, i, w)
    &&& (i + w.len() >= s.len() || is_ws(s[i + w.len()]) || s[i + w.len()] == ':')
}

/// A generic failure phrase at position `i`, anchored at the line start or
/// after whitespace.
pub open spec fn generic_at(s: Seq<char>, i: int) -> bool {
    &&& 0 <= i < s.len()
    &&& (i == 0 || is_ws(s[i - 1]))
    &&& {
        ||| word_trail(s, i, "error"@)
        ||| word_trail(s, i, "failed"@)
        ||| word_trail(s, i, "cannot"@)
        ||| word_trail(s, i, "unexpected"@)
        ||| word_trail(s, i, "compilation failed"@)
    }
}

/// The slash-bearing rule identifier of an ESLint diagnostic: a `/` with
/// non-whitespace on both sides, preceded somewhere after `w2` by whitespace.
pub open spec fn eslint_slash_at(s: Seq<char>, w2: int, m: int) -> bool {
    &&& 1 <= m
    &&& m + 1 < s.len()
    &&& s[m] == '/'
    &&& !is_ws(s[m - 1])
    &&& !is_ws(s[m + 1])
    &&& exists|w: int| w2 < w < m && is_ws(#[trigger] s[w])
}

/// The message-and-rule tail of an ESLint diagnostic after the severity
/// keyword ending at `kw_end`: whitespace, a message, whitespace, and a rule
/// identifier containing a slash.
pub open spec fn eslint_tail(s: Seq<char>, kw_end: int) -> bool {
    let w2 = run_end(s, kw_end, CharClass::Ws);
    &&& w2 > kw_end
    &&& exists|m: int| eslint_slash_at(s, w2, m)
}

/// An ESLint diagnostic at position `i`: `line:col  severity  message
/// rule/id`.
pub open spec fn eslint_at(s: Seq<char>, i: int) -> bool {
    let d1 = run_end(s, i, CharClass::Digit);
    &&& 0 <= i < s.len()
    &&& d1 > i
    &&& d1 < s.len() && s[d1] == ':'
    &&& {
        let d2 = run_end(s, d1 + 1, CharClass::Digit);
        &&& d2 > d1 + 1
        &&& {
            let w1 = run_end(s, d2, CharClass::Ws);
            &&& w1 > d2
            &&& {
                ||| (lit_ci_at(s, w1, "error"@) && eslint_tail(s, w1 + 5))
                ||| (lit_ci_at(s, w1, "warning"@) && eslint_tail(s, w1 + 7))
            }
        }
    }
}

/// Dispatch: the pattern of `tool` matches at position `i` of a line.
pub open spec fn tool_at(tool: BuildTool, line: Seq<char>, i: int) -> bool {
    match tool {
        BuildTool::TypeScript => ts_at(line, i),
        BuildTool::ESLint => eslint_at(line, i),
        BuildTool::Rust => rust_at(line, i),
        BuildTool::Go => go_at(line, i),
        BuildTool::Python => python_at(line, i),
        BuildTool::Webpack => false,
        BuildTool::Vite => false,
        BuildTool::Generic => generic_at(line, i),
    }
}

/// The pattern of `tool` matches somewhere on the line.
pub open spec fn line_match(tool: BuildTool, line: Seq<char>) -> bool {
    exists|i: int| 0 <= i < line.len() && #[trigger] tool_at(tool, line, i)
}

/// Number of lines on which the pattern of `tool` matches.
pub open spec fn count_matched(lines: Seq<Seq<char>>, tool: BuildTool) -> nat
    decreases lines.len(),
{
    if lines.len() == 0 {
        0
    } else {
        (if line_match(tool, lines[0]) {
            1nat
        } else {
            0
        }) + count_matched(lines.drop_first(), tool)
    }
}

/// Number of lines of the text on which the pattern of `tool` matches; this
/// is the tool's error count.
pub open spec fn spec_error_count(s: Seq<char>, tool: BuildTool) -> nat {
    count_matched(spec_lines(s), tool)
}

/// Appending one line extends the matched-line count by that line's match.
pub proof fn lemma_count_matched_snoc(lines: Seq<Seq<char>>, x: Seq<char>, tool: BuildTool)
    ensures
        count_matched(lines.push(x), tool) == count_matched(lines, tool) + (
        if line_match(tool, x) {
            1nat
        } else {
            0
        }),
    decreases lines.len(),
{
    if lines.len() == 0 {
        assert(lines.push(x).drop_first() =~= Seq::<Seq<char>>::empty());
        assert(lines.push(x)[0] == x);
        assert(count_matched(lines.push(x).drop_first(), tool) == 0);
        assert(count_matched(lines, tool) == 0);
        assert(count_matched(lines.push(x), tool) == (if line_match(tool, x) {
            1nat
        } else {
            0
        }) + count_matched(lines.push(x).drop_first(), tool));
    } else {
        assert(lines.push(x).drop_first() =~= lines.drop_first().push(x));
        assert(lines.push(x)[0] == lines[0]);
        lemma_count_matched_snoc(lines.drop_first(), x, tool);
    }
}

/// Executable match of one tool's pattern at one position of a line.
fn tool_at_exec(line: &Vec<char>, i: usize, tool: BuildTool) -> (b: bool)
    requires
        i < line@.len(),
    ensures
        b == tool_at(tool, line@, i as int),
{
    match tool {
        BuildTool::TypeScript => ts_at_exec(line, i),
        BuildTool::ESLint => eslint_at_exec(line, i),
        BuildTool::Rust => rust_at_exec(line, i),
        BuildTool::Go => go_at_exec(line, i),
        BuildTool::Python => python_at_exec(line, i),
        BuildTool::Webpack => false,
        BuildTool::Vite => false,
        BuildTool::Generic => generic_at_exec(line, i),
    }
}

fn ts_at_exec(line: &Vec<char>, i: usize) -> (b: bool)
    requires
        i < line@.len(),
    ensures
        b == ts_at(line@, i as int),
{
    proof {
        reveal_strlit("error");
        reveal_strlit("ts");
    }
    let len = line.len();
    if lit_ci_at_exec(line, i, "error") {
        let j = run_end_exec(line, i + 5, CharClass::Ws);
        if j > i + 5 && lit_ci_at_exec(line, j, "ts") && line.len() - j >= 7 {
            let code = in_class_exec(CharClass::Digit, line[j + 2]) && in_class_exec(
                CharClass::Digit,
                line[j + 3],
            ) && in_class_exec(CharClass::Digit, line[j + 4]) && in_class_exec(
                CharClass::Digit,
                line[j + 5],
            ) && line[j + 6] == ':';
            if code {
                return true;
            }
        }
    }
    lit_ci_at_exec(line, i, "cannot find name") || lit_ci_at_exec(line, i, "cannot find module")
        || lit_ci_at_exec(line, i, "has no exported member")
}

fn rust_at_exec(line: &Vec<char>, i: usize) -> (b: bool)
    requires
        i < line@.len(),
    ensures
        b == rust_at(line@, i as int),
{
    proof {
        reveal_strlit("error[e");
    }
    if lit_ci_at_exec(line, i, "error[e") && line.len() - i >= 13 {
        let code = in_class_exec(CharClass::Digit, line[i + 7]) && in_class_exec(
            CharClass::Digit,
            line[i + 8],
        ) && in_class_exec(CharClass::Digit, line[i + 9]) && in_class_exec(
            CharClass::Digit,
            line[i + 10],
        ) && line[i + 11] == ']' && line[i + 12] == ':';
        if code {
            return true;
        }
    }
    lit_ci_at_exec(line, i, "cannot find value") || lit_ci_at_exec(line, i, "cannot find type")
        || lit_ci_at_exec(line, i, "cannot find crate")
}

fn go_at_exec(line: &Vec<char>, i: usize) -> (b: bool)
    requires
        i < line@.len(),
    ensures
        b == go_at(line@, i as int),
{
    lit_ci_at_exec(line, i, "undefined:") || lit_ci_at_exec(line, i, "cannot find package")
        || lit_ci_at_exec(line, i, "syntax error")
}

fn python_at_exec(line: &Vec<char>, i: usize) -> (b: bool)
    requires
        i < line@.len(),
    ensures
        b == python_at(line@, i as int),
{
    lit_ci_at_exec(line, i, "nameerror:") || lit_ci_at_exec(line, i, "importerror:")
        || lit_ci_at_exec(line, i, "syntaxerror:") || lit_ci_at_exec(
        line,
        i,
        "modulenotfounderror:",
    ) || lit_ci_at_exec(line, i, "typeerror:")
}

/// Executable keyword-with-trail match.
fn word_trail_exec(line: &Vec<char>, i: usize, w: &str) -> (b: bool)
    requires
        i < line@.len(),
    ensures
        b == word_trail(line@, i as int, w@),
{
    let len = line.len();
    if !lit_ci_at_exec(line, i, w) {
        return false;
    }
    let n = w.unicode_len();
    let j = i + n;
    j >= len || in_class_exec(CharClass::Ws, line[j]) || line[j] == ':'
}

fn generic_at_exec(line: &Vec<char>, i: usize) -> (b: bool)
    requires
        i < line@.len(),
    ensures
        b == generic_at(line@, i as int),
{
    if i != 0 && !in_class_exec(CharClass::Ws, line[i - 1]) {
        return false;
    }
    word_trail_exec(line, i, "error") || word_trail_exec(line, i, "failed")
        || word_trail_exec(line, i, "cannot") || word_trail_exec(line, i, "unexpected")
        || word_trail_exec(line, i, "compilation failed")
}

fn eslint_at_exec(line: &Vec<char>, i: usize) -> (b: bool)
    requires
        i < line@.len(),
    ensures
        b == eslint_at(line@, i as int),
{
    proof {
        reveal_strlit("error");
        reveal_strlit("warning");
    }
    let len = line.len();
    let d1 = run_end_exec(line, i, CharClass::Digit);
    if d1 == i || d1 == line.len() || line[d1] != ':' {
        return false;
    }
    let d2 = run_end_exec(line, d1 + 1, CharClass::Digit);
    if d2 == d1 + 1 {
        return false;
    }
    let w1 = run_end_exec(line, d2, CharClass::Ws);
    if w1 == d2 {
        return false;
    }
    if lit_ci_at_exec(line, w1, "error") && eslint_tail_exec(line, w1 + 5) {
        return true;
    }
    if lit_ci_at_exec(line, w1, "warning") && eslint_tail_exec(line, w1 + 7) {
        return true;
    }
    false
}

fn eslint_tail_exec(line: &Vec<char>, kw_end: usize) -> (b: bool)
    requires
        kw_end <= line@.len(),
    ensures
        b == eslint_tail(line@, kw_end as int),
{
    let len = line.len();
    let w2 = run_end_exec(line, kw_end, CharClass::Ws);
    if w2 == kw_end {
        return false;
    }
    if w2 >= len - 1 {
        proof {
            assert forall|q: int| #[trigger] eslint_slash_at(line@, w2 as int, q) implies false by {
                if q > w2 {
                    assert(q + 1 >= len);
                }
            }
        }
        return false;
    }
    let mut m: usize = w2 + 1;
    let mut seen_ws: bool = false;
    while m < len - 1
        invariant
            w2 + 1 <= m <= len,
            len >= 1,
            len == line@.len(),
            w2 < len,
            kw_end < w2,
            w2 == run_end(line@, kw_end as int, CharClass::Ws),
            seen_ws == exists|w: int| w2 < w < m && is_ws(#[trigger] line@[w]),
            forall|q: int| w2 < q < m ==> !eslint_slash_at(line@, w2 as int, q),
        decreases len - m,
    {
        if line[m] == '/' && seen_ws && !in_class_exec(CharClass::Ws, line[m - 1])
            && !in_class_exec(CharClass::Ws, line[m + 1]) {
            assert(eslint_slash_at(line@, w2 as int, m as int));
            return true;
        }
        proof {
            if is_ws(line@[m as int]) {
                assert(w2 < m < m + 1 && is_ws(line@[m as int]));
            }
        }
        seen_ws = seen_ws || in_class_exec(CharClass::Ws, line[m]);
        m += 1;
    }
    proof {
        assert forall|q: int| eslint_slash_at(line@, w2 as int, q) implies false by {
            if q + 1 < len && q >= m {
                assert(false);
            } else if q < m {
                if q <= w2 {
                    let w = choose|w: int| w2 < w < q && is_ws(#[trigger] line@[w]);
                    assert(false);
                }
            }
        }
    }
    false
}

/// The pattern of `tool` matches somewhere on the line.
fn line_match_exec(line: &Vec<char>, tool: BuildTool) -> (b: bool)
    ensures
        b == line_match(tool, line@),
{
    let mut i: usize = 0;
    while i < line.len()
        invariant
            i <= line@.len(),
            forall|j: int| 0 <= j < i ==> !#[trigger] tool_at(tool, line@, j),
        decreases line@.len() - i,
    {
        if tool_at_exec(line, i, tool) {
            return true;
        }
        i += 1;
    }
    false
}

/// Number of lines on which the pattern of `tool` matches.
pub fn count_matching_lines(ls: &Vec<Vec<char>>, tool: BuildTool) -> (n: usize)
    ensures
        n == count_matched(lines_view(ls@), tool),
{
    let mut n: usize = 0;
    let mut i: usize = 0;
    while i < ls.len()
        invariant
            i <= ls@.len(),
            n <= i,
            n == count_matched(lines_view(ls@.subrange(0, i as int)), tool),
        decreases ls@.len() - i,
    {
        proof {
            assert(ls@.subrange(0, i + 1) =~= ls@.subrange(0, i as int).push(ls@[i as int]));
            assert(lines_view(ls@.subrange(0, i as int).push(ls@[i as int])) =~= lines_view(
                ls@.subrange(0, i as int),
            ).push(ls@[i as int]@));
            lemma_count_matched_snoc(lines_view(ls@.subrange(0, i as int)), ls@[i as int]@, tool);
        }
        if line_match_exec(&ls[i], tool) {
            n += 1;
        }
        i += 1;
    }
    proof {
        assert(ls@.subrange(0, ls@.len() as int) =~= ls@);
    }
    n
}

/// The pattern of `tool` matches somewhere in the text.
pub fn pattern_matches(text: &str, tool: BuildTool) -> (b: bool)
    ensures
        b == (spec_error_count(text@, tool) > 0),
{
    let v = chars_of(text);
    let ls = split_lines(&v);
    count_matching_lines(&ls, tool) > 0
}

// ---------------------------------------------------------------------------
// File-read transcripts
// ---------------------------------------------------------------------------

/// Length of the file extension recognised at position `i`, trying the
/// catalog's alternatives in order and taking the first that matches.
pub open spec fn ext_len_at(s: Seq<char>, i: int) -> Option<int> {
    if lit_ci_at(s, i, "ts"@) {
        Some(2)
    } else if lit_ci_at(s, i, "js"@) {
        Some(2)
    } else if lit_ci_at(s, i, "tsx"@) {
        Some(3)
    } else if lit_ci_at(s, i, "jsx"@) {
        Some(3)
    } else if lit_ci_at(s, i, "py"@) {
        Some(2)
    } else if lit_ci_at(s, i, "rs"@) {
        Some(2)
    } else if lit_ci_at(s, i, "go"@) {
        Some(2)
    } else if lit_ci_at(s, i, "java"@) {
        Some(4)
    } else if lit_ci_at(s, i, "c"@) {
        Some(1)
    } else if lit_ci_at(s, i, "cpp"@) {
        Some(3)
    } else if lit_ci_at(s, i, "h"@) {
        Some(1)
    } else if lit_ci_at(s, i, "hpp"@) {
        Some(3)
    } else if lit_ci_at(s, i, "md"@) {
        Some(2)
    } else if lit_ci_at(s, i, "json"@) {
        Some(4)
    } else if lit_ci_at(s, i, "yaml"@) {
        Some(4)
    } else if lit_ci_at(s, i, "yml"@) {
        Some(3)
    } else if lit_ci_at(s, i, "toml"@) {
        Some(4)
    } else {
        None
    }
}

/// Executable extension recognition.
fn ext_len_at_exec(v: &Vec<char>, i: usize) -> (r: Option<usize>)
    ensures
        match r {
            Some(l) => ext_len_at(v@, i as int) == Some(l as int) && i + l <= v@.len(),
            None => ext_len_at(v@, i as int) is None,
        },
{
    proof {
        reveal_strlit("ts");
        reveal_strlit("js");
        reveal_strlit("tsx");
        reveal_strlit("jsx");
        reveal_strlit("py");
        reveal_strlit("rs");
        reveal_strlit("go");
        reveal_strlit("java");
        reveal_strlit("c");
        reveal_strlit("cpp");
        reveal_strlit("h");
        reveal_strlit("hpp");
        reveal_strlit("md");
        reveal_strlit("json");
        reveal_strlit("yaml");
        reveal_strlit("yml");
        reveal_strlit("toml");
    }
    if lit_ci_at_exec(v, i, "ts") {
        Some(2)
    } else if lit_ci_at_exec(v, i, "js") {
        Some(2)
    } else if lit_ci_at_exec(v, i, "tsx") {
        Some(3)
    } else if lit_ci_at_exec(v, i, "jsx") {
        Some(3)
    } else if lit_ci_at_exec(v, i, "py") {
        Some(2)
    } else if lit_ci_at_exec(v, i, "rs") {
        Some(2)
    } else if lit_ci_at_exec(v, i, "go") {
        Some(2)
    } else if lit_ci_at_exec(v, i, "java") {
        Some(4)
    } else if lit_ci_at_exec(v, i, "c") {
        Some(1)
    } else if lit_ci_at_exec(v, i, "cpp") {
        Some(3)
    } else if lit_ci_at_exec(v, i, "h") {
        Some(1)
    } else if lit_ci_at_exec(v, i, "hpp") {
        Some(3)
    } else if lit_ci_at_exec(v, i, "md") {
        Some(2)
    } else if lit_ci_at_exec(v, i, "json") {
        Some(4)
    } else if lit_ci_at_exec(v, i, "yaml") {
        Some(4)
    } else if lit_ci_at_exec(v, i, "yml") {
        Some(3)
    } else if lit_ci_at_exec(v, i, "toml") {
        Some(4)
    } else {
        None
    }
}

/// End of the captured path: scanning down from `d` to just above `t0`, the
/// largest position holding a dot followed by a recognised extension; the
/// result is the position just past that extension.
pub open spec fn last_dot_ext(s: Seq<char>, t0: int, d: int) -> Option<int>
    decreases d - t0,
{
    if d <= t0 {
        None
    } else if s[d] == '.' && ext_len_at(s, d + 1) is Some {
        Some(d + 1 + ext_len_at(s, d + 1)->Some_0)
    } else {
        last_dot_ext(s, t0, d - 1)
    }
}

/// Executable downward scan for the dotted extension.
fn last_dot_ext_exec(v: &Vec<char>, t0: usize, d: usize) -> (r: Option<usize>)
    requires
        d < v@.len(),
    ensures
        match r {
            Some(e) => last_dot_ext(v@, t0 as int, d as int) == Some(e as int) && e <= v@.len(),
            None => last_dot_ext(v@, t0 as int, d as int) is None,
        },
{
    let len = v.len();
    let mut dd: usize = d;
    loop
        invariant
            len == v@.len(),
            dd <= d < v@.len(),
            last_dot_ext(v@, t0 as int, d as int) == last_dot_ext(v@, t0 as int, dd as int),
        ensures
            dd <= d < v@.len(),
            last_dot_ext(v@, t0 as int, d as int) == last_dot_ext(v@, t0 as int, dd as int),
            dd <= t0 || (v@[dd as int] == '.' && ext_len_at(v@, dd + 1) is Some),
        decreases dd,
    {
        if dd <= t0 {
            assert(last_dot_ext(v@, t0 as int, dd as int) is None);
            break;
        }
        if v[dd] == '.' {
            match ext_len_at_exec(v, dd + 1) {
                Some(l) => {
                    assert(last_dot_ext(v@, t0 as int, dd as int) == Some(dd + 1 + l));
                    break;
                },
                None => {},
            }
        }
        dd -= 1;
    }
    if dd <= t0 {
        None
    } else if v[dd] == '.' {
        match ext_len_at_exec(v, dd + 1) {
            Some(l) => Some(dd + 1 + l),
            None => None,
        }
    } else {
        None
    }
}

/// The captured path after a file-read keyword ending at `p`: a separator of
/// colons and whitespace, an optional quote, then the longest token prefix
/// ending in a dot and a recognised extension.
pub open spec fn fr_tail(s: Seq<char>, p: int) -> Option<Seq<char>> {
    let j = run_end(s, p, CharClass::ColonWs);
    if j <= p {
        None
    } else {
        let t0 = if j < s.len() && (s[j] == '"' || s[j] == '\'') {
            j + 1
        } else {
            j
        };
        let t_end = run_end(s, t0, CharClass::PathTok);
        if t_end <= t0 {
            None
        } else {
            match last_dot_ext(s, t0, t_end - 1) {
                Some(e) => Some(s.subrange(t0, e)),
                None => None,
            }
        }
    }
}

/// Executable capture of the separator, optional quote and path.
fn fr_tail_exec(v: &Vec<char>, p: usize) -> (r: Option<(usize, usize)>)
    requires
        p <= v@.len(),
    ensures
        match r {
            Some(range) => fr_tail(v@, p as int) == Some(v@.subrange(range.0 as int, range.1 as int))
                && range.0 <= range.1 <= v@.len(),
            None => fr_tail(v@, p as int) is None,
        },
{
    let len = v.len();
    let j = run_end_exec(v, p, CharClass::ColonWs);
    if j == p {
        return None;
    }
    let t0 = if j < v.len() && (v[j] == '"' || v[j] == '\'') {
        j + 1
    } else {
        j
    };
    let t_end = run_end_exec(v, t0, CharClass::PathTok);
    if t_end == t0 {
        return None;
    }
    match last_dot_ext_exec(v, t0, t_end - 1) {
        Some(e) => {
            proof {
                lemma_last_dot_ext_above(v@, t0 as int, t_end - 1);
            }
            Some((t0, e))
        },
        None => None,
    }
}

/// A recognised extension end lies above the token start.
proof fn lemma_last_dot_ext_above(s: Seq<char>, t0: int, d: int)
    requires
        last_dot_ext(s, t0, d) is Some,
        0 <= t0,
    ensures
        last_dot_ext(s, t0, d)->Some_0 > t0,
    decreases d - t0,
{
    if d <= t0 {
    } else if s[d] == '.' && ext_len_at(s, d + 1) is Some {
    } else {
        lemma_last_dot_ext_above(s, t0, d - 1);
    }
}

/// Whitespace then the word `file`, as the optional tail of the file-read
/// keyword; the result is the position just past `file`.
pub open spec fn ws_file_end(s: Seq<char>, p: int) -> Option<int> {
    let w = run_end(s, p, CharClass::Ws);
    if w > p && lit_ci_at(s, w, "file"@) {
        Some(w + 4)
    } else {
        None
    }
}

fn ws_file_end_exec(v: &Vec<char>, p: usize) -> (r: Option<usize>)
    requires
        p <= v@.len(),
    ensures
        match r {
            Some(e) => ws_file_end(v@, p as int) == Some(e as int) && e <= v@.len(),
            None => ws_file_end(v@, p as int) is None,
        },
{
    proof {
        reveal_strlit("file");
    }
    let len = v.len();
    let w = run_end_exec(v, p, CharClass::Ws);
    if w > p && lit_ci_at_exec(v, w, "file") {
        Some(w + 4)
    } else {
        None
    }
}

/// A file-read transcript at position `i`: one of the keyword forms
/// `Reading file`, `Reading`, `Read file`, `Read`, `file_path` (in that
/// order of preference), followed by a captured path. The result is the path.
pub open spec fn fr_at(s: Seq<char>, i: int) -> Option<Seq<char>> {
    if lit_ci_at(s, i, "reading"@) && ws_file_end(s, i + 7) is Some && fr_tail(
        s,
        ws_file_end(s, i + 7)->Some_0,
    ) is Some {
        fr_tail(s, ws_file_end(s, i + 7)->Some_0)
    } else if lit_ci_at(s, i, "reading"@) && fr_tail(s, i + 7) is Some {
        fr_tail(s, i + 7)
    } else if lit_ci_at(s, i, "read"@) && ws_file_end(s, i + 4) is Some && fr_tail(
        s,
        ws_file_end(s, i + 4)->Some_0,
    ) is Some {
        fr_tail(s, ws_file_end(s, i + 4)->Some_0)
    } else if lit_ci_at(s, i, "read"@) && fr_tail(s, i + 4) is Some {
        fr_tail(s, i + 4)
    } else if lit_ci_at(s, i, "file_path"@) && fr_tail(s, i + 9) is Some {
        fr_tail(s, i + 9)
    } else {
        None
    }
}

/// Executable match of the file-read pattern at one position.
fn fr_at_exec(v: &Vec<char>, i: usize) -> (r: Option<(usize, usize)>)
    requires
        i < v@.len(),
    ensures
        match r {
            Some(range) => fr_at(v@, i as int) == Some(v@.subrange(range.0 as int, range.1 as int))
                && range.0 <= range.1 <= v@.len(),
            None => fr_at(v@, i as int) is None,
        },
{
    proof {
        reveal_strlit("reading");
        reveal_strlit("read");
        reveal_strlit("file_path");
    }
    let len = v.len();
    if lit_ci_at_exec(v, i, "reading") {
        match ws_file_end_exec(v, i + 7) {
            Some(e) => {
                match fr_tail_exec(v, e) {
                    Some(range) => {
                        return Some(range);
                    },
                    None => {},
                }
            },
            None => {},
        }
        match fr_tail_exec(v, i + 7) {
            Some(range) => {
                return Some(range);
            },
            None => {},
        }
    }
    if lit_ci_at_exec(v, i, "read") {
        match ws_file_end_exec(v, i + 4) {
            Some(e) => {
                match fr_tail_exec(v, e) {
                    Some(range) => {
                        return Some(range);
                    },
                    None => {},
                }
            },
            None => {},
        }
        match fr_tail_exec(v, i + 4) {
            Some(range) => {
                return Some(range);
            },
            None => {},
        }
    }
    if lit_ci_at_exec(v, i, "file_path") {
        match fr_tail_exec(v, i + 9) {
            Some(range) => {
                return Some(range);
            },
            None => {},
        }
    }
    None
}

/// The first file-read capture at or after position `i`.
pub open spec fn fr_first_from(s: Seq<char>, i: int) -> Option<Seq<char>>
    decreases s.len() - i,
    when 0 <= i
{
    if i >= s.len() {
        None
    } else if fr_at(s, i) is Some {
        fr_at(s, i)
    } else {
        fr_first_from(s, i + 1)
    }
}

/// The path captured by the first file-read transcript in the text, if any.
pub open spec fn spec_file_read(s: Seq<char>) -> Option<Seq<char>> {
    fr_first_from(s, 0)
}

/// Executable scan for the first file-read capture.
pub fn find_file_read(v: &Vec<char>) -> (r: Option<(usize, usize)>)
    ensures
        match r {
            Some(range) => spec_file_read(v@) == Some(
                v@.subrange(range.0 as int, range.1 as int),
            ) && range.0 <= range.1 <= v@.len(),
            None => spec_file_read(v@) is None,
        },
{
    let mut i: usize = 0;
    while i < v.len()
        invariant
            i <= v@.len(),
            spec_file_read(v@) == fr_first_from(v@, i as int),
        decreases v@.len() - i,
    {
        match fr_at_exec(v, i) {
            Some(range) => {
                return Some(range);
            },
            None => {},
        }
        i += 1;
    }
    None
}

/// The path captured by the first file-read transcript in `text`, if any.
pub fn file_read_capture(text: &str) -> (r: Option<String>)
    ensures
        match r {
            Some(p) => spec_file_read(text@) == Some(p@),
            None => spec_file_read(text@) is None,
        },
{
    let v = chars_of(text);
    match find_file_read(&v) {
        Some((a, b)) => Some(crate::text::string_from_range(&v, a, b)),
        None => None,
    }
}

} // verus!
