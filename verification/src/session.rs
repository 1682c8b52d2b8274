//! The session's computing pipeline: what one read of child output does to
//! the analyzer and the injector, and the result handed back to the caller.
//! The surrounding PTY I/O, locks and scheduling live outside the library;
//! they pass the decoded output in and perform the returned values.

use vstd::prelude::*;

use crate::analyzer::{spec_analyze, AnalyzerV, StreamAnalyzer};
use crate::injector::{spec_generate, ContextInjector, InjectorV};
use crate::patterns::{BuildTool, ContentType, ContentTypeV};
use crate::templates::{decimal_string, spec_decimal};
use crate::text::chars_of;

verus! {

/// What one read of the child's output returns.
pub struct ReadResult {
    /// The raw output, escapes preserved, exactly as decoded.
    pub output: String,
    /// The output with ANSI escapes removed.
    pub clean_output: String,
    /// Display-framed suggestion messages surfaced for this chunk.
    pub suggestions: Vec<String>,
    /// Estimated tokens of the chunk.
    pub token_estimate: u32,
    /// One label per detected category, in detection order.
    pub detected_types: Vec<String>,
    /// Characters accumulated in the analyzer's buffer.
    pub total_size: u32,
}

/// Mathematical image of a read result.
pub struct ReadResultV {
    pub output: Seq<char>,
    pub clean_output: Seq<char>,
    pub suggestions: Seq<Seq<char>>,
    pub token_estimate: nat,
    pub detected_types: Seq<Seq<char>>,
    pub total_size: nat,
}

impl View for ReadResult {
    type V = ReadResultV;

    open spec fn view(&self) -> ReadResultV {
        ReadResultV {
            output: self.output@,
            clean_output: self.clean_output@,
            suggestions: self.suggestions@.map_values(|s: String| s@),
            token_estimate: self.token_estimate as nat,
            detected_types: self.detected_types@.map_values(|s: String| s@),
            total_size: self.total_size as nat,
        }
    }
}

/// The variant name of a build tool, as a label.
pub open spec fn spec_tool_variant(t: BuildTool) -> Seq<char> {
    match t {
        BuildTool::TypeScript => "TypeScript"@,
        BuildTool::ESLint => "ESLint"@,
        BuildTool::Rust => "Rust"@,
        BuildTool::Go => "Go"@,
        BuildTool::Python => "Python"@,
        BuildTool::Webpack => "Webpack"@,
        BuildTool::Vite => "Vite"@,
        BuildTool::Generic => "Generic"@,
    }
}

/// The label of a detected category, rendered with its fields.
pub open spec fn spec_type_label(ct: ContentTypeV) -> Seq<char> {
    match ct {
        ContentTypeV::BuildError { error_count, tool } => "BuildError { error_count: "@
            + spec_decimal(error_count) + ", tool: "@ + spec_tool_variant(tool) + " }"@,
        ContentTypeV::FileRead { file_path } => "FileRead { file_path: \""@ + file_path
            + "\" }"@,
        ContentTypeV::LargeOutput { size } => "LargeOutput { size: "@ + spec_decimal(size)
            + " }"@,
        ContentTypeV::PromptReady => "PromptReady"@,
        ContentTypeV::Normal => "Normal"@,
    }
}

fn tool_variant_name(t: BuildTool) -> (r: &'static str)
    ensures
        r@ == spec_tool_variant(t),
{
    match t {
        BuildTool::TypeScript => "TypeScript",
        BuildTool::ESLint => "ESLint",
        BuildTool::Rust => "Rust",
        BuildTool::Go => "Go",
        BuildTool::Python => "Python",
        BuildTool::Webpack => "Webpack",
        BuildTool::Vite => "Vite",
        BuildTool::Generic => "Generic",
    }
}

/// Renders the label of one detected category.
pub fn content_type_label(ct: &ContentType) -> (r: String)
    ensures
        r@ == spec_type_label(ct@),
{
    let mut s = String::new();
    match ct {
        ContentType::BuildError { error_count, tool } => {
            s.append("BuildError { error_count: ");
            let n = decimal_string(*error_count);
            s.append(n.as_str());
            s.append(", tool: ");
            s.append(tool_variant_name(*tool));
            s.append(" }");
            proof {
                assert(s@ =~= spec_type_label(ct@));
            }
        },
        ContentType::FileRead { file_path } => {
            s.append("FileRead { file_path: \"");
            s.append(file_path.as_str());
            s.append("\" }");
            proof {
                assert(s@ =~= spec_type_label(ct@));
            }
        },
        ContentType::LargeOutput { size } => {
            s.append("LargeOutput { size: ");
            let n = decimal_string(*size);
            s.append(n.as_str());
            s.append(" }");
            proof {
                assert(s@ =~= spec_type_label(ct@));
            }
        },
        ContentType::PromptReady => {
            s.append("PromptReady");
            proof {
                assert(s@ =~= spec_type_label(ct@));
            }
        },
        ContentType::Normal => {
            s.append("Normal");
            proof {
                assert(s@ =~= spec_type_label(ct@));
            }
        },
    }
    s
}

/// Running the injector over a list of detected categories, all at clock
/// reading `now`: the final injector state and the display-framed messages
/// of the suggestions produced, in order.
pub open spec fn spec_generate_all(im: InjectorV, now: nat, cts: Seq<ContentTypeV>) -> (
    InjectorV,
    Seq<Seq<char>>,
)
    decreases cts.len(),
{
    if cts.len() == 0 {
        (im, Seq::empty())
    } else {
        let first = spec_generate(im, now, cts[0]);
        let rest = spec_generate_all(first.0, now, cts.drop_first());
        (
            rest.0,
            (match first.1 {
                Some(sv) => seq!["\n"@ + sv.display_message + "\n"@],
                None => Seq::<Seq<char>>::empty(),
            }) + rest.1,
        )
    }
}

/// What one read does, given the decoded raw output and a clock reading:
/// empty output returns a zeroed result labelled `empty` and changes
/// nothing; otherwise the chunk is analyzed, and, when suggestions are
/// enabled, each detected category is offered to the injector in order.
pub open spec fn spec_process(
    am: AnalyzerV,
    im: InjectorV,
    suggestions_enabled: bool,
    now: nat,
    raw: Seq<char>,
) -> (AnalyzerV, InjectorV, ReadResultV) {
    if raw.len() == 0 {
        (
            am,
            im,
            ReadResultV {
                output: Seq::empty(),
                clean_output: Seq::empty(),
                suggestions: Seq::empty(),
                token_estimate: 0,
                detected_types: seq!["empty"@],
                total_size: 0,
            },
        )
    } else {
        let a = spec_analyze(am, raw);
        let gen = if suggestions_enabled {
            spec_generate_all(im, now, a.1.content_types)
        } else {
            (im, Seq::<Seq<char>>::empty())
        };
        (
            a.0,
            gen.0,
            ReadResultV {
                output: raw,
                clean_output: a.1.clean_text,
                suggestions: gen.1,
                token_estimate: if a.1.token_estimate > u32::MAX as nat {
                    u32::MAX as nat
                } else {
                    a.1.token_estimate
                },
                detected_types: a.1.content_types.map_values(|ct: ContentTypeV| spec_type_label(ct)),
                total_size: a.1.total_size,
            },
        )
    }
}

/// Processes one decoded chunk of child output at clock reading `now_ms`:
/// analyzes it, lets the injector react to each detected category, and
/// assembles the read result.
pub fn process_output(
    analyzer: &mut StreamAnalyzer,
    injector: &mut ContextInjector,
    suggestions_enabled: bool,
    now_ms: u64,
    raw: &str,
) -> (r: ReadResult)
    requires
        old(analyzer).wf(),
        old(injector).wf(),
    ensures
        final(analyzer).wf(),
        final(injector).wf(),
        ({
            let p = spec_process(old(analyzer)@, old(injector)@, suggestions_enabled, now_ms as nat, raw@);
            &&& final(analyzer)@ == p.0
            &&& final(injector)@ == p.1
            &&& r@ == p.2
        }),
{
    if raw.is_empty() {
        let mut detected_types: Vec<String> = Vec::new();
        detected_types.push(String::from_str("empty"));
        let r = ReadResult {
            output: String::new(),
            clean_output: String::new(),
            suggestions: Vec::new(),
            token_estimate: 0,
            detected_types,
            total_size: 0,
        };
        proof {
            assert(r@.detected_types =~= seq!["empty"@]);
            assert(r@.suggestions =~= Seq::<Seq<char>>::empty());
        }
        return r;
    }
    let analysis = analyzer.analyze(raw);
    let ghost cts = analysis@.content_types;
    let mut suggestions: Vec<String> = Vec::new();
    if suggestions_enabled {
        let ghost im0 = injector@;
        let mut i: usize = 0;
        proof {
            assert(cts.subrange(0, cts.len() as int) =~= cts);
        }
        while i < analysis.content_types.len()
            invariant
                i <= analysis.content_types@.len(),
                cts == analysis@.content_types,
                injector.wf(),
                spec_generate_all(im0, now_ms as nat, cts) == {
                    let rest = spec_generate_all(
                        injector@,
                        now_ms as nat,
                        cts.subrange(i as int, cts.len() as int),
                    );
                    (rest.0, suggestions@.map_values(|s: String| s@) + rest.1)
                },
            decreases analysis.content_types@.len() - i,
        {
            let ghost pre = injector@;
            let ghost sugs_pre = suggestions@.map_values(|s: String| s@);
            let produced = injector.generate_suggestion_at(now_ms, &analysis.content_types[i]);
            match produced {
                Some(s) => {
                    suggestions.push(s.format_for_display());
                },
                None => {},
            }
            proof {
                let rem = cts.subrange(i as int, cts.len() as int);
                assert(rem[0] == cts[i as int]);
                assert(rem.drop_first() =~= cts.subrange(i + 1, cts.len() as int));
                assert(suggestions@.map_values(|s: String| s@) =~= sugs_pre + (
                    match spec_generate(pre, now_ms as nat, cts[i as int]).1 {
                        Some(sv) => seq!["\n"@ + sv.display_message + "\n"@],
                        None => Seq::<Seq<char>>::empty(),
                    }));
            }
            i += 1;
        }
        proof {
            assert(cts.subrange(cts.len() as int, cts.len() as int)
                =~= Seq::<ContentTypeV>::empty());
            assert(suggestions@.map_values(|s: String| s@) + Seq::<Seq<char>>::empty()
                =~= suggestions@.map_values(|s: String| s@));
        }
    }
    proof {
        if !suggestions_enabled {
            assert(suggestions@.map_values(|s: String| s@) =~= Seq::<Seq<char>>::empty());
        }
    }
    let mut detected_types: Vec<String> = Vec::new();
    let mut k: usize = 0;
    while k < analysis.content_types.len()
        invariant
            k <= analysis.content_types@.len(),
            cts == analysis@.content_types,
            detected_types@.map_values(|s: String| s@) == cts.subrange(0, k as int).map_values(
                |ct: ContentTypeV| spec_type_label(ct),
            ),
        decreases analysis.content_types@.len() - k,
    {
        let ghost pre_labels = detected_types@.map_values(|s: String| s@);
        detected_types.push(content_type_label(&analysis.content_types[k]));
        proof {
            assert(detected_types@.map_values(|s: String| s@) =~= pre_labels.push(
                spec_type_label(cts[k as int]),
            ));
            assert(cts.subrange(0, k + 1).map_values(|ct: ContentTypeV| spec_type_label(ct))
                =~= cts.subrange(0, k as int).map_values(|ct: ContentTypeV| spec_type_label(ct)).push(
                spec_type_label(cts[k as int]),
            ));
        }
        k += 1;
    }
    proof {
        assert(cts.subrange(0, cts.len() as int) =~= cts);
    }
    let token_estimate: u32 = if analysis.token_estimate > u32::MAX as usize {
        u32::MAX
    } else {
        analysis.token_estimate as u32
    };
    proof {
        crate::analyzer::lemma_analyze_buffer_bounded(old(analyzer)@, raw@);
    }
    let total_size: u32 = analysis.total_size as u32;
    let mut clean_output = String::new();
    clean_output.append(analysis.clean_text.as_str());
    let mut output = String::new();
    output.append(raw);
    proof {
        assert(output@ =~= raw@);
        assert(clean_output@ =~= analysis@.clean_text);
    }
    ReadResult {
        output,
        clean_output,
        suggestions,
        token_estimate,
        detected_types,
        total_size,
    }
}

// ---------------------------------------------------------------------------
// Utilities of the session surface
// ---------------------------------------------------------------------------

/// Estimated tokens of a text: its byte length divided by four, capped at
/// the 32-bit range.
pub fn estimate_tokens(text: String) -> (r: u32)
    ensures
        r as nat == if crate::estimator::spec_estimate(text@) > u32::MAX as nat {
            u32::MAX as nat
        } else {
            crate::estimator::spec_estimate(text@)
        },
{
    let est = crate::estimator::TokenEstimator::new().estimate(text.as_str());
    if est > u32::MAX as usize {
        u32::MAX
    } else {
        est as u32
    }
}

/// A path names a code file: case-insensitive match against the fixed
/// extension set.
pub fn is_code_file(path: String) -> (b: bool)
    ensures
        b == crate::injector::spec_is_code_file(path@),
{
    ContextInjector::is_code_file(path.as_str())
}

/// Removes ANSI escape sequences from a text.
pub fn strip_ansi(text: String) -> (r: String)
    ensures
        r@ == crate::patterns::spec_strip_ansi(text@),
{
    let v = chars_of(text.as_str());
    let clean = crate::patterns::strip_ansi_chars(&v);
    let n = clean.len();
    let s = crate::text::string_from_range(&clean, 0, n);
    proof {
        assert(clean@.subrange(0, clean@.len() as int) =~= clean@);
    }
    s
}

} // verus!
