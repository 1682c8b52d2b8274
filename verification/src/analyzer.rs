//! The stream analyzer: consumes chunks of child output, strips terminal
//! escapes, accumulates a bounded character buffer, estimates tokens, and
//! classifies each chunk into content categories in a fixed priority order.

use vstd::prelude::*;

use crate::buffer::{push_result, spec_min, RingBuffer};
use crate::estimator::{spec_estimate, TokenEstimator};
use crate::patterns::{
    count_matching_lines, find_file_read, prompt_ready_chars, spec_error_count, spec_file_read,
    spec_prompt_ready, spec_strip_ansi, split_lines, strip_ansi_chars, BuildTool, ContentType,
    ContentTypeV,
};
use crate::text::{chars_of, string_from_range};

verus! {

/// Buffer length above which a chunk is flagged as large output.
pub const LARGE_OUTPUT_THRESHOLD: usize = 5000;

/// Capacity of the analyzer's character buffer.
pub const BUFFER_CAPACITY: usize = 50000;

/// How many buffered characters the prompt detector looks back over.
pub const PROMPT_TAIL: usize = 50;

/// Classification of one analyzed chunk.
pub struct AnalysisResult {
    /// Categories recognised in the chunk, in detection order; never empty.
    pub content_types: Vec<ContentType>,
    /// Estimated tokens of this chunk.
    pub token_estimate: usize,
    /// Characters accumulated in the buffer after the chunk.
    pub total_size: usize,
    /// The chunk with ANSI escapes removed.
    pub clean_text: String,
}

/// Mathematical image of an analysis result.
pub struct AnalysisResultV {
    pub content_types: Seq<ContentTypeV>,
    pub token_estimate: nat,
    pub total_size: nat,
    pub clean_text: Seq<char>,
}

impl View for AnalysisResult {
    type V = AnalysisResultV;

    open spec fn view(&self) -> AnalysisResultV {
        AnalysisResultV {
            content_types: self.content_types@.map_values(|ct: ContentType| ct@),
            token_estimate: self.token_estimate as nat,
            total_size: self.total_size as nat,
            clean_text: self.clean_text@,
        }
    }
}

/// Mathematical image of the analyzer's state.
pub struct AnalyzerV {
    pub buffer: Seq<char>,
    pub total_tokens: nat,
    pub error_count: nat,
}

/// Addition capped at the machine word, mirroring saturating accumulation.
pub open spec fn add_sat(a: nat, b: nat) -> nat {
    if a + b > usize::MAX as nat {
        usize::MAX as nat
    } else {
        a + b
    }
}

/// The first build tool, in the fixed priority order, whose pattern matches
/// at least one line of the cleaned chunk, with its matched-line count.
pub open spec fn spec_detect_tool(s: Seq<char>) -> Option<(nat, BuildTool)> {
    if spec_error_count(s, BuildTool::TypeScript) > 0 {
        Some((spec_error_count(s, BuildTool::TypeScript), BuildTool::TypeScript))
    } else if spec_error_count(s, BuildTool::ESLint) > 0 {
        Some((spec_error_count(s, BuildTool::ESLint), BuildTool::ESLint))
    } else if spec_error_count(s, BuildTool::Rust) > 0 {
        Some((spec_error_count(s, BuildTool::Rust), BuildTool::Rust))
    } else if spec_error_count(s, BuildTool::Go) > 0 {
        Some((spec_error_count(s, BuildTool::Go), BuildTool::Go))
    } else if spec_error_count(s, BuildTool::Python) > 0 {
        Some((spec_error_count(s, BuildTool::Python), BuildTool::Python))
    } else if spec_error_count(s, BuildTool::Generic) > 0 {
        Some((spec_error_count(s, BuildTool::Generic), BuildTool::Generic))
    } else {
        None
    }
}

/// The suffix of at most `n` characters of a buffer.
pub open spec fn spec_last_n(b: Seq<char>, n: nat) -> Seq<char> {
    b.subrange(b.len() - spec_min(n, b.len()), b.len() as int)
}

/// One analysis step: what a chunk does to the analyzer's state and what it
/// returns. The chunk is cleaned and pushed into the buffer, tokens are
/// counted, then categories are detected in the fixed order: build errors on
/// the cleaned chunk; a file read; large output by buffer length; prompt
/// readiness on the buffer tail or the cleaned chunk, which clears the
/// buffer. A chunk with no category is `Normal`.
pub open spec fn spec_analyze(pre: AnalyzerV, chunk: Seq<char>) -> (AnalyzerV, AnalysisResultV) {
    let clean = spec_strip_ansi(chunk);
    let buf1 = push_result(pre.buffer, BUFFER_CAPACITY as nat, clean);
    let t = spec_estimate(clean);
    let det = spec_detect_tool(clean);
    let errs = match det {
        Some(nt) => add_sat(pre.error_count, nt.0),
        None => pre.error_count,
    };
    let types1 = match det {
        Some(nt) => seq![ContentTypeV::BuildError { error_count: nt.0, tool: nt.1 }],
        None => Seq::empty(),
    };
    let types2 = types1 + match spec_file_read(clean) {
        Some(p) => seq![ContentTypeV::FileRead { file_path: p }],
        None => Seq::empty(),
    };
    let types3 = types2 + if buf1.len() > LARGE_OUTPUT_THRESHOLD as nat {
        seq![ContentTypeV::LargeOutput { size: buf1.len() }]
    } else {
        Seq::empty()
    };
    let prompt = spec_prompt_ready(spec_last_n(buf1, PROMPT_TAIL as nat)) || spec_prompt_ready(
        clean,
    );
    let types4 = types3 + if prompt {
        seq![ContentTypeV::PromptReady]
    } else {
        Seq::empty()
    };
    let types = if types4.len() == 0 {
        seq![ContentTypeV::Normal]
    } else {
        types4
    };
    let buf2 = if prompt {
        Seq::empty()
    } else {
        buf1
    };
    (
        AnalyzerV { buffer: buf2, total_tokens: add_sat(pre.total_tokens, t), error_count: errs },
        AnalysisResultV {
            content_types: types,
            token_estimate: t,
            total_size: buf2.len(),
            clean_text: clean,
        },
    )
}

/// Incremental classifier over the output stream.
pub struct StreamAnalyzer {
    buffer: RingBuffer,
    token_estimator: TokenEstimator,
    total_tokens: usize,
    error_count: usize,
}

impl View for StreamAnalyzer {
    type V = AnalyzerV;

    closed spec fn view(&self) -> AnalyzerV {
        AnalyzerV {
            buffer: self.buffer@,
            total_tokens: self.total_tokens as nat,
            error_count: self.error_count as nat,
        }
    }
}

impl StreamAnalyzer {
    /// The buffer respects its fixed capacity.
    pub closed spec fn wf(&self) -> bool {
        &&& self.buffer.wf()
        &&& self.buffer.spec_capacity() == BUFFER_CAPACITY as nat
    }

    pub fn new() -> (r: Self)
        ensures
            r@ == (AnalyzerV { buffer: Seq::<char>::empty(), total_tokens: 0 as nat, error_count: 0 as nat }),
            r.wf(),
    {
        StreamAnalyzer {
            buffer: RingBuffer::new(BUFFER_CAPACITY),
            token_estimator: TokenEstimator::new(),
            total_tokens: 0,
            error_count: 0,
        }
    }

    /// Removes ANSI escape sequences from a text.
    pub fn strip_ansi(&self, text: &str) -> (r: String)
        ensures
            r@ == spec_strip_ansi(text@),
    {
        let v = chars_of(text);
        let clean = strip_ansi_chars(&v);
        let n = clean.len();
        let s = string_from_range(&clean, 0, n);
        proof {
            assert(clean@.subrange(0, clean@.len() as int) =~= clean@);
        }
        s
    }

    /// Detects build-tool diagnostics in the cleaned chunk, trying the tools
    /// in the fixed priority order; the first tool with a matching line wins
    /// and its matched-line count is added to the running error count.
    pub fn detect_build_errors(&mut self, text: &str) -> (r: Option<ContentType>)
        ensures
            final(self)@.buffer == old(self)@.buffer,
            final(self)@.total_tokens == old(self)@.total_tokens,
            final(self).wf() == old(self).wf(),
            match spec_detect_tool(text@) {
                Some(nt) => r matches Some(ct) && ct@ == (ContentTypeV::BuildError {
                    error_count: nt.0,
                    tool: nt.1,
                }) && final(self)@.error_count == add_sat(old(self)@.error_count, nt.0),
                None => r is None && final(self)@.error_count == old(self)@.error_count,
            },
    {
        let v = chars_of(text);
        let lines = split_lines(&v);
        let tools = tool_order();
        let mut k: usize = 0;
        while k < tools.len()
            invariant
                k <= tools@.len(),
                tools@ == tool_order_seq(),
                self == old(self),
                forall|j: int| 0 <= j < k ==> spec_error_count(text@, tools@[j]) == 0,
                lines_ok(lines@, text@),
            decreases tools@.len() - k,
        {
            let tool = tools[k];
            let n = count_matching_lines(&lines, tool);
            if n > 0 {
                self.error_count = sat_add_usize(self.error_count, n);
                proof {
                    lemma_detect_order(text@, k as int);
                }
                return Some(ContentType::BuildError { error_count: n, tool });
            }
            k += 1;
        }
        proof {
            assert(spec_detect_tool(text@) is None);
        }
        None
    }

    /// Detects the first file-read transcript in the cleaned chunk.
    pub fn detect_file_read(&self, text: &str) -> (r: Option<ContentType>)
        ensures
            match spec_file_read(text@) {
                Some(p) => r matches Some(ct) && ct@ == (ContentTypeV::FileRead { file_path: p }),
                None => r is None,
            },
    {
        let v = chars_of(text);
        match find_file_read(&v) {
            Some((a, b)) => Some(
                ContentType::FileRead { file_path: string_from_range(&v, a, b) },
            ),
            None => None,
        }
    }

    /// The prompt pattern matches the tail of the buffer or the chunk itself.
    pub fn detect_prompt_ready(&self, text: &str) -> (b: bool)
        ensures
            b == (spec_prompt_ready(spec_last_n(self@.buffer, PROMPT_TAIL as nat))
                || spec_prompt_ready(text@)),
    {
        let tail = self.buffer.last_n(PROMPT_TAIL);
        let tail_chars = chars_of(tail.as_str());
        if prompt_ready_chars(&tail_chars) {
            return true;
        }
        let v = chars_of(text);
        prompt_ready_chars(&v)
    }

    /// Analyzes one chunk: cleans it, accumulates it, and returns the
    /// detected categories together with the token estimate, the buffer
    /// length and the cleaned text. The returned category list is never
    /// empty, and the buffer never exceeds its capacity.
    pub fn analyze(&mut self, chunk: &str) -> (r: AnalysisResult)
        requires
            old(self).wf(),
        ensures
            final(self).wf(),
            final(self)@ == spec_analyze(old(self)@, chunk@).0,
            r@ == spec_analyze(old(self)@, chunk@).1,
            r@.content_types.len() >= 1,
            final(self)@.buffer.len() <= BUFFER_CAPACITY as nat,
    {
        let cv = chars_of(chunk);
        let clean_chars = strip_ansi_chars(&cv);
        let nclean = clean_chars.len();
        let clean_text = string_from_range(&clean_chars, 0, nclean);
        proof {
            assert(clean_chars@.subrange(0, clean_chars@.len() as int) =~= clean_chars@);
        }
        self.buffer.push(clean_text.as_str());
        let token_estimate = self.token_estimator.estimate(clean_text.as_str());
        self.total_tokens = sat_add_usize(self.total_tokens, token_estimate);

        let mut content_types: Vec<ContentType> = Vec::new();
        match self.detect_build_errors(clean_text.as_str()) {
            Some(ct) => {
                content_types.push(ct);
            },
            None => {},
        }
        match self.detect_file_read(clean_text.as_str()) {
            Some(ct) => {
                content_types.push(ct);
            },
            None => {},
        }
        let buffered = self.buffer.len();
        if buffered > LARGE_OUTPUT_THRESHOLD {
            content_types.push(ContentType::LargeOutput { size: buffered });
        }
        if self.detect_prompt_ready(clean_text.as_str()) {
            content_types.push(ContentType::PromptReady);
            self.buffer.clear();
        }
        if content_types.len() == 0 {
            content_types.push(ContentType::Normal);
        }
        let total_size = self.buffer.len();
        proof {
            assert(content_types@.map_values(|ct: ContentType| ct@) =~= spec_analyze(
                old(self)@,
                chunk@,
            ).1.content_types);
        }
        AnalysisResult { content_types, token_estimate, total_size, clean_text }
    }

    /// Total tokens estimated since construction or the last reset.
    pub fn total_tokens(&self) -> (n: usize)
        ensures
            n == self@.total_tokens,
    {
        self.total_tokens
    }

    /// Total build errors detected since construction or the last reset.
    pub fn total_errors(&self) -> (n: usize)
        ensures
            n == self@.error_count,
    {
        self.error_count
    }

    /// Characters currently accumulated in the buffer.
    pub fn buffer_size(&self) -> (n: usize)
        ensures
            n == self@.buffer.len(),
    {
        self.buffer.len()
    }

    /// Clears the buffer and both counters.
    pub fn reset(&mut self)
        requires
            old(self).wf(),
        ensures
            final(self).wf(),
            final(self)@ == (AnalyzerV {
                buffer: Seq::<char>::empty(),
                total_tokens: 0 as nat,
                error_count: 0 as nat,
            }),
    {
        self.buffer.clear();
        self.total_tokens = 0;
        self.error_count = 0;
    }
}

impl Default for StreamAnalyzer {
    fn default() -> (r: Self)
        ensures
            r@ == (AnalyzerV { buffer: Seq::<char>::empty(), total_tokens: 0 as nat, error_count: 0 as nat }),
            r.wf(),
    {
        StreamAnalyzer::new()
    }
}

/// The fixed priority order in which build tools are tried.
pub open spec fn tool_order_seq() -> Seq<BuildTool> {
    seq![
        BuildTool::TypeScript,
        BuildTool::ESLint,
        BuildTool::Rust,
        BuildTool::Go,
        BuildTool::Python,
        BuildTool::Generic,
    ]
}

fn tool_order() -> (r: Vec<BuildTool>)
    ensures
        r@ == tool_order_seq(),
{
    let mut v: Vec<BuildTool> = Vec::new();
    v.push(BuildTool::TypeScript);
    v.push(BuildTool::ESLint);
    v.push(BuildTool::Rust);
    v.push(BuildTool::Go);
    v.push(BuildTool::Python);
    v.push(BuildTool::Generic);
    proof {
        assert(v@ =~= tool_order_seq());
    }
    v
}

/// The lines a vector of line vectors represents are the lines of `s`.
pub open spec fn lines_ok(ls: Seq<Vec<char>>, s: Seq<char>) -> bool {
    crate::patterns::lines_view(ls) == crate::patterns::spec_lines(s)
}

/// If the first `k` tools of the priority order have no matching line and
/// the `k`-th does, detection returns the `k`-th tool with its count.
proof fn lemma_detect_order(s: Seq<char>, k: int)
    requires
        0 <= k < tool_order_seq().len(),
        forall|j: int| 0 <= j < k ==> spec_error_count(s, tool_order_seq()[j]) == 0,
        spec_error_count(s, tool_order_seq()[k]) > 0,
    ensures
        spec_detect_tool(s) == Some(
            (spec_error_count(s, tool_order_seq()[k]), tool_order_seq()[k]),
        ),
{
}

/// Saturating addition on machine words.
pub(crate) fn sat_add_usize(a: usize, b: usize) -> (r: usize)
    ensures
        r as nat == add_sat(a as nat, b as nat),
{
    if a > usize::MAX - b {
        usize::MAX
    } else {
        a + b
    }
}

/// Every analysis yields at least one category.
pub proof fn lemma_analyze_nonempty(pre: AnalyzerV, chunk: Seq<char>)
    ensures
        spec_analyze(pre, chunk).1.content_types.len() >= 1,
{
}

/// The buffer never exceeds its capacity after an analysis step.
pub proof fn lemma_analyze_buffer_bounded(pre: AnalyzerV, chunk: Seq<char>)
    ensures
        spec_analyze(pre, chunk).0.buffer.len() <= BUFFER_CAPACITY as nat,
{
}

/// Classification is deterministic: identical analyzer state and identical
/// input give identical categories, in the same order.
pub proof fn lemma_analyze_deterministic(
    pre1: AnalyzerV,
    chunk1: Seq<char>,
    pre2: AnalyzerV,
    chunk2: Seq<char>,
)
    requires
        pre1 == pre2,
        chunk1 == chunk2,
    ensures
        spec_analyze(pre1, chunk1).1.content_types == spec_analyze(pre2, chunk2).1.content_types,
        spec_analyze(pre1, chunk1) == spec_analyze(pre2, chunk2),
{
}

} // verus!
