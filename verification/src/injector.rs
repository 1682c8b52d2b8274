//! The injector: decides whether a detected content category warrants a
//! surfaced suggestion, enforcing a minimum interval between suggestions, a
//! repetition window over the recent suggestion kinds, and a per-session cap
//! on prompt reminders.
//!
//! The decision logic is a function of the current clock reading, which every
//! `*_at` method takes as an explicit argument; the methods without the
//! argument read the clock themselves and satisfy the same contracts for
//! whatever the clock returned.

use vstd::prelude::*;

use crate::analyzer::add_sat;
use crate::clock::now_millis;
use crate::patterns::{ContentType, ContentTypeV};
use crate::templates::{
    spec_build_errors_msg, spec_file_read_msg, spec_large_output_msg, spec_prompt_reminder_msg,
    Suggestion, SuggestionType, SuggestionV,
};
use crate::text::{chars_of, lower_char, spec_lower, spec_lower_seq};

verus! {

/// Minimum interval between two surfaced suggestions, in milliseconds.
pub const MIN_INJECTION_INTERVAL_MS: u64 = 5000;

/// Most prompt reminders surfaced per session.
pub const MAX_PROMPT_REMINDERS: usize = 3;

/// On construction and reset the last injection is backdated this far, so
/// that the first suggestion is admissible at once.
pub const STARTUP_BACKDATE_MS: u64 = 60000;

/// How many recent suggestion kinds are retained.
pub const RECENT_TYPES_CAP: usize = 10;

/// How many of the retained kinds the repetition check looks at.
pub const RECENT_WINDOW: usize = 3;

/// Buffer size at which a large output warrants a suggestion.
pub const LARGE_OUTPUT_SUGGEST_THRESHOLD: usize = 10000;

/// Error count at which build errors warrant a suggestion.
pub const BUILD_ERROR_SUGGEST_THRESHOLD: usize = 3;

/// Mathematical image of the injector's state.
pub struct InjectorV {
    pub last_injection_ms: nat,
    pub min_interval_ms: nat,
    pub suggestions_count: nat,
    pub prompt_reminder_count: nat,
    pub enabled: bool,
    pub recent_types: Seq<SuggestionType>,
}

/// Milliseconds elapsed from `last` to `now`, zero if the clock went back.
pub open spec fn spec_elapsed(last: nat, now: nat) -> nat {
    if now >= last {
        (now - last) as nat
    } else {
        0
    }
}

/// The throttle admits an injection: enabled and the minimum interval has
/// passed since the last one.
pub open spec fn spec_can_inject(m: InjectorV, now: nat) -> bool {
    m.enabled && spec_elapsed(m.last_injection_ms, now) >= m.min_interval_ms
}

/// `t` occurs among the last `RECENT_WINDOW` recorded suggestion kinds.
pub open spec fn spec_recently(recent: Seq<SuggestionType>, t: SuggestionType) -> bool {
    recent.subrange(
        if recent.len() <= RECENT_WINDOW as nat {
            0
        } else {
            recent.len() - RECENT_WINDOW as nat
        },
        recent.len() as int,
    ).contains(t)
}

/// `p` ends with `suf`.
pub open spec fn spec_ends_with(p: Seq<char>, suf: Seq<char>) -> bool {
    &&& p.len() >= suf.len()
    &&& forall|k: int| 0 <= k < suf.len() ==> p[p.len() - suf.len() + k] == suf[k]
}

/// A path names a code file: its lowercase form ends in one of the fixed
/// code extensions.
pub open spec fn spec_is_code_file(path: Seq<char>) -> bool {
    let p = spec_lower_seq(path);
    ||| spec_ends_with(p, ".ts"@)
    ||| spec_ends_with(p, ".tsx"@)
    ||| spec_ends_with(p, ".js"@)
    ||| spec_ends_with(p, ".jsx"@)
    ||| spec_ends_with(p, ".py"@)
    ||| spec_ends_with(p, ".rs"@)
    ||| spec_ends_with(p, ".go"@)
    ||| spec_ends_with(p, ".java"@)
    ||| spec_ends_with(p, ".c"@)
    ||| spec_ends_with(p, ".cpp"@)
    ||| spec_ends_with(p, ".h"@)
    ||| spec_ends_with(p, ".hpp"@)
    ||| spec_ends_with(p, ".cs"@)
    ||| spec_ends_with(p, ".rb"@)
    ||| spec_ends_with(p, ".php"@)
    ||| spec_ends_with(p, ".swift"@)
    ||| spec_ends_with(p, ".kt"@)
    ||| spec_ends_with(p, ".scala"@)
    ||| spec_ends_with(p, ".ex"@)
    ||| spec_ends_with(p, ".exs"@)
}

/// The injection policy: whether a category warrants a suggestion now.
pub open spec fn spec_should_inject(m: InjectorV, now: nat, ct: ContentTypeV) -> bool {
    &&& spec_can_inject(m, now)
    &&& match ct {
        ContentTypeV::BuildError { error_count, .. } => error_count
            >= BUILD_ERROR_SUGGEST_THRESHOLD as nat && !spec_recently(
            m.recent_types,
            SuggestionType::BuildErrors,
        ),
        ContentTypeV::LargeOutput { size } => size >= LARGE_OUTPUT_SUGGEST_THRESHOLD as nat
            && !spec_recently(m.recent_types, SuggestionType::LargeOutput),
        ContentTypeV::FileRead { file_path } => spec_is_code_file(file_path) && !spec_recently(
            m.recent_types,
            SuggestionType::FileRead,
        ),
        ContentTypeV::PromptReady => m.prompt_reminder_count < MAX_PROMPT_REMINDERS as nat,
        ContentTypeV::Normal => false,
    }
}

/// The suggestion a category produces once admitted.
pub open spec fn spec_suggestion_for(ct: ContentTypeV) -> SuggestionV {
    match ct {
        ContentTypeV::BuildError { error_count, tool } => SuggestionV {
            suggestion_type: SuggestionType::BuildErrors,
            display_message: spec_build_errors_msg(error_count, tool),
        },
        ContentTypeV::LargeOutput { size } => SuggestionV {
            suggestion_type: SuggestionType::LargeOutput,
            display_message: spec_large_output_msg(size),
        },
        ContentTypeV::FileRead { file_path } => SuggestionV {
            suggestion_type: SuggestionType::FileRead,
            display_message: spec_file_read_msg(file_path),
        },
        ContentTypeV::PromptReady => SuggestionV {
            suggestion_type: SuggestionType::PromptReminder,
            display_message: spec_prompt_reminder_msg(),
        },
        ContentTypeV::Normal => SuggestionV {
            suggestion_type: SuggestionType::PromptReminder,
            display_message: Seq::empty(),
        },
    }
}

/// Recording a produced suggestion: the injection time is remembered, the
/// counter grows, and the kind joins the bounded recent list.
pub open spec fn spec_record(m: InjectorV, now: nat, st: SuggestionType) -> InjectorV {
    let rc = m.recent_types.push(st);
    InjectorV {
        last_injection_ms: now,
        suggestions_count: add_sat(m.suggestions_count, 1),
        recent_types: if rc.len() > RECENT_TYPES_CAP as nat {
            rc.drop_first()
        } else {
            rc
        },
        ..m
    }
}

/// One `generate_suggestion` step at clock reading `now`: the new state and
/// the produced suggestion, `None` when the policy blocks the category.
pub open spec fn spec_generate(m: InjectorV, now: nat, ct: ContentTypeV) -> (
    InjectorV,
    Option<SuggestionV>,
) {
    if !spec_should_inject(m, now, ct) {
        (m, None)
    } else {
        let m1 = if ct is PromptReady {
            InjectorV { prompt_reminder_count: m.prompt_reminder_count + 1, ..m }
        } else {
            m
        };
        let s = spec_suggestion_for(ct);
        (spec_record(m1, now, s.suggestion_type), Some(s))
    }
}

/// The injector state after construction at clock reading `now`.
pub open spec fn spec_new_injector(now: nat) -> InjectorV {
    InjectorV {
        last_injection_ms: if now >= STARTUP_BACKDATE_MS as nat {
            (now - STARTUP_BACKDATE_MS as nat) as nat
        } else {
            0
        },
        min_interval_ms: MIN_INJECTION_INTERVAL_MS as nat,
        suggestions_count: 0,
        prompt_reminder_count: 0,
        enabled: true,
        recent_types: Seq::empty(),
    }
}

/// The view of a produced suggestion, if any.
pub open spec fn opt_suggestion_view(r: Option<Suggestion>) -> Option<SuggestionV> {
    match r {
        Some(s) => Some(s@),
        None => None,
    }
}

/// The pair a `generate_suggestion` call must realise for some clock reading.
pub open spec fn generate_post(
    pre: InjectorV,
    now: nat,
    ct: ContentTypeV,
    post: InjectorV,
    r: Option<SuggestionV>,
) -> bool {
    spec_generate(pre, now, ct) == (post, r)
}

/// Stateful throttle deciding what to surface and when.
pub struct ContextInjector {
    last_injection_ms: u64,
    min_interval_ms: u64,
    suggestions_count: usize,
    prompt_reminder_count: usize,
    enabled: bool,
    recent_types: Vec<SuggestionType>,
}

impl View for ContextInjector {
    type V = InjectorV;

    closed spec fn view(&self) -> InjectorV {
        InjectorV {
            last_injection_ms: self.last_injection_ms as nat,
            min_interval_ms: self.min_interval_ms as nat,
            suggestions_count: self.suggestions_count as nat,
            prompt_reminder_count: self.prompt_reminder_count as nat,
            enabled: self.enabled,
            recent_types: self.recent_types@,
        }
    }
}

impl ContextInjector {
    /// The prompt-reminder cap and the recent-kind bound hold.
    pub open spec fn wf(&self) -> bool {
        &&& self@.prompt_reminder_count <= MAX_PROMPT_REMINDERS as nat
        &&& self@.recent_types.len() <= RECENT_TYPES_CAP as nat
    }

    /// A fresh injector as of clock reading `now_ms`: default interval,
    /// counters at zero, and the throttle backdated so the first suggestion
    /// is admissible.
    pub fn new_at(now_ms: u64) -> (r: Self)
        ensures
            r@ == spec_new_injector(now_ms as nat),
            r.wf(),
    {
        ContextInjector {
            last_injection_ms: if now_ms >= STARTUP_BACKDATE_MS {
                now_ms - STARTUP_BACKDATE_MS
            } else {
                0
            },
            min_interval_ms: MIN_INJECTION_INTERVAL_MS,
            suggestions_count: 0,
            prompt_reminder_count: 0,
            enabled: true,
            recent_types: Vec::new(),
        }
    }

    /// A fresh injector as of the current clock reading.
    pub fn new() -> (r: Self)
        ensures
            exists|now: nat| r@ == spec_new_injector(now),
            r@.min_interval_ms == MIN_INJECTION_INTERVAL_MS as nat,
            r@.suggestions_count == 0,
            r@.prompt_reminder_count == 0,
            r@.enabled,
            r@.recent_types == Seq::<SuggestionType>::empty(),
            r.wf(),
    {
        let now = now_millis();
        let r = Self::new_at(now);
        proof {
            assert(r@ == spec_new_injector(now as nat));
        }
        r
    }

    /// A fresh injector with a custom minimum interval.
    pub fn with_interval(interval_ms: u64) -> (r: Self)
        ensures
            exists|now: nat|
                r@ == (InjectorV {
                    min_interval_ms: interval_ms as nat,
                    ..#[trigger] spec_new_injector(now)
                }),
            r@.min_interval_ms == interval_ms as nat,
            r@.suggestions_count == 0,
            r@.prompt_reminder_count == 0,
            r@.enabled,
            r@.recent_types == Seq::<SuggestionType>::empty(),
            r.wf(),
    {
        let now = now_millis();
        let mut r = Self::new_at(now);
        r.min_interval_ms = interval_ms;
        proof {
            assert(r@ == (InjectorV {
                min_interval_ms: interval_ms as nat,
                ..spec_new_injector(now as nat)
            }));
        }
        r
    }

    /// A fresh injector with a custom minimum interval, as of clock reading
    /// `now_ms`.
    pub fn with_interval_at(interval_ms: u64, now_ms: u64) -> (r: Self)
        ensures
            r@ == (InjectorV {
                min_interval_ms: interval_ms as nat,
                ..spec_new_injector(now_ms as nat)
            }),
            r.wf(),
    {
        let mut r = Self::new_at(now_ms);
        r.min_interval_ms = interval_ms;
        r
    }

    /// Switches suggestion generation on or off.
    pub fn set_enabled(&mut self, enabled: bool)
        ensures
            final(self)@ == (InjectorV { enabled, ..old(self)@ }),
            final(self).wf() == old(self).wf(),
    {
        self.enabled = enabled;
    }

    pub fn is_enabled(&self) -> (b: bool)
        ensures
            b == self@.enabled,
    {
        self.enabled
    }

    /// The throttle admits an injection at clock reading `now_ms`.
    pub fn can_inject_at(&self, now_ms: u64) -> (b: bool)
        ensures
            b == spec_can_inject(self@, now_ms as nat),
    {
        let elapsed = if now_ms >= self.last_injection_ms {
            now_ms - self.last_injection_ms
        } else {
            0
        };
        self.enabled && elapsed >= self.min_interval_ms
    }

    /// The throttle admits an injection at the current clock reading.
    pub fn can_inject(&self) -> (b: bool)
        ensures
            exists|now: nat| b == #[trigger] spec_can_inject(self@, now),
            !self@.enabled ==> !b,
    {
        let now = now_millis();
        let b = self.can_inject_at(now);
        proof {
            assert(b == spec_can_inject(self@, now as nat));
        }
        b
    }

    /// `suggestion_type` occurs among the last `RECENT_WINDOW` recorded
    /// kinds.
    pub fn was_recently_suggested(&self, suggestion_type: &SuggestionType) -> (b: bool)
        ensures
            b == spec_recently(self@.recent_types, *suggestion_type),
    {
        let len = self.recent_types.len();
        let start = if len <= RECENT_WINDOW {
            0
        } else {
            len - RECENT_WINDOW
        };
        let ghost window = self@.recent_types.subrange(start as int, len as int);
        let mut j: usize = start;
        while j < len
            invariant
                start <= j <= len,
                len == self@.recent_types.len(),
                start as int == if self@.recent_types.len() <= RECENT_WINDOW as nat {
                    0int
                } else {
                    self@.recent_types.len() - RECENT_WINDOW as nat
                },
                window == self@.recent_types.subrange(start as int, len as int),
                forall|k: int| start <= k < j ==> self@.recent_types[k] != *suggestion_type,
            decreases len - j,
        {
            if self.recent_types[j] == *suggestion_type {
                proof {
                    assert(window[j - start] == *suggestion_type);
                    assert(window.contains(*suggestion_type));
                }
                return true;
            }
            j += 1;
        }
        proof {
            assert forall|k: int| 0 <= k < window.len() implies window[k] != *suggestion_type by {
                assert(window[k] == self@.recent_types[start + k]);
            }
            assert(!window.contains(*suggestion_type));
        }
        false
    }

    /// The injection policy at clock reading `now_ms`.
    pub fn should_inject_at(&self, now_ms: u64, content_type: &ContentType) -> (b: bool)
        ensures
            b == spec_should_inject(self@, now_ms as nat, content_type@),
    {
        if !self.can_inject_at(now_ms) {
            return false;
        }
        match content_type {
            ContentType::BuildError { error_count, .. } => *error_count
                >= BUILD_ERROR_SUGGEST_THRESHOLD && !self.was_recently_suggested(
                &SuggestionType::BuildErrors,
            ),
            ContentType::LargeOutput { size } => *size >= LARGE_OUTPUT_SUGGEST_THRESHOLD
                && !self.was_recently_suggested(&SuggestionType::LargeOutput),
            ContentType::FileRead { file_path } => Self::is_code_file(file_path.as_str())
                && !self.was_recently_suggested(&SuggestionType::FileRead),
            ContentType::PromptReady => self.prompt_reminder_count < MAX_PROMPT_REMINDERS,
            ContentType::Normal => false,
        }
    }

    /// The injection policy at the current clock reading.
    pub fn should_inject(&self, content_type: &ContentType) -> (b: bool)
        ensures
            exists|now: nat| b == #[trigger] spec_should_inject(self@, now, content_type@),
            content_type@ is Normal ==> !b,
            !self@.enabled ==> !b,
    {
        let now = now_millis();
        let b = self.should_inject_at(now, content_type);
        proof {
            assert(b == spec_should_inject(self@, now as nat, content_type@));
        }
        b
    }

    /// Generates the suggestion for a category at clock reading `now_ms`,
    /// recording it in the state; `None` when the policy blocks it.
    pub fn generate_suggestion_at(&mut self, now_ms: u64, content_type: &ContentType) -> (r:
        Option<Suggestion>)
        requires
            old(self).wf(),
        ensures
            final(self).wf(),
            generate_post(
                old(self)@,
                now_ms as nat,
                content_type@,
                final(self)@,
                opt_suggestion_view(r),
            ),
    {
        if !self.should_inject_at(now_ms, content_type) {
            return None;
        }
        let suggestion: Option<Suggestion> = match content_type {
            ContentType::BuildError { error_count, tool } => Some(
                Suggestion::build_errors(*error_count, *tool),
            ),
            ContentType::LargeOutput { size } => Some(Suggestion::large_output(*size)),
            ContentType::FileRead { file_path } => {
                if Self::is_code_file(file_path.as_str()) {
                    Some(Suggestion::file_read(file_path.as_str()))
                } else {
                    None
                }
            },
            ContentType::PromptReady => {
                self.prompt_reminder_count = self.prompt_reminder_count + 1;
                Some(Suggestion::prompt_reminder())
            },
            ContentType::Normal => None,
        };
        match &suggestion {
            Some(s) => {
                self.last_injection_ms = now_ms;
                self.suggestions_count = crate::analyzer::sat_add_usize(
                    self.suggestions_count,
                    1,
                );
                self.recent_types.push(s.suggestion_type);
                if self.recent_types.len() > RECENT_TYPES_CAP {
                    self.recent_types.remove(0);
                    proof {
                        let rc = old(self)@.recent_types.push(s.suggestion_type);
                        assert(self@.recent_types =~= rc.drop_first());
                    }
                }
            },
            None => {},
        }
        suggestion
    }

    /// Generates the suggestion for a category at the current clock reading.
    pub fn generate_suggestion(&mut self, content_type: &ContentType) -> (r: Option<Suggestion>)
        requires
            old(self).wf(),
        ensures
            final(self).wf(),
            exists|now: nat|
                generate_post(
                    old(self)@,
                    now,
                    content_type@,
                    final(self)@,
                    opt_suggestion_view(r),
                ),
            final(self)@.prompt_reminder_count <= MAX_PROMPT_REMINDERS as nat,
            final(self)@.min_interval_ms == old(self)@.min_interval_ms,
            final(self)@.enabled == old(self)@.enabled,
    {
        let now = now_millis();
        let r = self.generate_suggestion_at(now, content_type);
        proof {
            assert(generate_post(
                old(self)@,
                now as nat,
                content_type@,
                self@,
                opt_suggestion_view(r),
            ));
        }
        r
    }

    /// A path names a code file: case-insensitive match against the fixed
    /// extension set.
    pub fn is_code_file(path: &str) -> (b: bool)
        ensures
            b == spec_is_code_file(path@),
    {
        let v = chars_of(path);
        let p = lower_vec(&v);
        ends_with_exec(&p, ".ts") || ends_with_exec(&p, ".tsx") || ends_with_exec(&p, ".js")
            || ends_with_exec(&p, ".jsx") || ends_with_exec(&p, ".py") || ends_with_exec(&p, ".rs")
            || ends_with_exec(&p, ".go") || ends_with_exec(&p, ".java") || ends_with_exec(&p, ".c")
            || ends_with_exec(&p, ".cpp") || ends_with_exec(&p, ".h") || ends_with_exec(&p, ".hpp")
            || ends_with_exec(&p, ".cs") || ends_with_exec(&p, ".rb") || ends_with_exec(&p, ".php")
            || ends_with_exec(&p, ".swift") || ends_with_exec(&p, ".kt") || ends_with_exec(
            &p,
            ".scala",
        ) || ends_with_exec(&p, ".ex") || ends_with_exec(&p, ".exs")
    }

    /// Total suggestions produced since construction or the last reset.
    pub fn total_suggestions(&self) -> (n: usize)
        ensures
            n == self@.suggestions_count,
    {
        self.suggestions_count
    }

    /// Prompt reminders produced since construction or the last reset; never
    /// more than the cap.
    pub fn prompt_reminders_used(&self) -> (n: usize)
        ensures
            n == self@.prompt_reminder_count,
    {
        self.prompt_reminder_count
    }

    /// Resets the counters and the recent kinds as of clock reading
    /// `now_ms`, backdating the throttle as construction does.
    pub fn reset_at(&mut self, now_ms: u64)
        ensures
            final(self)@ == (InjectorV {
                min_interval_ms: old(self)@.min_interval_ms,
                enabled: old(self)@.enabled,
                ..spec_new_injector(now_ms as nat)
            }),
            final(self).wf(),
    {
        self.suggestions_count = 0;
        self.prompt_reminder_count = 0;
        self.recent_types = Vec::new();
        self.last_injection_ms = if now_ms >= STARTUP_BACKDATE_MS {
            now_ms - STARTUP_BACKDATE_MS
        } else {
            0
        };
    }

    /// Resets the counters and the recent kinds; the interval and the enabled
    /// flag are kept.
    pub fn reset(&mut self)
        ensures
            final(self)@.suggestions_count == 0,
            final(self)@.prompt_reminder_count == 0,
            final(self)@.recent_types == Seq::<SuggestionType>::empty(),
            final(self)@.min_interval_ms == old(self)@.min_interval_ms,
            final(self)@.enabled == old(self)@.enabled,
            final(self).wf(),
    {
        let now = now_millis();
        self.reset_at(now);
    }

    /// Milliseconds until the throttle next admits an injection, at clock
    /// reading `now_ms`; zero when it is already admitted.
    pub fn time_until_next_injection_at(&self, now_ms: u64) -> (r: u64)
        ensures
            r as nat == spec_time_until(self@, now_ms as nat),
    {
        let elapsed = if now_ms >= self.last_injection_ms {
            now_ms - self.last_injection_ms
        } else {
            0
        };
        if elapsed >= self.min_interval_ms {
            0
        } else {
            self.min_interval_ms - elapsed
        }
    }

    /// Milliseconds until the throttle next admits an injection, at the
    /// current clock reading.
    pub fn time_until_next_injection(&self) -> (r: u64)
        ensures
            exists|now: nat| r as nat == #[trigger] spec_time_until(self@, now),
    {
        let now = now_millis();
        let r = self.time_until_next_injection_at(now);
        proof {
            assert(r as nat == spec_time_until(self@, now as nat));
        }
        r
    }
}

impl Default for ContextInjector {
    fn default() -> (r: Self)
        ensures
            exists|now: nat| r@ == spec_new_injector(now),
            r.wf(),
    {
        ContextInjector::new()
    }
}

/// Milliseconds remaining before the minimum interval has passed.
pub open spec fn spec_time_until(m: InjectorV, now: nat) -> nat {
    if spec_elapsed(m.last_injection_ms, now) >= m.min_interval_ms {
        0
    } else {
        (m.min_interval_ms - spec_elapsed(m.last_injection_ms, now)) as nat
    }
}

/// ASCII-lowercases every character of a vector.
fn lower_vec(v: &Vec<char>) -> (r: Vec<char>)
    ensures
        r@ == spec_lower_seq(v@),
{
    let mut r: Vec<char> = Vec::new();
    let mut i: usize = 0;
    while i < v.len()
        invariant
            i <= v@.len(),
            r@.len() == i,
            forall|k: int| 0 <= k < i ==> r@[k] == spec_lower(v@[k]),
        decreases v@.len() - i,
    {
        r.push(lower_char(v[i]));
        i += 1;
    }
    proof {
        assert(r@ =~= spec_lower_seq(v@));
    }
    r
}

/// Executable suffix test against a literal.
fn ends_with_exec(v: &Vec<char>, suf: &str) -> (b: bool)
    ensures
        b == spec_ends_with(v@, suf@),
{
    let n = suf.unicode_len();
    let len = v.len();
    if n > len {
        return false;
    }
    let mut k: usize = 0;
    while k < n
        invariant
            k <= n,
            n <= len,
            n == suf@.len(),
            len == v@.len(),
            forall|m: int| 0 <= m < k ==> v@[len - n + m] == suf@[m],
        decreases n - k,
    {
        if v[len - n + k] != suf.get_char(k) {
            return false;
        }
        k += 1;
    }
    true
}

// ---------------------------------------------------------------------------
// Laws of the throttle
// ---------------------------------------------------------------------------

/// Two produced suggestions are at least the minimum interval apart: if a
/// `generate_suggestion` step at time `t1` produces a suggestion and the next
/// one at time `t2 >= t1` produces one too, then `t2 - t1` is at least the
/// injector's minimum interval.
pub proof fn lemma_min_interval_between_suggestions(
    m0: InjectorV,
    t1: nat,
    ct1: ContentTypeV,
    t2: nat,
    ct2: ContentTypeV,
)
    requires
        t1 <= t2,
        spec_generate(m0, t1, ct1).1 is Some,
        spec_generate(spec_generate(m0, t1, ct1).0, t2, ct2).1 is Some,
    ensures
        t2 - t1 >= m0.min_interval_ms,
{
    let m1 = spec_generate(m0, t1, ct1).0;
    assert(m1.last_injection_ms == t1);
    assert(m1.min_interval_ms == m0.min_interval_ms);
    assert(spec_can_inject(m1, t2));
}

/// The prompt-reminder count never passes its cap: one `generate_suggestion`
/// step preserves the bound, whatever the clock read.
pub proof fn lemma_prompt_reminder_cap(m: InjectorV, now: nat, ct: ContentTypeV)
    requires
        m.prompt_reminder_count <= MAX_PROMPT_REMINDERS as nat,
    ensures
        spec_generate(m, now, ct).0.prompt_reminder_count <= MAX_PROMPT_REMINDERS as nat,
{
}

/// Whether a path counts as a code file depends only on its lowercase form.
pub proof fn lemma_is_code_file_case_insensitive(a: Seq<char>, b: Seq<char>)
    requires
        spec_lower_seq(a) == spec_lower_seq(b),
    ensures
        spec_is_code_file(a) == spec_is_code_file(b),
{
}

/// Whether a path counts as a code file depends only on its last six
/// characters (the longest extension in the set is six characters long).
pub proof fn lemma_is_code_file_suffix_only(a: Seq<char>, b: Seq<char>)
    requires
        a.len() >= 6,
        b.len() >= 6,
        a.subrange(a.len() - 6, a.len() as int) == b.subrange(b.len() - 6, b.len() as int),
    ensures
        spec_is_code_file(a) == spec_is_code_file(b),
{
    assert forall|k: int| 0 <= k < 6 implies #[trigger] a[a.len() - 6 + k] == b[b.len() - 6 + k] by {
        assert(a.subrange(a.len() - 6, a.len() as int)[k] == a[a.len() - 6 + k]);
        assert(b.subrange(b.len() - 6, b.len() as int)[k] == b[b.len() - 6 + k]);
    }
    lemma_ends_with_tail_all(a, b);
}

/// Helper for the suffix law: every extension test agrees on two paths whose
/// last six characters agree.
proof fn lemma_ends_with_tail_all(a: Seq<char>, b: Seq<char>)
    requires
        a.len() >= 6,
        b.len() >= 6,
        forall|k: int| 0 <= k < 6 ==> #[trigger] a[a.len() - 6 + k] == b[b.len() - 6 + k],
    ensures
        spec_is_code_file(a) == spec_is_code_file(b),
{
    reveal_strlit(".ts");
    reveal_strlit(".tsx");
    reveal_strlit(".js");
    reveal_strlit(".jsx");
    reveal_strlit(".py");
    reveal_strlit(".rs");
    reveal_strlit(".go");
    reveal_strlit(".java");
    reveal_strlit(".c");
    reveal_strlit(".cpp");
    reveal_strlit(".h");
    reveal_strlit(".hpp");
    reveal_strlit(".cs");
    reveal_strlit(".rb");
    reveal_strlit(".php");
    reveal_strlit(".swift");
    reveal_strlit(".kt");
    reveal_strlit(".scala");
    reveal_strlit(".ex");
    reveal_strlit(".exs");
    assert forall|k: int| 0 <= k < 6 implies #[trigger] spec_lower_seq(a)[a.len() - 6 + k]
        == spec_lower_seq(b)[b.len() - 6 + k] by {
        assert(spec_lower_seq(a)[a.len() - 6 + k] == spec_lower(a[a.len() - 6 + k]));
    }
    lemma_ends_with_agree(spec_lower_seq(a), spec_lower_seq(b));
}

/// Suffix tests of length at most six agree on two sequences whose last six
/// characters agree.
proof fn lemma_ends_with_agree(p: Seq<char>, q: Seq<char>)
    requires
        p.len() >= 6,
        q.len() >= 6,
        forall|k: int| 0 <= k < 6 ==> #[trigger] p[p.len() - 6 + k] == q[q.len() - 6 + k],
    ensures
        forall|suf: Seq<char>|
            suf.len() <= 6 ==> #[trigger] spec_ends_with(p, suf) == spec_ends_with(q, suf),
{
    assert forall|suf: Seq<char>| suf.len() <= 6 implies #[trigger] spec_ends_with(p, suf)
        == spec_ends_with(q, suf) by {
        if spec_ends_with(p, suf) {
            assert forall|k: int| 0 <= k < suf.len() implies q[q.len() - suf.len() + k]
                == suf[k] by {
                let o = 6 - suf.len() + k;
                assert(p[p.len() - 6 + o] == q[q.len() - 6 + o]);
            }
        }
        if spec_ends_with(q, suf) {
            assert forall|k: int| 0 <= k < suf.len() implies p[p.len() - suf.len() + k]
                == suf[k] by {
                let o = 6 - suf.len() + k;
                assert(p[p.len() - 6 + o] == q[q.len() - 6 + o]);
            }
        }
    }
}

} // verus!

