//! Character-level helpers shared by the pattern matchers and the buffer:
//! conversion between strings and character vectors, character classes,
//! case-insensitive literal matching, and runs of a character class.

use vstd::prelude::*;

verus! {

broadcast use vstd::string::group_string_axioms;

/// Collects the characters of a string slice into a vector.
pub fn chars_of(s: &str) -> (v: Vec<char>)
    ensures
        v@ == s@,
{
    let mut v: Vec<char> = Vec::new();
    for c in it: s.chars()
        invariant
            it.seq() == s@,
            v@ == it.seq().subrange(0, it.index()),
    {
        v.push(c);
    }
    proof {
        assert(v@ =~= s@);
    }
    v
}

/// Whitespace, as the classifier understands it: space, tab, line feed,
/// carriage return, vertical tab and form feed.
pub open spec fn is_ws(c: char) -> bool {
    c == ' ' || c == '\t' || c == '\n' || c == '\r' || c == '\u{b}' || c == '\u{c}'
}

/// Decimal digit.
pub open spec fn is_digit(c: char) -> bool {
    '0' <= c && c <= '9'
}

/// ASCII letter.
pub open spec fn is_ascii_alpha(c: char) -> bool {
    ('a' <= c && c <= 'z') || ('A' <= c && c <= 'Z')
}

/// ASCII lowercase folding; characters outside `A..Z` are unchanged.
pub open spec fn spec_lower(c: char) -> char {
    if 'A' <= c && c <= 'Z' {
        ((c as u8) + 32) as char
    } else {
        c
    }
}

/// Executable ASCII lowercase folding.
pub fn lower_char(c: char) -> (r: char)
    ensures
        r == spec_lower(c),
{
    if 'A' <= c && c <= 'Z' {
        ((c as u8) + 32) as char
    } else {
        c
    }
}

/// ASCII lowercase folding of a whole sequence.
pub open spec fn spec_lower_seq(s: Seq<char>) -> Seq<char> {
    s.map_values(|c: char| spec_lower(c))
}

/// `lit` occurs at position `i` of `s`, compared ASCII-case-insensitively.
pub open spec fn lit_ci_at(s: Seq<char>, i: int, lit: Seq<char>) -> bool {
    &&& 0 <= i
    &&& i + lit.len() <= s.len()
    &&& forall|k: int| 0 <= k < lit.len() ==> spec_lower(s[i + k]) == spec_lower(lit[k])
}

/// Executable case-insensitive literal match at a position.
pub fn lit_ci_at_exec(v: &Vec<char>, i: usize, lit: &str) -> (b: bool)
    ensures
        b == lit_ci_at(v@, i as int, lit@),
{
    let n = lit.unicode_len();
    let len = v.len();
    if i > len || n > len - i {
        return false;
    }
    let mut k: usize = 0;
    while k < n
        invariant
            k <= n,
            n == lit@.len(),
            len == v@.len(),
            i + n <= len,
            forall|m: int| 0 <= m < k ==> spec_lower(v@[i + m]) == spec_lower(lit@[m]),
        decreases n - k,
    {
        if lower_char(v[i + k]) != lower_char(lit.get_char(k)) {
            return false;
        }
        k += 1;
    }
    true
}

/// Character classes whose maximal runs the matchers scan over.
#[derive(Clone, Copy)]
pub enum CharClass {
    /// Whitespace (`is_ws`).
    Ws,
    /// Decimal digits.
    Digit,
    /// Parameter bytes of a CSI escape sequence: digits and `;`.
    CsiParam,
    /// Body of an OSC escape sequence: anything but BEL and line feed.
    OscBody,
    /// Characters a captured file path may contain: anything but
    /// whitespace and quotes.
    PathTok,
    /// Separator between a file-read keyword and the path: `:` and whitespace.
    ColonWs,
    /// Anything except a line feed.
    NotNl,
    /// ASCII letters.
    AsciiAlpha,
}

/// Membership in a character class.
pub open spec fn in_class(cls: CharClass, c: char) -> bool {
    match cls {
        CharClass::Ws => is_ws(c),
        CharClass::Digit => is_digit(c),
        CharClass::CsiParam => is_digit(c) || c == ';',
        CharClass::OscBody => c != '\u{7}' && c != '\n',
        CharClass::PathTok => !is_ws(c) && c != '"' && c != '\'',
        CharClass::ColonWs => c == ':' || is_ws(c),
        CharClass::NotNl => c != '\n',
        CharClass::AsciiAlpha => is_ascii_alpha(c),
    }
}

/// Executable membership test.
pub fn in_class_exec(cls: CharClass, c: char) -> (b: bool)
    ensures
        b == in_class(cls, c),
{
    match cls {
        CharClass::Ws => c == ' ' || c == '\t' || c == '\n' || c == '\r' || c == '\u{b}' || c
            == '\u{c}',
        CharClass::Digit => '0' <= c && c <= '9',
        CharClass::CsiParam => ('0' <= c && c <= '9') || c == ';',
        CharClass::OscBody => c != '\u{7}' && c != '\n',
        CharClass::PathTok => !(c == ' ' || c == '\t' || c == '\n' || c == '\r' || c == '\u{b}'
            || c == '\u{c}') && c != '"' && c != '\'',
        CharClass::ColonWs => c == ':' || c == ' ' || c == '\t' || c == '\n' || c == '\r' || c
            == '\u{b}' || c == '\u{c}',
        CharClass::NotNl => c != '\n',
        CharClass::AsciiAlpha => ('a' <= c && c <= 'z') || ('A' <= c && c <= 'Z'),
    }
}

/// End of the maximal run of class `cls` starting at `i`: the first position
/// at or after `i` holding a character outside the class, or the end of `s`.
pub open spec fn run_end(s: Seq<char>, i: int, cls: CharClass) -> int
    decreases s.len() - i,
{
    if 0 <= i < s.len() && in_class(cls, s[i]) {
        run_end(s, i + 1, cls)
    } else {
        i
    }
}

/// The run end lies between `i` and the end of `s`, and everything in the
/// run is in the class while the character at the run end (if any) is not.
pub proof fn lemma_run_end(s: Seq<char>, i: int, cls: CharClass)
    requires
        0 <= i <= s.len(),
    ensures
        i <= run_end(s, i, cls) <= s.len(),
        forall|k: int| i <= k < run_end(s, i, cls) ==> in_class(cls, s[k]),
        run_end(s, i, cls) < s.len() ==> !in_class(cls, s[run_end(s, i, cls)]),
    decreases s.len() - i,
{
    if 0 <= i < s.len() && in_class(cls, s[i]) {
        lemma_run_end(s, i + 1, cls);
    }
}

/// Executable scan to the end of a class run.
pub fn run_end_exec(v: &Vec<char>, i: usize, cls: CharClass) -> (r: usize)
    requires
        i <= v@.len(),
    ensures
        r == run_end(v@, i as int, cls),
        i <= r <= v@.len(),
{
    let mut j: usize = i;
    while j < v.len() && in_class_exec(cls, v[j])
        invariant
            i <= j <= v@.len(),
            run_end(v@, i as int, cls) == run_end(v@, j as int, cls),
        decreases v@.len() - j,
    {
        j += 1;
    }
    j
}

/// Relies on `String::push` from std: appends exactly one character.
#[verifier::external_body]
fn char_push_str(s: &mut String, c: char)
    ensures
        final(s)@ == old(s)@.push(c),
{
    s.push(c);
}

/// Appends a single character to a string.
pub fn push_char(s: &mut String, c: char)
    ensures
        final(s)@ == old(s)@.push(c),
{
    char_push_str(s, c);
}

/// Appends the characters of `v` to a string.
pub fn append_chars(s: &mut String, v: &Vec<char>)
    ensures
        final(s)@ == old(s)@ + v@,
{
    let ghost orig = s@;
    let mut i: usize = 0;
    while i < v.len()
        invariant
            i <= v.len(),
            s@ == orig + v@.subrange(0, i as int),
        decreases v.len() - i,
    {
        push_char(s, v[i]);
        proof {
            assert(orig + v@.subrange(0, i + 1) =~= (orig + v@.subrange(0, i as int)).push(
                v@[i as int],
            ));
        }
        i += 1;
    }
    proof {
        assert(orig + v@.subrange(0, v@.len() as int) =~= orig + v@);
    }
}

/// The characters `v[a..b]` as a new string.
pub fn string_from_range(v: &Vec<char>, a: usize, b: usize) -> (s: String)
    requires
        a <= b <= v@.len(),
    ensures
        s@ == v@.subrange(a as int, b as int),
{
    let mut s = String::new();
    let mut i: usize = a;
    while i < b
        invariant
            a <= i <= b <= v@.len(),
            s@ == v@.subrange(a as int, i as int),
        decreases b - i,
    {
        push_char(&mut s, v[i]);
        proof {
            assert(v@.subrange(a as int, i + 1) =~= v@.subrange(a as int, i as int).push(
                v@[i as int],
            ));
        }
        i += 1;
    }
    s
}

} // verus!
