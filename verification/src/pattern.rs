//! Regular-expression matching. The matcher itself is the `regex` crate;
//! this module states what the rest of the library relies on.

use vstd::prelude::*;
use vstd::utf8::*;

verus! {

/// `regex::Regex`, a compiled expression. Nothing is known of what is
/// inside it.
#[verifier::external_type_specification]
#[verifier::external_body]
pub struct ExRegex(regex::Regex);

/// `regex::Error`, the reason why an expression did not compile.
#[verifier::external_type_specification]
#[verifier::external_body]
pub struct ExRegexError(regex::Error);

/// One capture group of one match: its byte span in the haystack and the
/// text it covers.
#[derive(Debug)]
pub struct Capture {
    pub start: usize,
    pub end: usize,
    pub text: String,
}

pub struct CaptureView {
    pub start: usize,
    pub end: usize,
    pub text: Seq<char>,
}

impl View for Capture {
    type V = CaptureView;

    open spec fn view(&self) -> CaptureView {
        CaptureView { start: self.start, end: self.end, text: self.text@ }
    }
}

impl DeepView for Capture {
    type V = CaptureView;

    open spec fn deep_view(&self) -> CaptureView {
        self@
    }
}

/// The groups of one match, group 0 first; a group that took no part in the
/// match is `None`.
pub type Groups = Vec<Option<Capture>>;

pub type GroupsView = Seq<Option<CaptureView>>;

/// Why a pattern could not be compiled.
#[derive(Debug)]
pub enum PatternError {
    /// The pattern is not a well-formed regular expression.
    Syntax(String),
    /// The compiled pattern would exceed the size limit.
    TooBig(usize),
    /// Any other failure.
    Other,
}

/// The pattern text that a compiled expression was built from.
pub uninterp spec fn regex_source(re: regex::Regex) -> Seq<char>;

/// Whether a pattern text compiles.
pub uninterp spec fn regex_compiles(pattern: Seq<char>) -> bool;

/// The groups of the leftmost match of `pattern` in `haystack`, if any.
pub uninterp spec fn regex_captures(pattern: Seq<char>, haystack: Seq<char>) -> Option<GroupsView>;

/// The groups of every successive non-overlapping match of `pattern` in
/// `haystack`, leftmost first.
pub uninterp spec fn regex_captures_iter(pattern: Seq<char>, haystack: Seq<char>) -> Seq<
    GroupsView,
>;

/// A capture lies on character boundaries inside the haystack and its text
/// is the haystack between them.
pub open spec fn capture_within(c: CaptureView, haystack: Seq<char>) -> bool {
    let bytes = encode_utf8(haystack);
    &&& c.start <= c.end <= bytes.len()
    &&& is_char_boundary(bytes, c.start as int)
    &&& is_char_boundary(bytes, c.end as int)
    &&& encode_utf8(c.text) == bytes.subrange(c.start as int, c.end as int)
}

/// Group 0, the whole match, is present, and every present group lies
/// inside the haystack.
pub open spec fn groups_within(g: GroupsView, haystack: Seq<char>) -> bool {
    &&& g.len() >= 1
    &&& g[0] is Some
    &&& forall|k: int| 0 <= k < g.len() && (#[trigger] g[k]) is Some ==> capture_within(g[k]->0, haystack)
}

/// Every match is well formed and no match begins before the one before it
/// has ended.
pub open spec fn matches_within(ms: Seq<GroupsView>, haystack: Seq<char>) -> bool {
    &&& forall|i: int| 0 <= i < ms.len() ==> groups_within(#[trigger] ms[i], haystack)
    &&& forall|i: int, j: int|
        0 <= i < j < ms.len() ==> (#[trigger] ms[i])[0]->0.end <= (#[trigger] ms[j])[0]->0.start
}

/// Compiles a pattern. Trusted: `regex::Regex::new` succeeds or fails as a
/// function of the pattern text alone, and the compiled expression
/// remembers that text.
#[verifier::external_body]
pub(crate) fn compile(pattern: &str) -> (r: Result<regex::Regex, regex::Error>)
    ensures
        r is Ok <==> regex_compiles(pattern@),
        r is Ok ==> regex_source(r->Ok_0) == pattern@,
{
    regex::Regex::new(pattern)
}

/// Tells the variants of `regex::Error` apart.
#[verifier::external_body]
pub(crate) fn error_kind(e: regex::Error) -> PatternError {
    match e {
        regex::Error::Syntax(s) => PatternError::Syntax(s),
        regex::Error::CompiledTooBig(n) => PatternError::TooBig(n),
        _ => PatternError::Other,
    }
}

/// The leftmost match. Trusted: `regex::Regex::captures` is a function of
/// the pattern and the haystack; group 0 is always present; every group's
/// offsets are ordered, fall on character boundaries of the haystack, and
/// delimit the text reported for it.
#[verifier::external_body]
pub(crate) fn first_captures(re: &regex::Regex, haystack: &str) -> (r: Option<Groups>)
    ensures
        r.deep_view() == regex_captures(regex_source(*re), haystack@),
        r is Some ==> groups_within(r.deep_view()->0, haystack@),
{
    re.captures(haystack).map(
        |c|
            c.iter().map(
                |g|
                    g.map(
                        |m|
                            Capture { start: m.start(), end: m.end(), text: m.as_str().to_string() },
                    ),
            ).collect(),
    )
}

/// Every match, leftmost first. Trusted: `regex::Regex::captures_iter` is a
/// function of the pattern and the haystack and yields successive
/// non-overlapping matches, each with the properties stated for
/// `first_captures`.
#[verifier::external_body]
pub(crate) fn all_captures(re: &regex::Regex, haystack: &str) -> (r: Vec<Groups>)
    ensures
        r.deep_view() == regex_captures_iter(regex_source(*re), haystack@),
        matches_within(r.deep_view(), haystack@),
{
    re.captures_iter(haystack).map(
        |c|
            c.iter().map(
                |g|
                    g.map(
                        |m|
                            Capture { start: m.start(), end: m.end(), text: m.as_str().to_string() },
                    ),
            ).collect(),
    ).collect()
}

/// Compiles a pattern, reporting failure in the library's own terms.
pub fn build(pattern: &str) -> (r: Result<regex::Regex, PatternError>)
    ensures
        r is Ok <==> regex_compiles(pattern@),
        r is Ok ==> regex_source(r->Ok_0) == pattern@,
{
    match compile(pattern) {
        Ok(re) => Ok(re),
        Err(e) => Err(error_kind(e)),
    }
}

/// The text of group `k`, if that group took part in the match.
pub open spec fn group_text(g: GroupsView, k: int) -> Option<Seq<char>> {
    if 0 <= k < g.len() && g[k] is Some {
        Some(g[k]->0.text)
    } else {
        None
    }
}

} // verus!
