//! Trusted boundary around the regex engine.  A `CompiledRegex` pairs the
//! compiled program with the pattern text it came from; every contract
//! about matching speaks of that pattern text through named results.

use vstd::prelude::*;

verus! {

/// Whether the regex engine accepts this pattern (what `Regex::new`
/// succeeds on).
pub uninterp spec fn regex_valid(pattern: Seq<char>) -> bool;

/// What `Regex::captures` returns for a pattern and a haystack: `None` when
/// the pattern does not match, else the text of every capture group in
/// order (group 0 the whole match), with `None` for a group that took no
/// part in the match.
pub uninterp spec fn captures_of(pattern: Seq<char>, haystack: Seq<char>) -> Option<
    Seq<Option<Seq<char>>>,
>;

/// What `Regex::find_iter` returns for a pattern and a haystack: the
/// successive non-overlapping leftmost matches, as half-open byte ranges.
pub uninterp spec fn find_all_of(pattern: Seq<char>, haystack: Seq<char>) -> Seq<(int, int)>;

/// Whether the pattern matches somewhere in the haystack.  `is_match` is
/// documented to be true exactly when `captures` would return a match.
pub open spec fn matches_of(pattern: Seq<char>, haystack: Seq<char>) -> bool {
    captures_of(pattern, haystack) is Some
}

/// The `regex::Regex` type, carried opaquely inside `CompiledRegex`.
#[verifier::external_type_specification]
#[verifier::external_body]
pub struct ExRegex(regex::Regex);

/// A compiled regex together with the pattern it was compiled from.
/// Values arise only from compilation, so the two always agree.
pub struct CompiledRegex {
    inner: regex::Regex,
    source: String,
}

impl CompiledRegex {
    /// The pattern this regex was compiled from.
    pub closed spec fn pattern(&self) -> Seq<char> {
        self.source@
    }

    /// The pattern text.
    pub fn source(&self) -> (r: &str)
        ensures
            r@ == self.pattern(),
    {
        self.source.as_str()
    }
}

/// Relies on `regex::Regex::new`: it compiles exactly the patterns the
/// engine accepts; on failure the error is rendered to its display text.
/// The compiled value is stored beside the pattern it came from.
#[verifier::external_body]
fn regex_new(pattern: &str) -> (r: Result<CompiledRegex, String>)
    ensures
        r is Ok <==> regex_valid(pattern@),
        match r {
            Ok(c) => c.pattern() == pattern@,
            Err(_) => true,
        },
{
    match regex::Regex::new(pattern) {
        Ok(re) => Ok(CompiledRegex { inner: re, source: pattern.to_string() }),
        Err(e) => Err(e.to_string()),
    }
}

/// Compile a pattern, or report the engine's error text.
pub fn compile_pattern(pattern: &str) -> (r: Result<CompiledRegex, String>)
    ensures
        r is Ok <==> regex_valid(pattern@),
        match r {
            Ok(c) => c.pattern() == pattern@,
            Err(_) => true,
        },
{
    regex_new(pattern)
}

/// Relies on `regex::Regex::clone`: the clone shares the compiled program,
/// so it matches identically; the stored pattern is cloned with it.
#[verifier::external_body]
pub fn duplicate_regex(re: &CompiledRegex) -> (r: CompiledRegex)
    ensures
        r.pattern() == re.pattern(),
{
    CompiledRegex { inner: re.inner.clone(), source: re.source.clone() }
}

/// Relies on `regex::Regex::captures`: the leftmost match's capture groups,
/// a function of the pattern and the haystack alone.  Group 0 is the whole
/// match and always participates.
#[verifier::external_body]
pub(crate) fn regex_captures(re: &CompiledRegex, haystack: &str) -> (r: Option<Vec<Option<String>>>)
    ensures
        r.deep_view() == captures_of(re.pattern(), haystack@),
        match r {
            Some(groups) => groups@.len() >= 1 && groups@[0] is Some,
            None => true,
        },
{
    re.inner.captures(haystack).map(
        |caps| caps.iter().map(|m| m.map(|mm| mm.as_str().to_string())).collect(),
    )
}

/// Relies on `regex::Regex::is_match`: true exactly when the pattern
/// matches somewhere, i.e. when `captures` would return a match.
#[verifier::external_body]
pub(crate) fn regex_is_match(re: &CompiledRegex, haystack: &str) -> (r: bool)
    ensures
        r == matches_of(re.pattern(), haystack@),
{
    re.inner.is_match(haystack)
}

/// Relies on `regex::Regex::find_iter`: the successive non-overlapping
/// leftmost match ranges, in byte offsets, a function of the pattern and
/// the haystack alone.
#[verifier::external_body]
pub(crate) fn regex_find_all(re: &CompiledRegex, haystack: &str) -> (r: Vec<(usize, usize)>)
    ensures
        r@.map_values(|p: (usize, usize)| (p.0 as int, p.1 as int)) == find_all_of(
            re.pattern(),
            haystack@,
        ),
{
    re.inner.find_iter(haystack).map(|m| (m.start(), m.end())).collect()
}

} // verus!
