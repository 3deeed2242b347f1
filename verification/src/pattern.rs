//! Exclusion patterns: shell-style globs that are compiled once and then
//! searched for anywhere in a path.

use crate::error::Error;
use vstd::prelude::*;

verus! {

#[verifier::external_type_specification]
#[verifier::external_body]
pub struct ExPattern(yash_fnmatch::Pattern);

/// Why `pattern`, read without backslash escapes, is no well-formed shell
/// pattern: the message of the refusal, or `None` where it is well-formed.
pub uninterp spec fn fnmatch_refusal(pattern: Seq<char>) -> Option<Seq<char>>;

/// Whether `pattern` is a well-formed shell pattern.
pub open spec fn fnmatch_compiles(pattern: Seq<char>) -> bool {
    fnmatch_refusal(pattern) is None
}

/// The byte range of the first place in `text` where the pattern compiled
/// from `pattern` matches, if it matches anywhere.
pub uninterp spec fn fnmatch_find(pattern: Seq<char>, text: Seq<char>) -> Option<(usize, usize)>;

/// An exclusion pattern together with its compiled matcher. Values are only
/// made by [`CompiledPattern::compile`], so the matcher is always the one
/// compiled from the source text that the view shows.
pub struct CompiledPattern {
    source: String,
    matcher: yash_fnmatch::Pattern,
}

impl View for CompiledPattern {
    type V = Seq<char>;

    closed spec fn view(&self) -> Seq<char> {
        self.source@
    }
}

impl DeepView for CompiledPattern {
    type V = Seq<char>;

    open spec fn deep_view(&self) -> Seq<char> {
        self@
    }
}

/// Compiles with `yash_fnmatch::Pattern::parse` over
/// `yash_fnmatch::without_escape(source)`. Whether that succeeds, and with
/// which message it fails, depends on the text alone and is named
/// `fnmatch_refusal`. The value that comes back on success keeps the text
/// beside the matcher; a failure is handed on as the message that the
/// outside error displays.
#[verifier::external_body]
fn parse_pattern(source: &str) -> (parsed: Result<CompiledPattern, String>)
    ensures
        match parsed {
            Ok(pattern) => fnmatch_refusal(source@) is None && pattern@ == source@,
            Err(cause) => fnmatch_refusal(source@) == Some(cause@),
        },
{
    match yash_fnmatch::Pattern::parse(yash_fnmatch::without_escape(source)) {
        Ok(matcher) => Ok(CompiledPattern { source: source.to_owned(), matcher }),
        Err(cause) => Err(cause.to_string()),
    }
}

/// Searches with `yash_fnmatch::Pattern::find`. The range found depends on
/// the pattern's text and the searched text alone and is named `fnmatch_find`.
#[verifier::external_body]
fn find_in(pattern: &CompiledPattern, text: &str) -> (found: Option<(usize, usize)>)
    ensures
        found == fnmatch_find(pattern@, text@),
{
    pattern.matcher.find(text).map(|range| (range.start, range.end))
}

/// Whether the pattern matches some part of the path. A match anywhere
/// counts, not only one of the whole path.
pub open spec fn pattern_matches(pattern: Seq<char>, path: Seq<char>) -> bool {
    fnmatch_find(pattern, path) is Some
}

/// Whether any of the patterns matches some part of the path.
pub open spec fn excluded_by(patterns: Seq<Seq<char>>, path: Seq<char>) -> bool {
    exists|k: int| 0 <= k < patterns.len() && pattern_matches(#[trigger] patterns[k], path)
}

impl CompiledPattern {
    /// Compiles one exclusion pattern. A malformed pattern is an error that
    /// carries the message of the refusal.
    pub fn compile(source: &str) -> (compiled: Result<CompiledPattern, Error>)
        ensures
            match compiled {
                Ok(pattern) => fnmatch_compiles(source@) && pattern@ == source@,
                Err(error) => error matches Error::FNMatchPattern(cause) && fnmatch_refusal(
                    source@,
                ) == Some(cause@),
            },
    {
        match parse_pattern(source) {
            Ok(pattern) => Ok(pattern),
            Err(cause) => Err(Error::FNMatchPattern(cause)),
        }
    }

    /// Tells whether the pattern matches some part of `path`.
    pub fn matches(&self, path: &str) -> (found: bool)
        ensures
            found == pattern_matches(self@, path@),
    {
        find_in(self, path).is_some()
    }
}

/// Tells whether any of the compiled patterns matches some part of `path`.
pub fn is_excluded(matchers: &Vec<CompiledPattern>, path: &str) -> (excluded: bool)
    ensures
        excluded == excluded_by(matchers.deep_view(), path@),
{
    let mut k: usize = 0;
    while k < matchers.len()
        invariant
            k <= matchers.len(),
            forall|j: int|
                0 <= j < k ==> !pattern_matches(#[trigger] matchers.deep_view()[j], path@),
        decreases matchers.len() - k,
    {
        if matchers[k].matches(path) {
            assert(matchers.deep_view()[k as int] == matchers[k as int]@);
            return true;
        }
        assert(matchers.deep_view()[k as int] == matchers[k as int]@);
        k += 1;
    }
    false
}

} // verus!
