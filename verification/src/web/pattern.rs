//! Regular expressions as matchers use them.
//!
//! A pattern is compiled once, when a matcher is built, and searched on every
//! request. Compiling and searching are the work of the `regex` crate; what a
//! search finds is named here so that the matchers' contracts can speak of it.

use regex::Regex;
use vstd::prelude::*;

verus! {

/// `regex::Regex`: a compiled regular expression. Nothing of its inside is
/// known here.
#[verifier::external_type_specification]
#[verifier::external_body]
pub struct ExRegex(regex::Regex);

/// `regex::Error`: why `regex` did not compile a text.
#[verifier::external_type_specification]
#[verifier::external_body]
pub struct ExRegexError(regex::Error);

/// Whether the regular expression written as `pattern` finds a match anywhere
/// in `haystack`.
pub uninterp spec fn regex_matches(pattern: Seq<char>, haystack: Seq<char>) -> bool;

/// Why a text is no pattern.
#[derive(Debug, Clone, Copy, PartialEq, Eq, Structural)]
pub enum PatternError {
    /// The regular expression does not compile: its syntax is wrong, or the
    /// compiled program would be larger than the crate's limit.
    Rejected,
}

/// A compiled regular expression together with the text it was compiled
/// from.
#[derive(Debug)]
pub struct Pattern {
    source: String,
    compiled: Regex,
}

impl View for Pattern {
    type V = Seq<char>;

    closed spec fn view(&self) -> Seq<char> {
        self.source@
    }
}

/// `regex::Regex::new`: compiles `source` with the crate's default options
/// and keeps the text beside the result. Whether a text compiles is the
/// crate's decision and nothing is claimed of it; a pattern that comes back
/// is a pattern of `source`.
#[verifier::external_body]
fn compile(source: &str) -> (r: Result<Pattern, regex::Error>)
    ensures
        r matches Ok(p) ==> p@ == source@,
{
    match Regex::new(source) {
        Ok(compiled) => Ok(Pattern { source: source.to_owned(), compiled }),
        Err(e) => Err(e),
    }
}

/// `regex::Regex::is_match` on the compiled expression: `true` if and only
/// if there is a match anywhere in `haystack`. The expression was compiled
/// from the pattern's text with default options, so the answer depends on
/// that text and the haystack alone.
#[verifier::external_body]
fn search(pattern: &Pattern, haystack: &str) -> (r: bool)
    ensures
        r == regex_matches(pattern@, haystack@),
{
    pattern.compiled.is_match(haystack)
}

impl Pattern {
    /// Compiles a regular expression. Which texts compile is for `regex` to
    /// say, and by a limit on memory, so not the same on every machine. A
    /// pattern that is returned is the pattern of `source`; `from_compiled`
    /// says what becomes of either answer.
    pub fn new(source: &str) -> (r: Result<Pattern, PatternError>)
        ensures
            r matches Ok(p) ==> p@ == source@,
    {
        Pattern::from_compiled(compile(source))
    }

    /// What compiling gave, as this library hands it on: the pattern where
    /// there is one, and otherwise the one error that a text can have.
    pub fn from_compiled(compiled: Result<Pattern, regex::Error>) -> (r: Result<
        Pattern,
        PatternError,
    >)
        ensures
            compiled matches Ok(p) ==> r == Ok::<Pattern, PatternError>(p),
            compiled is Err ==> r == Err::<Pattern, PatternError>(PatternError::Rejected),
    {
        match compiled {
            Ok(p) => Ok(p),
            Err(_) => Err(PatternError::Rejected),
        }
    }

    /// Whether the pattern finds a match anywhere in `haystack`. The search
    /// is not anchored: a pattern that should cover the whole text says so
    /// with `^` and `$`.
    pub fn is_match(&self, haystack: &str) -> (r: bool)
        ensures
            r == regex_matches(self@, haystack@),
    {
        search(self, haystack)
    }

    /// The text that the pattern was compiled from.
    pub fn as_str(&self) -> (r: &str)
        ensures
            r@ == self@,
    {
        self.source.as_str()
    }
}

} // verus!
