//! The compiled regexes of the counting, each kept with the text it was
//! compiled from. Only the functions here make these values, so the text
//! always stands for the compiled regex.
use vstd::prelude::*;
use crate::grep::{escaped, literal_matches};
use grep_regex::{RegexMatcher, RegexMatcherBuilder};
use regex::Regex;

verus! {

/// Whether `RegexMatcherBuilder::new().build` accepts `pattern`: it does
/// unless the pattern is not a regular expression or exceeds the builder's
/// default size limits, which depends on the pattern alone.
pub uninterp spec fn matcher_builds(pattern: Seq<char>) -> bool;

/// Whether `Regex::new` accepts `source`: it does unless the source is not a
/// regular expression or exceeds the default size limits, which depends on
/// the source alone.
pub uninterp spec fn regex_compiles(source: Seq<char>) -> bool;

/// The matcher for the lines that hold any of the patterns: the
/// alternation of the escaped patterns.
pub struct LineMatcher {
    source: String,
    matcher: RegexMatcher,
}

impl LineMatcher {
    /// The regular expression the matcher was built from.
    pub closed spec fn source(&self) -> Seq<char> {
        self.source@
    }

    /// The compiled matcher that this value holds.
    pub closed spec fn compiled(&self) -> RegexMatcher {
        self.matcher
    }

    /// The matcher, for the searcher that reads the files.
    pub fn matcher(&self) -> (m: &RegexMatcher)
        ensures
            *m == self.compiled(),
    {
        &self.matcher
    }
}

/// `RegexMatcherBuilder::new().build` with the default configuration: the
/// line matcher compiled from `source`, kept together with it. It succeeds
/// exactly when the builder accepts the source; nothing is stated of what
/// the compiled matcher matches, which only the searcher uses.
#[verifier::external_body]
pub(crate) fn build_line_matcher(source: String) -> (r: Result<LineMatcher, grep_regex::Error>)
    ensures
        r matches Ok(m) ==> m.source() == source@,
        r is Ok <==> matcher_builds(source@),
{
    match RegexMatcherBuilder::new().build(&source) {
        Ok(matcher) => Ok(LineMatcher { source, matcher }),
        Err(e) => Err(e),
    }
}

/// A literal pattern with the regex that matches it.
pub struct LiteralPattern {
    literal: String,
    source: String,
    regex: Regex,
}

impl LiteralPattern {
    /// The regular expression is the escaped literal.
    #[verifier::type_invariant]
    closed spec fn escapes_literal(self) -> bool {
        self.source@ == escaped(self.literal@)
    }

    /// The text that the pattern matches.
    pub closed spec fn literal(&self) -> Seq<char> {
        self.literal@
    }

    /// The regular expression of the pattern: the escaped literal.
    pub closed spec fn source(&self) -> Seq<char> {
        self.source@
    }

    /// The regular expression of the pattern.
    pub fn source_text(&self) -> (s: String)
        ensures
            s@ == self.source(),
            s@ == escaped(self.literal()),
    {
        proof {
            use_type_invariant(self);
        }
        self.source.clone()
    }
}

/// `Regex::new` on `source`, the escaped `literal`: the regex kept together
/// with the literal and its source. It succeeds exactly when `Regex::new`
/// accepts the source.
#[verifier::external_body]
pub(crate) fn compile_literal(literal: String, source: String) -> (r: Result<LiteralPattern, regex::Error>)
    requires
        source@ == escaped(literal@),
    ensures
        r matches Ok(p) ==> p.literal() == literal@ && p.source() == source@,
        r is Ok <==> regex_compiles(source@),
{
    match Regex::new(&source) {
        Ok(regex) => Ok(LiteralPattern { literal, source, regex }),
        Err(e) => Err(e),
    }
}

/// `Regex::captures_iter(..).count()` on the regex of a literal pattern:
/// the number of successive non-overlapping matches of the literal, which
/// for the empty literal matches at every character boundary (the regex
/// never reports an empty match inside a character). The regex is the one
/// that `compile_literal`, the only maker of a `LiteralPattern`, compiled
/// from the escaped literal.
#[verifier::external_body]
pub(crate) fn count_matches(p: &LiteralPattern, line: &str) -> (n: usize)
    ensures
        n as nat == literal_matches(p.literal(), line@),
{
    p.regex.captures_iter(line).count()
}

} // verus!
