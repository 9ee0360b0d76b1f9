//! File-name patterns: the word "any", or a regular expression.
use vstd::prelude::*;

use regex::Regex;

use crate::text::{any_chars, any_word, chars_of, same_chars};

verus! {

#[verifier::external_type_specification]
#[verifier::external_body]
pub struct ExRegex(regex::Regex);

#[verifier::external_type_specification]
#[verifier::external_body]
pub struct ExRegexError(regex::Error);

/// Whether `pattern` is accepted by the regular-expression compiler.
pub uninterp spec fn pattern_compiles(pattern: Seq<char>) -> bool;

/// Whether the expression compiled from `pattern` matches somewhere in `text`.
pub uninterp spec fn pattern_matches(pattern: Seq<char>, text: Seq<char>) -> bool;

/// Relies on `regex::Regex::new`: compiles `pattern`, failing exactly on the patterns
/// it refuses; whether it refuses one depends on the pattern alone.
#[verifier::external_body]
fn compile(pattern: &str) -> (r: Result<Regex, regex::Error>)
    ensures
        r is Ok <==> pattern_compiles(pattern@),
{
    Regex::new(pattern)
}

/// Relies on `regex::Regex::new` and `regex::Regex::is_match`: `None` where the
/// pattern does not compile, else whether the compiled expression matches somewhere
/// in `text`, which depends on the pattern and the text alone.
#[verifier::external_body]
fn pattern_is_match(pattern: &str, text: &str) -> (r: Option<bool>)
    ensures
        r is Some <==> pattern_compiles(pattern@),
        r matches Some(b) ==> b == pattern_matches(pattern@, text@),
{
    Regex::new(pattern).ok().map(|re| re.is_match(text))
}

/// Why a pattern could not be made into a matcher.
pub enum MatcherError {
    /// The pattern is not a valid regular expression; the compiler's message.
    InvalidPattern(String),
}

/// Relies on `ToString` for `regex::Error`: its message.
#[verifier::external_body]
fn error_message(e: &regex::Error) -> (r: String) {
    e.to_string()
}

/// A file-name pattern: either every file, or the files whose path a regular
/// expression matches.
pub struct FileMatcher {
    /// Whether the pattern is the word "any".
    pub any: bool,
    /// The pattern as written.
    pub pattern: String,
}

/// Whether a matcher matches path `s`: always for "any", else where its pattern
/// compiles and matches somewhere in `s`.
pub open spec fn matcher_hit(m: &FileMatcher, s: Seq<char>) -> bool {
    m.any || (pattern_compiles(m.pattern@) && pattern_matches(m.pattern@, s))
}

impl FileMatcher {
    /// A matcher is the word "any", or a pattern that compiles.
    pub open spec fn wf(&self) -> bool {
        self.any || pattern_compiles(self.pattern@)
    }

    /// Whether `s` is matched: always for "any", else by the expression.
    pub fn is_match(&self, s: &str) -> (r: bool)
        ensures
            r == matcher_hit(self, s@),
    {
        if self.any {
            return true;
        }
        match pattern_is_match(self.pattern.as_str(), s) {
            Some(b) => b,
            None => false,
        }
    }

    /// The matcher for `s`: the word "any" matches every file, anything else is
    /// compiled as a regular expression.
    pub fn from(s: String) -> (r: Result<FileMatcher, MatcherError>)
        ensures
            s@ == any_word() ==> r is Ok,
            s@ != any_word() ==> (r is Ok <==> pattern_compiles(s@)),
            r matches Ok(m) ==> m.wf() && m.pattern@ == s@ && (m.any <==> s@ == any_word()),
    {
        let cs = chars_of(s.as_str());
        let any = any_chars();
        if same_chars(&cs, &any) {
            return Ok(FileMatcher { any: true, pattern: s });
        }
        match compile(s.as_str()) {
            Ok(_) => Ok(FileMatcher { any: false, pattern: s }),
            Err(e) => Err(MatcherError::InvalidPattern(error_message(&e))),
        }
    }
}

/// Two matchers built from one pattern give the same answer on every path.
pub proof fn lemma_same_pattern_same_answer(a: &FileMatcher, b: &FileMatcher, s: Seq<char>)
    requires
        a.any == b.any,
        a.pattern@ == b.pattern@,
    ensures
        matcher_hit(a, s) == matcher_hit(b, s),
{
}

} // verus!
