//! Regular expressions, compiled once and then applied.

use regex::Regex;
use vstd::prelude::*;

verus! {

/// `regex::Regex`: a compiled regular expression.
#[verifier::external_type_specification]
#[verifier::external_body]
pub struct ExRegex(Regex);

/// Whether `regex::Regex::new` accepts `pattern`: it spells a regular
/// expression, and one that is not too large.
pub uninterp spec fn regex_accepts(pattern: Seq<char>) -> bool;

/// What `regex::Regex::replace_all` makes of `haystack` for the regular
/// expression that `pattern` spells: every match, found from the left and
/// never overlapping, replaced by `replacement`.
pub uninterp spec fn regex_replace_all(
    pattern: Seq<char>,
    haystack: Seq<char>,
    replacement: Seq<char>,
) -> Seq<char>;

/// A regular expression with the text it was compiled from. Only
/// `Pattern::compile` makes one.
pub struct Pattern {
    source: String,
    regex: Regex,
}

impl Pattern {
    /// The text that the expression was compiled from.
    pub closed spec fn source(&self) -> Seq<char> {
        self.source@
    }

    /// `regex::Regex::new`: the compiled expression, kept with its text;
    /// nothing where the text is refused.
    #[verifier::external_body]
    pub(crate) fn compile(pattern: &str) -> (made: Option<Pattern>)
        ensures
            match made {
                Some(compiled) => regex_accepts(pattern@) && compiled.source() == pattern@,
                None => !regex_accepts(pattern@),
            },
    {
        match Regex::new(pattern) {
            Ok(regex) => Some(Pattern { source: pattern.to_string(), regex }),
            Err(_) => None,
        }
    }

    /// `regex::Regex::replace_all`: `haystack` with every match replaced.
    #[verifier::external_body]
    pub(crate) fn replace_all(&self, haystack: &str, replacement: &str) -> (out: String)
        ensures
            out@ == regex_replace_all(self.source(), haystack@, replacement@),
    {
        self.regex.replace_all(haystack, replacement).into_owned()
    }
}

} // verus!
