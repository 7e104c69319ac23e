//! The exclusion pattern: a regular expression compiled once and matched
//! against every path of a run.
//!
//! Compilation and matching are done by the `regex` crate. What a pattern
//! matches is not restated here: the results of the crate's functions are
//! named, and the contracts of this module speak of those names.

use vstd::prelude::*;

verus! {

/// `regex::Regex`, a compiled regular expression. Its inside is not visible
/// to the verifier.
#[verifier::external_type_specification]
#[verifier::external_body]
pub struct ExRegex(regex::Regex);

/// `regex::Error`, the reason a pattern could not be compiled.
#[verifier::external_type_specification]
#[verifier::external_body]
pub struct ExRegexError(regex::Error);

/// The pattern text that `Regex::as_str` reports for a compiled expression:
/// the text it was compiled from.
pub uninterp spec fn regex_source(re: regex::Regex) -> Seq<char>;

/// Whether `Regex::is_match` finds a match of the pattern anywhere in the
/// text.
pub uninterp spec fn regex_matches(pattern: Seq<char>, text: Seq<char>) -> bool;

/// `Regex::new`: compiles the pattern, or reports why it cannot. Whether it
/// can depends on the pattern and on the size limit of the compiler, of
/// which nothing is claimed; a compiled expression keeps the pattern text as
/// its source.
#[verifier::external_body]
fn regex_new(pattern: &str) -> (r: Result<regex::Regex, regex::Error>)
    ensures
        r matches Ok(re) ==> regex_source(re) == pattern@,
{
    regex::Regex::new(pattern)
}

/// `Regex::as_str`: the pattern text of the expression, as it was given to
/// the compiler.
pub assume_specification[ regex::Regex::as_str ](re: &regex::Regex) -> (s: &str)
    ensures
        s@ == regex_source(*re),
;

/// `Regex::is_match`: true if and only if the expression matches somewhere
/// in the haystack. The answer depends on the pattern text and the haystack
/// alone.
#[verifier::external_body]
fn regex_is_match(re: &regex::Regex, haystack: &str) -> (found: bool)
    ensures
        found == regex_matches(regex_source(*re), haystack@),
{
    re.is_match(haystack)
}

/// The `Display` text of a `regex::Error`.
#[verifier::external_body]
fn regex_error_text(error: &regex::Error) -> (text: String) {
    error.to_string()
}

/// A pattern text that could not be compiled, with the compiler's message.
pub struct PatternError {
    pub pattern: String,
    pub message: String,
}

/// A compiled exclusion pattern.
pub struct ExclusionPattern {
    regex: regex::Regex,
}

impl View for ExclusionPattern {
    type V = Seq<char>;

    /// The pattern text.
    closed spec fn view(&self) -> Seq<char> {
        regex_source(self.regex)
    }
}

impl ExclusionPattern {
    /// Compiles `pattern`. Whether the text compiles is for the regular
    /// expression compiler to say; a compiled pattern stands for the text
    /// given, and an error names it.
    pub fn compile(pattern: &str) -> (r: Result<ExclusionPattern, PatternError>)
        ensures
            r matches Ok(p) ==> p@ == pattern@,
            r matches Err(e) ==> e.pattern@ == pattern@,
    {
        match regex_new(pattern) {
            Ok(regex) => Ok(ExclusionPattern { regex }),
            Err(error) => Err(
                PatternError { pattern: pattern.to_owned(), message: regex_error_text(&error) },
            ),
        }
    }

    /// The pattern text this was compiled from.
    pub fn source(&self) -> (s: &str)
        ensures
            s@ == self@,
    {
        self.regex.as_str()
    }

    /// Whether the pattern matches somewhere in `text`.
    pub fn is_match(&self, text: &str) -> (found: bool)
        ensures
            found == regex_matches(self@, text@),
    {
        regex_is_match(&self.regex, text)
    }
}

} // verus!
