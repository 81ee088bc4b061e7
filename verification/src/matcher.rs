//! The bridge to the regex crate. A compiled pattern is kept together with
//! the text it was compiled from; what compilation and matching return is
//! named abstractly, as a function of the pattern text and the path alone,
//! and everything downstream is proved against those names.

use vstd::prelude::*;

verus! {

#[verifier::external_type_specification]
#[verifier::external_body]
pub struct ExRegex(regex::Regex);

#[verifier::external_type_specification]
#[verifier::external_body]
pub struct ExRegexError(regex::Error);

/// Whether the regex crate accepts a pattern text: compilation succeeds or
/// fails on the text alone.
pub uninterp spec fn re_compiles(pattern: Seq<char>) -> bool;

/// Whether a compiled pattern matches somewhere in a path: a function of the
/// pattern text and the path alone.
pub uninterp spec fn re_is_match(pattern: Seq<char>, path: Seq<char>) -> bool;

/// The capture groups of the first match of a pattern in a path, group `0`
/// (the whole match) excluded; a group that did not participate is `None`.
pub uninterp spec fn re_groups(pattern: Seq<char>, path: Seq<char>) -> Seq<Option<Seq<char>>>;

/// A compiled regular expression, paired with its pattern text. Only the
/// trusted constructor builds one, so the pair always belongs together.
pub struct CompiledRegex {
    re: regex::Regex,
    pattern: String,
}

impl CompiledRegex {
    /// The pattern text this regular expression was compiled from.
    pub closed spec fn pattern_spec(&self) -> Seq<char> {
        self.pattern@
    }

    /// Relies on `regex::Regex::new`: success depends on the pattern alone,
    /// and the compiled value matches as that pattern.
    #[verifier::external_body]
    pub(crate) fn new(pattern: String) -> (r: Result<CompiledRegex, regex::Error>)
        ensures
            r is Ok <==> re_compiles(pattern@),
            r is Ok ==> r->Ok_0.pattern_spec() == pattern@,
    {
        match regex::Regex::new(&pattern) {
            Ok(re) => Ok(CompiledRegex { re, pattern }),
            Err(e) => Err(e),
        }
    }

    /// Relies on `regex::Regex::is_match`: true exactly when the pattern
    /// matches somewhere in the path, a function of pattern and path alone.
    #[verifier::external_body]
    pub(crate) fn is_match(&self, path: &str) -> (r: bool)
        ensures
            r == re_is_match(self.pattern_spec(), path@),
    {
        self.re.is_match(path)
    }

    /// Relies on `regex::Regex::captures`: `Some` exactly when `is_match` is
    /// true, carrying the capture groups of the first match in order, group
    /// `0` excluded.
    #[verifier::external_body]
    pub(crate) fn capture_groups(&self, path: &str) -> (r: Option<Vec<Option<String>>>)
        ensures
            r is Some <==> re_is_match(self.pattern_spec(), path@),
            r is Some ==> r->0.deep_view() == re_groups(self.pattern_spec(), path@),
    {
        self.re.captures(path).map(|caps| {
            caps.iter().skip(1).map(|m| m.map(|g| g.as_str().to_string())).collect()
        })
    }
}

/// Relies on `regex::Error`'s `Display` implementation for a human-readable
/// description of why a pattern failed to compile.
#[verifier::external_body]
pub(crate) fn compile_error_text(e: &regex::Error) -> String {
    format!("{}", e)
}

} // verus!
