//! Trusted bindings to the regular-expression engine. Compilation and
//! matching are functions of the pattern and the text alone, so both results
//! carry names that the pipeline's contracts are stated over.

use vstd::prelude::*;

verus! {

/// The engine's compiled-regex type, declared so it can stand in signatures.
#[verifier::external_type_specification]
#[verifier::external_body]
pub struct ExRegex(regex::Regex);

/// Whether the engine accepts `pattern` as a regular expression: what
/// `regex::Regex::new` returns is a function of the pattern alone.
pub uninterp spec fn regex_valid(pattern: Seq<char>) -> bool;

/// Whether `pattern` matches anywhere in `text`: what
/// `regex::Regex::is_match` returns is a function of the two alone.
pub uninterp spec fn regex_matches(pattern: Seq<char>, text: Seq<char>) -> bool;

/// The pattern a compiled regex was built from and holds.
pub uninterp spec fn regex_pattern(re: regex::Regex) -> Seq<char>;

/// Relies on regex::Regex::new: compilation of one pattern, with the default
/// size limit, succeeds or fails as a function of the pattern alone, and the
/// compiled value holds that pattern.
#[verifier::external_body]
pub(crate) fn regex_new(pattern: &str) -> (r: Option<regex::Regex>)
    ensures
        r is Some <==> regex_valid(pattern@),
        r matches Some(re) ==> regex_pattern(re) == pattern@,
{
    regex::Regex::new(pattern).ok()
}

/// Relies on regex::Regex::is_match: whether the compiled pattern matches
/// anywhere in the text, a function of the pattern and the text alone.
#[verifier::external_body]
pub(crate) fn regex_is_match(re: &regex::Regex, text: &str) -> (r: bool)
    ensures
        r == regex_matches(regex_pattern(*re), text@),
{
    re.is_match(text)
}

} // verus!
