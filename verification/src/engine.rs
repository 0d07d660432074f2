//! The boundary to the backtracking regex engine (`fancy_regex`). Everything
//! the library assumes of the engine is stated here: compiled regexes carry
//! their source pattern, and compiling and matching are deterministic in the
//! pattern and the word.

use fancy_regex::Error as RegexError;
use vstd::prelude::*;

verus! {

#[verifier::external_type_specification]
#[verifier::external_body]
pub struct ExRegex(fancy_regex::Regex);

#[verifier::external_type_specification]
#[verifier::external_body]
pub struct ExRegexError(RegexError);

/// The source pattern a compiled regex was built from, as
/// `fancy_regex::Regex::as_str` returns it.
pub uninterp spec fn regex_source(re: fancy_regex::Regex) -> Seq<char>;

/// Whether `fancy_regex::Regex::new` accepts `pattern`. Compilation is a
/// function of the pattern text alone.
pub uninterp spec fn regex_new_ok(pattern: Seq<char>) -> bool;

/// Whether the engine reports a match of the regex compiled from `pattern`
/// anywhere in `word`. Matching is a function of the pattern and the word
/// alone; an engine resource-limit failure is reported as no match.
pub uninterp spec fn regex_match(pattern: Seq<char>, word: Seq<char>) -> bool;

/// Whether `word` consists of one or more word characters: the engine's
/// verdict on `word` for the fixed pattern `^\w+$`.
pub uninterp spec fn is_word(word: Seq<char>) -> bool;

/// Relies on `fancy_regex::Regex::new`: compiles `pattern`, succeeding
/// exactly when the pattern is well formed; on success `as_str` on the
/// result returns the pattern it was built from.
#[verifier::external_body]
pub fn regex_new(pattern: &str) -> (r: Result<fancy_regex::Regex, RegexError>)
    ensures
        r matches Ok(re) ==> regex_source(re) == pattern@,
        (r matches Ok(re2)) == regex_new_ok(pattern@),
{
    fancy_regex::Regex::new(pattern)
}

/// Relies on `fancy_regex::Regex::is_match`: reports whether the regex
/// matches anywhere in `word`, deterministically in the regex's source and
/// the word; a resource-limit error from the engine is reported as no match.
#[verifier::external_body]
pub fn regex_is_match(re: &fancy_regex::Regex, word: &str) -> (r: bool)
    ensures
        r == regex_match(regex_source(*re), word@),
{
    re.is_match(word).unwrap_or(false)
}

/// Relies on `fancy_regex::Regex`'s derived `Clone`: the clone is built from
/// the same source pattern.
#[verifier::external_body]
pub fn regex_clone(re: &fancy_regex::Regex) -> (r: fancy_regex::Regex)
    ensures
        regex_source(r) == regex_source(*re),
{
    re.clone()
}

/// Relies on `fancy_regex::Regex::as_str`: returns the source pattern the
/// regex was compiled from.
#[verifier::external_body]
pub fn regex_as_str(re: &fancy_regex::Regex) -> (r: &str)
    ensures
        r@ == regex_source(*re),
{
    re.as_str()
}

/// Relies on `fancy_regex::Regex::{new, is_match}` applied to the fixed
/// pattern `^\w+$`: reports whether `s` is one or more word characters.
#[verifier::external_body]
pub fn is_word_str(s: &str) -> (r: bool)
    ensures
        r == is_word(s@),
{
    fancy_regex::Regex::new(r"^\w+$").map(|re| re.is_match(s).unwrap_or(false)).unwrap_or(false)
}

} // verus!
