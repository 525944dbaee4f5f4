//! Regular expressions, as the `regex` crate matches them.
//!
//! What a search returns is a function of the pattern and the text alone,
//! but far too long to write out here. The functions below therefore name
//! the answers without defining them, and the wrappers tie each call to its
//! name. A compiled expression is opaque to the verifier, so each wrapper
//! takes the pattern as text and compiles it itself.

use vstd::prelude::*;

verus! {

/// The error of the `regex` crate: a pattern that does not compile.
#[verifier::external_type_specification]
#[verifier::external_body]
pub struct ExRegexError(regex::Error);

/// Whether `regex::Regex::new` accepts `pattern`.
pub uninterp spec fn regex_compiles(pattern: Seq<char>) -> bool;

/// What `regex::Regex::is_match` answers for the compiled `pattern` on
/// `haystack`.
pub uninterp spec fn regex_is_match(pattern: Seq<char>, haystack: Seq<char>) -> bool;

/// What `regex::Regex::captures` finds for the compiled `pattern` in
/// `haystack`: `None` where nothing matches, else the text of every group of
/// the leftmost match, group 0 (the whole match) first, with `None` for a
/// group that took no part.
pub uninterp spec fn regex_captures(pattern: Seq<char>, haystack: Seq<char>) -> Option<
    Seq<Option<Seq<char>>>,
>;

/// Whether `pattern` matches anywhere in `haystack`.
///
/// Trusted: compiles with `regex::Regex::new` and asks
/// `regex::Regex::is_match`. The contract claims only that the call fails
/// exactly when the pattern does not compile, and that the answer depends on
/// nothing but the two texts.
#[verifier::external_body]
pub(crate) fn is_match(pattern: &str, haystack: &str) -> (r: Result<bool, regex::Error>)
    ensures
        r is Ok <==> regex_compiles(pattern@),
        r matches Ok(hit) ==> hit == regex_is_match(pattern@, haystack@),
{
    let compiled = regex::Regex::new(pattern)?;
    Ok(compiled.is_match(haystack))
}

/// The capture groups of the leftmost match of `pattern` in `haystack`.
///
/// Trusted: compiles with `regex::Regex::new`, searches with
/// `regex::Regex::captures`, and copies each group's text out of the
/// `Captures` in group order. The contract claims only that the call fails
/// exactly when the pattern does not compile, and that the groups depend on
/// nothing but the two texts.
#[verifier::external_body]
pub(crate) fn captures(pattern: &str, haystack: &str) -> (r: Result<
    Option<Vec<Option<String>>>,
    regex::Error,
>)
    ensures
        r is Ok <==> regex_compiles(pattern@),
        r matches Ok(found) ==> found.deep_view() == regex_captures(pattern@, haystack@),
{
    let compiled = regex::Regex::new(pattern)?;
    Ok(
        compiled.captures(haystack).map(
            |found| found.iter().map(|group| group.map(|m| m.as_str().to_string())).collect(),
        ),
    )
}

} // verus!
