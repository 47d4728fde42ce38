//! Regular-expression matching and replacement, done by the `regex` crate.
//!
//! What a regular expression matches is not restated here: each operation's
//! result is given a name over the pattern, the text and the replacement.

use vstd::prelude::*;

verus! {

/// Whether `regex::Regex::new` accepts `pattern`.
pub uninterp spec fn regex_compiles(pattern: Seq<char>) -> bool;

/// What `regex::Regex::replace_all` returns for the regex compiled from
/// `pattern`, on `haystack`, with `replacement`.
pub uninterp spec fn regex_replace_all(
    pattern: Seq<char>,
    haystack: Seq<char>,
    replacement: Seq<char>,
) -> Seq<char>;

/// What `regex::Regex::replace` (first match only) returns for the regex
/// compiled from `pattern`, on `haystack`, with `replacement`.
pub uninterp spec fn regex_replace_first(
    pattern: Seq<char>,
    haystack: Seq<char>,
    replacement: Seq<char>,
) -> Seq<char>;

/// What `regex::Regex::captures` finds for the regex compiled from `pattern`
/// on `haystack`: `None` when there is no match, else the text of the first
/// capture group, if that group took part in the match.
pub uninterp spec fn regex_first_group(pattern: Seq<char>, haystack: Seq<char>) -> Option<
    Option<Seq<char>>,
>;

/// The outcome of searching a text for a pattern with one capture group.
pub enum CaptureOutcome {
    InvalidPattern,
    NoMatch,
    Matched(Option<String>),
}

/// Whether `regex::Regex::new` accepts `pattern`. Claims that the answer is
/// the named one.
#[verifier::external_body]
pub(crate) fn pattern_compiles(pattern: &str) -> (b: bool)
    ensures
        b == regex_compiles(pattern@),
{
    regex::Regex::new(pattern).is_ok()
}

/// Compiles `pattern` with `regex::Regex::new` and, when it compiles, returns
/// `regex::Regex::replace_all` on `haystack` with `replacement`. Claims that
/// the result is `None` exactly when the pattern does not compile, and that
/// the text is the named result of the replacement.
#[verifier::external_body]
pub(crate) fn replace_all_matches(pattern: &str, haystack: &str, replacement: &str) -> (r: Option<
    String,
>)
    ensures
        r is Some == regex_compiles(pattern@),
        r matches Some(s) ==> s@ == regex_replace_all(pattern@, haystack@, replacement@),
{
    match regex::Regex::new(pattern) {
        Ok(re) => Some(re.replace_all(haystack, replacement).into_owned()),
        Err(_) => None,
    }
}

/// Compiles `pattern` with `regex::Regex::new` and, when it compiles, returns
/// `regex::Regex::replace` (first match) on `haystack` with `replacement`.
/// Claims the same as `replace_all_matches`, for the first match only.
#[verifier::external_body]
pub(crate) fn replace_first_match(pattern: &str, haystack: &str, replacement: &str) -> (r: Option<
    String,
>)
    ensures
        r is Some == regex_compiles(pattern@),
        r matches Some(s) ==> s@ == regex_replace_first(pattern@, haystack@, replacement@),
{
    match regex::Regex::new(pattern) {
        Ok(re) => Some(re.replace(haystack, replacement).into_owned()),
        Err(_) => None,
    }
}

/// Compiles `pattern` with `regex::Regex::new` and, when it compiles, calls
/// `regex::Regex::captures` on `haystack` and takes group 1 with
/// `regex::Captures::get`. Claims that the outcome is `InvalidPattern` exactly
/// when the pattern does not compile, and otherwise agrees with the named result.
#[verifier::external_body]
pub(crate) fn first_group(pattern: &str, haystack: &str) -> (r: CaptureOutcome)
    ensures
        r is InvalidPattern == !regex_compiles(pattern@),
        r is NoMatch ==> regex_first_group(pattern@, haystack@) is None,
        r matches CaptureOutcome::Matched(g) ==> regex_first_group(pattern@, haystack@) == Some(
            match g {
                Some(s) => Some(s@),
                None => None::<Seq<char>>,
            },
        ),
{
    match regex::Regex::new(pattern) {
        Ok(re) => match re.captures(haystack) {
            Some(caps) => match caps.get(1) {
                Some(m) => CaptureOutcome::Matched(Some(m.as_str().to_string())),
                None => CaptureOutcome::Matched(None),
            },
            None => CaptureOutcome::NoMatch,
        },
        Err(_) => CaptureOutcome::InvalidPattern,
    }
}

} // verus!
