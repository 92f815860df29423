//! Matching one pattern against a directory.

use crate::error::ProfileError;
use crate::expand::{expand, expand_home};
use vstd::prelude::*;

verus! {

/// `regex::Error`, the error of a pattern that does not compile. It is only
/// carried, never read.
#[verifier::external_type_specification]
#[verifier::external_body]
pub struct ExRegexError(regex::Error);

/// Whether `regex::Regex::new` accepts `pattern`.
pub uninterp spec fn regex_valid(pattern: Seq<char>) -> bool;

/// Whether the expression that `regex::Regex::new` compiles from `pattern`
/// has a match somewhere in `haystack`: whether `Regex::captures` finds one.
pub uninterp spec fn regex_matches(pattern: Seq<char>, haystack: Seq<char>) -> bool;

/// Compiles `pattern` with `regex::Regex::new` and searches `haystack` with
/// `Regex::captures`. The compile error is handed on as it is; otherwise the
/// result says whether a match was found. Both depend on the two texts alone.
#[verifier::external_body]
fn search(pattern: &str, haystack: &str) -> (r: Result<bool, regex::Error>)
    ensures
        r.is_ok() == regex_valid(pattern@),
        r matches Ok(found) ==> found == regex_matches(pattern@, haystack@),
{
    let compiled = regex::Regex::new(pattern)?;
    Ok(compiled.captures(haystack).is_some())
}

/// What testing one pattern, or a list of them, comes to.
pub enum Verdict {
    Match,
    NoMatch,
    /// The expanded pattern `pattern` is no regular expression.
    Invalid { pattern: Seq<char> },
}

/// The verdict of an expanded pattern on an expanded directory: a match
/// anywhere in the directory counts.
pub open spec fn search_verdict(pattern: Seq<char>, directory: Seq<char>) -> Verdict {
    if !regex_valid(pattern) {
        Verdict::Invalid { pattern }
    } else if regex_matches(pattern, directory) {
        Verdict::Match
    } else {
        Verdict::NoMatch
    }
}

/// The verdict of one pattern on a directory: the placeholder is expanded in
/// both before the search.
pub open spec fn pattern_verdict(
    pattern: Seq<char>,
    directory: Seq<char>,
    home: Seq<char>,
) -> Verdict {
    search_verdict(expand(pattern, home), expand(directory, home))
}

/// The position of the first verdict in `verdicts` that is not `NoMatch`.
pub open spec fn first_decisive_index(verdicts: Seq<Verdict>) -> Option<int>
    decreases verdicts.len(),
{
    if verdicts.len() == 0 {
        None
    } else if !(verdicts[0] is NoMatch) {
        Some(0)
    } else {
        match first_decisive_index(verdicts.skip(1)) {
            Some(i) => Some(i + 1),
            None => None,
        }
    }
}

/// The verdict of a scan that stops at the first match or invalid pattern:
/// what comes after that one is never looked at.
pub open spec fn first_decisive(verdicts: Seq<Verdict>) -> Verdict {
    match first_decisive_index(verdicts) {
        Some(i) => verdicts[i],
        None => Verdict::NoMatch,
    }
}

/// The first decisive verdict is decisive and everything before it is
/// `NoMatch`; there is none exactly when every verdict is `NoMatch`.
pub proof fn lemma_first_decisive_index(verdicts: Seq<Verdict>)
    ensures
        match first_decisive_index(verdicts) {
            Some(i) => {
                &&& 0 <= i < verdicts.len()
                &&& !(verdicts[i] is NoMatch)
                &&& forall|j: int| 0 <= j < i ==> verdicts[j] is NoMatch
            },
            None => forall|j: int| 0 <= j < verdicts.len() ==> verdicts[j] is NoMatch,
        },
    decreases verdicts.len(),
{
    if verdicts.len() > 0 && verdicts[0] is NoMatch {
        let rest = verdicts.skip(1);
        lemma_first_decisive_index(rest);
        match first_decisive_index(rest) {
            Some(i) => {
                assert(rest[i] == verdicts[i + 1]);
                assert forall|j: int| 0 <= j < i + 1 implies verdicts[j] is NoMatch by {
                    if j > 0 {
                        assert(rest[j - 1] == verdicts[j]);
                    }
                }
            },
            None => {
                assert forall|j: int| 0 <= j < verdicts.len() implies verdicts[j] is NoMatch by {
                    if j > 0 {
                        assert(rest[j - 1] == verdicts[j]);
                    }
                }
            },
        }
    }
}

/// A scan that has seen only `NoMatch` before position `i` is decided by the
/// verdict at `i`, and comes to `NoMatch` where `i` is the end.
pub proof fn lemma_first_decisive_after(verdicts: Seq<Verdict>, i: int)
    requires
        0 <= i <= verdicts.len(),
        forall|j: int| 0 <= j < i ==> verdicts[j] is NoMatch,
    ensures
        i == verdicts.len() ==> first_decisive_index(verdicts) is None,
        i < verdicts.len() && !(verdicts[i] is NoMatch) ==> first_decisive_index(verdicts)
            == Some(i),
{
    lemma_first_decisive_index(verdicts);
}

/// Whether the result `r` reports the verdict `verdict`.
pub open spec fn reports(r: Result<bool, ProfileError>, verdict: Verdict) -> bool {
    match verdict {
        Verdict::Match => r == Ok::<bool, ProfileError>(true),
        Verdict::NoMatch => r == Ok::<bool, ProfileError>(false),
        Verdict::Invalid { pattern } => r matches Err(
            ProfileError::InvalidPattern { pattern: refused },
        ) && refused@ == pattern,
    }
}

/// Turns what the search of `pattern` gave into the library's result: a
/// compile error becomes `InvalidPattern` with the pattern that was refused.
pub fn interpret_search(outcome: Result<bool, regex::Error>, pattern: String) -> (r: Result<
    bool,
    ProfileError,
>)
    ensures
        match outcome {
            Ok(found) => r == Ok::<bool, ProfileError>(found),
            Err(_) => r matches Err(ProfileError::InvalidPattern { pattern: refused })
                && refused@ == pattern@,
        },
{
    match outcome {
        Ok(found) => Ok(found),
        Err(_) => Err(ProfileError::InvalidPattern { pattern }),
    }
}

/// Tests an unexpanded pattern against a directory that is expanded already.
pub(crate) fn search_expanded(pattern: &str, directory: &str, home: &str) -> (r: Result<
    bool,
    ProfileError,
>)
    ensures
        reports(r, search_verdict(expand(pattern@, home@), directory@)),
{
    let expanded = expand_home(pattern, home);
    let outcome = search(expanded.as_str(), directory);
    interpret_search(outcome, expanded)
}

/// Whether `pattern` matches `directory`, the placeholder standing for `home`
/// in both.
pub fn pattern_matches(pattern: &str, directory: &str, home: &str) -> (r: Result<
    bool,
    ProfileError,
>)
    ensures
        reports(r, pattern_verdict(pattern@, directory@, home@)),
        r is Err <==> !regex_valid(expand(pattern@, home@)),
{
    let expanded = expand_home(directory, home);
    search_expanded(pattern, expanded.as_str(), home)
}

} // verus!
