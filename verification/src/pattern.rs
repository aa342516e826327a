//! Regular expressions, compiled by the `regex` crate and seen through the
//! text of their pattern.

use vstd::prelude::*;

verus! {

/// The compiled regular expression of the `regex` crate.
#[verifier::external_type_specification]
#[verifier::external_body]
pub struct ExRegex(regex::Regex);

/// The error that the `regex` crate reports for a pattern it cannot compile.
#[verifier::external_type_specification]
#[verifier::external_body]
pub struct ExRegexError(regex::Error);

/// Whether `regex::Regex::new` accepts `pattern` (with its default limits).
pub uninterp spec fn regex_compiles(pattern: Seq<char>) -> bool;

/// What `regex::Regex::captures` gives for a regex compiled from `pattern`
/// on `haystack`: `None` when nothing matches, else one entry per capture
/// group (group 0 is the whole match), `None` for a group that took no part
/// in the match.
pub uninterp spec fn regex_captures(pattern: Seq<char>, haystack: Seq<char>) -> Option<Seq<Option<Seq<char>>>>;

/// The text of each capture group, as plain values.
pub open spec fn groups_view(groups: Seq<Option<String>>) -> Seq<Option<Seq<char>>> {
    groups.map_values(|g: Option<String>| match g {
        Some(s) => Some(s@),
        None => None,
    })
}

/// The plain values of what `Regex::captures` gave, as converted by `captures_of`.
pub open spec fn captures_view(c: Option<Vec<Option<String>>>) -> Option<Seq<Option<Seq<char>>>> {
    match c {
        Some(g) => Some(groups_view(g@)),
        None => None,
    }
}

/// A regular expression together with the pattern it was compiled from.
pub struct Pattern {
    source: String,
    compiled: regex::Regex,
}

/// A pattern that the `regex` crate refused.
#[derive(Debug)]
pub struct PatternError(pub regex::Error);

impl View for Pattern {
    type V = Seq<char>;

    closed spec fn view(&self) -> Seq<char> {
        self.source@
    }
}

/// Calls `regex::Regex::new`. Claimed: it succeeds exactly on the patterns
/// named by `regex_compiles`, a function of the pattern text alone.
#[verifier::external_body]
fn compile_regex(pattern: &str) -> (r: Result<regex::Regex, regex::Error>)
    ensures
        r is Ok <==> regex_compiles(pattern@),
{
    regex::Regex::new(pattern)
}

/// Calls `regex::Regex::captures` on the compiled regex of `pattern` and
/// turns each group into the text it matched. Claimed: the result is
/// `regex_captures` of the pattern text and the haystack. This holds because a
/// `Pattern` is only built by `Pattern::new`, which compiles `source` itself.
#[verifier::external_body]
pub(crate) fn captures_of(pattern: &Pattern, haystack: &str) -> (r: Option<Vec<Option<String>>>)
    ensures
        captures_view(r) == regex_captures(pattern@, haystack@),
{
    pattern.compiled.captures(haystack).map(
        |caps| caps.iter().map(|m| m.map(|m| m.as_str().to_string())).collect(),
    )
}

impl Pattern {
    /// Compiles `pattern`; fails exactly when the `regex` crate refuses it.
    pub fn new(pattern: &str) -> (r: Result<Pattern, PatternError>)
        ensures
            match r {
                Ok(p) => p@ == pattern@ && regex_compiles(pattern@),
                Err(_) => !regex_compiles(pattern@),
            },
    {
        match compile_regex(pattern) {
            Ok(compiled) => Ok(Pattern { source: pattern.to_owned(), compiled }),
            Err(e) => Err(PatternError(e)),
        }
    }
}

} // verus!
