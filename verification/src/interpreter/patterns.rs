//! Regular expressions, through the `regex` crate.
//!
//! A [`Pattern`] is a compiled `regex::Regex` kept together with the text it
//! was compiled from; its view is that text. What the `regex` crate computes
//! on a pattern and a haystack is named below and depends on those two
//! values alone.

use vstd::prelude::*;
use regex::Regex;

verus! {

#[verifier::external_type_specification]
#[verifier::external_body]
pub struct ExRegex(Regex);

/// Whether `regex::Regex::new` accepts `pattern`.
pub uninterp spec fn regex_compiles(pattern: Seq<char>) -> bool;

/// The text of the first match (leftmost-first) of `pattern` in `haystack`,
/// as `regex::Regex::find` followed by `Match::as_str` gives it.
pub uninterp spec fn regex_first_match(pattern: Seq<char>, haystack: Seq<char>) -> Option<Seq<char>>;

/// For the first match of `pattern` in `haystack`, whether the capture
/// group named `group` took part in it (`regex::Regex::captures`, then
/// `Captures::name`); `None` when there is no match.
pub uninterp spec fn regex_group_matched(
    pattern: Seq<char>,
    haystack: Seq<char>,
    group: Seq<char>,
) -> Option<bool>;

/// A compiled regular expression and the pattern it was compiled from.
pub struct Pattern {
    regex: Regex,
    source: String,
}

impl View for Pattern {
    type V = Seq<char>;

    closed spec fn view(&self) -> Seq<char> {
        self.source@
    }
}

/// Calls `regex::Regex::new`. Trusted: whether it succeeds depends on the
/// pattern alone (`regex_compiles`); on success the result is kept with
/// the pattern it was compiled from.
#[verifier::external_body]
pub(crate) fn compile_pattern(pattern: &str) -> (r: Option<Pattern>)
    ensures
        r is Some <==> regex_compiles(pattern@),
        r matches Some(p) ==> p@ == pattern@,
{
    match Regex::new(pattern) {
        Ok(regex) => Some(Pattern { regex, source: pattern.to_string() }),
        Err(_) => None,
    }
}

/// Calls `regex::Regex::find` and takes the matched text
/// (`Match::as_str`). Trusted: the result is named by `regex_first_match`,
/// and, as the crate documents, a match is a substring of the haystack.
#[verifier::external_body]
pub(crate) fn find_match(p: &Pattern, haystack: &str) -> (r: Option<String>)
    ensures
        r is None <==> regex_first_match(p@, haystack@) is None,
        r matches Some(m) ==> regex_first_match(p@, haystack@) == Some(m@),
        r matches Some(m) ==> exists|i: int|
            0 <= i && i + m@.len() <= haystack@.len() && #[trigger] haystack@.subrange(
                i,
                i + m@.len(),
            ) == m@,
{
    match p.regex.find(haystack) {
        Some(m) => Some(m.as_str().to_string()),
        None => None,
    }
}

/// Calls `regex::Regex::captures` and asks the captures for the group
/// named `group` (`Captures::name`). Trusted: the result is named by
/// `regex_group_matched`.
#[verifier::external_body]
pub(crate) fn group_matched(p: &Pattern, haystack: &str, group: &str) -> (r: Option<bool>)
    ensures
        r == regex_group_matched(p@, haystack@, group@),
{
    match p.regex.captures(haystack) {
        Some(caps) => Some(caps.name(group).is_some()),
        None => None,
    }
}

} // verus!
