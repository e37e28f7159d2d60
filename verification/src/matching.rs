//! Regular-expression searches, performed by the `regex` and
//! `fancy_regex` crates. Each search compiles its pattern and runs it;
//! what it returns is named by a function of the pattern and the text.

use vstd::prelude::*;

verus! {

/// One match of a pattern: byte offsets of its start and end, and its text.
pub struct RegexMatch {
    pub start: usize,
    pub end: usize,
    pub text: String,
}

impl View for RegexMatch {
    type V = (usize, usize, Seq<char>);

    open spec fn view(&self) -> (usize, usize, Seq<char>) {
        (self.start, self.end, self.text@)
    }
}

/// The views of a list of matches.
pub open spec fn matches_view(ms: Seq<RegexMatch>) -> Seq<(usize, usize, Seq<char>)> {
    ms.map_values(|m: RegexMatch| m@)
}

/// The view of an optional list of matches.
pub open spec fn found_view(r: Option<Vec<RegexMatch>>) -> Option<Seq<(usize, usize, Seq<char>)>> {
    match r {
        Some(v) => Some(matches_view(v@)),
        None => None,
    }
}

/// What `regex::Regex::new(pattern)` followed by `find_iter(haystack)`
/// yields: `None` when the pattern does not compile, else the
/// non-overlapping leftmost-first matches in order.
pub uninterp spec fn regex_find_all(pattern: Seq<char>, haystack: Seq<char>) -> Option<Seq<(usize, usize, Seq<char>)>>;

/// What `fancy_regex::Regex::new(pattern)` followed by `find_iter(haystack)`
/// yields: `None` when the pattern does not compile or the search reports
/// an error, else the matches in order.
pub uninterp spec fn fancy_find_all(pattern: Seq<char>, haystack: Seq<char>) -> Option<Seq<(usize, usize, Seq<char>)>>;

/// What `regex::Regex::replace_all(haystack, replacement)` returns:
/// `None` when the pattern does not compile.
pub uninterp spec fn regex_replace_all(pattern: Seq<char>, haystack: Seq<char>, replacement: Seq<char>) -> Option<Seq<char>>;

/// What `regex::Regex::replace(haystack, replacement)` (first match only)
/// returns: `None` when the pattern does not compile.
pub uninterp spec fn regex_replace_first(pattern: Seq<char>, haystack: Seq<char>, replacement: Seq<char>) -> Option<Seq<char>>;

/// What `regex::Regex::is_match(haystack)` returns: `None` when the
/// pattern does not compile.
pub uninterp spec fn regex_is_match(pattern: Seq<char>, haystack: Seq<char>) -> Option<bool>;

/// The view of an optional string.
pub open spec fn text_view(r: Option<String>) -> Option<Seq<char>> {
    match r {
        Some(s) => Some(s@),
        None => None,
    }
}

/// The matches that a search found, or none when it could not run.
pub open spec fn found_or_empty(r: Option<Seq<(usize, usize, Seq<char>)>>) -> Seq<(usize, usize, Seq<char>)> {
    match r {
        Some(ms) => ms,
        None => Seq::empty(),
    }
}

/// The text after a replacement, or the text unchanged when it could not run.
pub open spec fn replaced_or_same(r: Option<Seq<char>>, haystack: Seq<char>) -> Seq<char> {
    match r {
        Some(t) => t,
        None => haystack,
    }
}

/// Compiles `pattern` with `regex::Regex::new` and collects the matches
/// of `find_iter` on `haystack`: start, end and text of each. The result
/// is named by `regex_find_all`.
#[verifier::external_body]
pub(crate) fn find_all(pattern: &str, haystack: &str) -> (r: Option<Vec<RegexMatch>>)
    ensures
        found_view(r) == regex_find_all(pattern@, haystack@),
{
    regex::Regex::new(pattern).ok().map(|re| {
        re.find_iter(haystack).map(|m| RegexMatch {
            start: m.start(),
            end: m.end(),
            text: m.as_str().to_string(),
        }).collect()
    })
}

/// Compiles `pattern` with `fancy_regex::Regex::new` and collects the
/// matches of `find_iter` on `haystack`; any error gives `None`. The
/// result is named by `fancy_find_all`.
#[verifier::external_body]
pub(crate) fn fancy_find_all_matches(pattern: &str, haystack: &str) -> (r: Option<Vec<RegexMatch>>)
    ensures
        found_view(r) == fancy_find_all(pattern@, haystack@),
{
    let re = fancy_regex::Regex::new(pattern).ok()?;
    re.find_iter(haystack).map(|m| m.map(|m| RegexMatch {
        start: m.start(),
        end: m.end(),
        text: m.as_str().to_string(),
    })).collect::<Result<Vec<_>, _>>().ok()
}

/// `t` holds no run of three line breaks; when `s` is empty so is `t`, and
/// when `s` neither starts nor ends with a line break, `t` starts and ends
/// with the same characters as `s`.
pub open spec fn newline_runs_collapsed(s: Seq<char>, t: Seq<char>) -> bool {
    &&& forall|i: int| #![trigger t[i]] 0 <= i && i + 3 <= t.len() ==> !(t[i] == '\n' && t[i + 1] == '\n' && t[i + 2] == '\n')
    &&& s.len() == 0 ==> t.len() == 0
    &&& s.len() > 0 && s[0] != '\n' && s.last() != '\n' ==> t.len() > 0 && t[0] == s[0] && t.last() == s.last()
}

/// The pattern `\n{3,}` (three or more line breaks) with two line breaks
/// as the replacement.
pub open spec fn is_newline_collapse(pattern: Seq<char>, replacement: Seq<char>) -> bool {
    pattern == seq!['\\', 'n', '{', '3', ',', '}'] && replacement == seq!['\n', '\n']
}

/// Compiles `pattern` with `regex::Regex::new` and calls `replace_all`;
/// the result is named by `regex_replace_all`. For the pattern `\n{3,}`
/// (which compiles) and the replacement of two line breaks, every maximal
/// run of three or more line breaks becomes two, and nothing else changes.
#[verifier::external_body]
pub(crate) fn replace_all(pattern: &str, haystack: &str, replacement: &str) -> (r: Option<String>)
    ensures
        text_view(r) == regex_replace_all(pattern@, haystack@, replacement@),
        match r {
            Some(t) => is_newline_collapse(pattern@, replacement@) ==> newline_runs_collapsed(haystack@, t@),
            None => !is_newline_collapse(pattern@, replacement@),
        },
{
    regex::Regex::new(pattern).ok().map(|re| re.replace_all(haystack, replacement).to_string())
}

/// Compiles `pattern` with `regex::Regex::new` and calls `replace`, which
/// replaces the first match only; the result is named by `regex_replace_first`.
#[verifier::external_body]
pub(crate) fn replace_first(pattern: &str, haystack: &str, replacement: &str) -> (r: Option<String>)
    ensures
        text_view(r) == regex_replace_first(pattern@, haystack@, replacement@),
{
    regex::Regex::new(pattern).ok().map(|re| re.replace(haystack, replacement).to_string())
}

/// Compiles `pattern` with `regex::Regex::new` and calls `is_match`; the
/// result is named by `regex_is_match`.
#[verifier::external_body]
pub(crate) fn is_match(pattern: &str, haystack: &str) -> (r: Option<bool>)
    ensures
        r == regex_is_match(pattern@, haystack@),
{
    regex::Regex::new(pattern).ok().map(|re| re.is_match(haystack))
}

/// The matches of `pattern`, or none when the pattern does not compile.
pub fn find_all_or_empty(pattern: &str, haystack: &str) -> (r: Vec<RegexMatch>)
    ensures
        matches_view(r@) == found_or_empty(regex_find_all(pattern@, haystack@)),
{
    match find_all(pattern, haystack) {
        Some(v) => v,
        None => Vec::new(),
    }
}

/// `haystack` with every match of `pattern` replaced, or unchanged when
/// the pattern does not compile.
pub fn replace_all_or_same(pattern: &str, haystack: &str, replacement: &str) -> (r: String)
    ensures
        r@ == replaced_or_same(regex_replace_all(pattern@, haystack@, replacement@), haystack@),
        is_newline_collapse(pattern@, replacement@) ==> newline_runs_collapsed(
            haystack@,
            r@,
        ),
{
    match replace_all(pattern, haystack, replacement) {
        Some(s) => s,
        None => String::from_str(haystack),
    }
}

} // verus!
