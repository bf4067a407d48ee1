//! Pattern engines.
//!
//! Literal conditions are searched with one Aho-Corasick automaton over all
//! patterns, regular expressions with the `regex` crate. Both engines are
//! opaque to the verifier: this module declares their types, names what they
//! compute, and wraps each call that the matcher makes.

use vstd::prelude::*;
use vstd::utf8::encode_utf8;

verus! {

#[verifier::external_type_specification]
#[verifier::external_body]
pub struct ExAhoCorasick(aho_corasick::AhoCorasick);

#[verifier::external_type_specification]
#[verifier::external_body]
pub struct ExRegex(regex::Regex);

#[verifier::external_type_specification]
#[verifier::external_body]
pub struct ExRegexSet(regex::RegexSet);

/// The patterns an automaton was built from, in the order given.
pub uninterp spec fn automaton_patterns(automaton: aho_corasick::AhoCorasick) -> Seq<Seq<char>>;

/// Whether an ASCII case-insensitive automaton can be built from `patterns`
/// within the limits of the engine.
pub uninterp spec fn automaton_builds(patterns: Seq<Seq<char>>) -> bool;

/// The byte with an ASCII upper-case letter turned into its lower-case
/// letter.
pub open spec fn ascii_fold(byte: u8) -> u8 {
    if 0x41 <= byte <= 0x5a {
        (byte + 0x20) as u8
    } else {
        byte
    }
}

/// Whether the bytes of `pattern` stand in `haystack` from offset `at` on,
/// up to the case of ASCII letters.
pub open spec fn stands_at(pattern: Seq<u8>, haystack: Seq<u8>, at: int) -> bool {
    &&& 0 <= at
    &&& at + pattern.len() <= haystack.len()
    &&& forall|j: int|
        0 <= j < pattern.len() ==> ascii_fold(#[trigger] pattern[j]) == ascii_fold(
            haystack[at + j],
        )
}

/// Whether `pattern` occurs in `haystack` up to the case of ASCII letters:
/// somewhere in the UTF-8 encoding of the haystack stand the bytes of the
/// encoding of the pattern. The empty pattern occurs in every haystack.
pub open spec fn occurs_in(pattern: Seq<char>, haystack: Seq<char>) -> bool {
    exists|at: int| stands_at(encode_utf8(pattern), encode_utf8(haystack), at)
}

/// The pattern a regular expression was compiled from.
pub uninterp spec fn regex_source(regex: regex::Regex) -> Seq<char>;

/// What `Regex::new` objects to in `pattern`: `None` where the pattern
/// compiles, else the text of the error.
pub uninterp spec fn regex_error(pattern: Seq<char>) -> Option<Seq<char>>;

/// Whether `pattern` compiles as a regular expression.
pub open spec fn regex_valid(pattern: Seq<char>) -> bool {
    regex_error(pattern) is None
}

/// Whether the regular expression `pattern` matches anywhere in `haystack`.
pub uninterp spec fn regex_is_match(pattern: Seq<char>, haystack: Seq<char>) -> bool;

/// The capture groups of the leftmost match of `pattern` in `haystack`:
/// `None` without a match, else one entry for each group of the pattern,
/// group 0 (the whole match) first, with the text the group matched or `None`
/// where it took no part.
pub uninterp spec fn regex_captures(pattern: Seq<char>, haystack: Seq<char>) -> Option<
    Seq<Option<Seq<char>>>,
>;

/// The patterns a regular-expression set was built from, in the order given.
pub uninterp spec fn regex_set_patterns(set: regex::RegexSet) -> Seq<Seq<char>>;

/// The texts of a list of strings.
pub open spec fn texts(items: Seq<String>) -> Seq<Seq<char>> {
    Seq::new(items.len(), |i: int| items[i]@)
}

/// The texts of a list of optional strings.
pub open spec fn optional_texts(items: Seq<Option<String>>) -> Seq<Option<Seq<char>>> {
    Seq::new(
        items.len(),
        |i: int|
            match items[i] {
                Some(s) => Some(s@),
                None => None,
            },
    )
}

/// The model of what [`capture_groups`] hands out.
pub open spec fn captured(groups: Option<Vec<Option<String>>>) -> Option<Seq<Option<Seq<char>>>> {
    match groups {
        Some(list) => Some(optional_texts(list@)),
        None => None,
    }
}

/// Builds the automaton with `AhoCorasickBuilder::build`, after
/// `ascii_case_insensitive(true)`. The builder fails on pattern sets beyond
/// its size limits, which depends on the patterns alone; a searcher that was
/// built holds the patterns as given.
#[verifier::external_body]
pub(crate) fn build_automaton(patterns: &Vec<String>) -> (built: Option<aho_corasick::AhoCorasick>)
    ensures
        built.is_some() == automaton_builds(texts(patterns@)),
        built matches Some(automaton) ==> automaton_patterns(automaton) == texts(patterns@),
{
    match aho_corasick::AhoCorasickBuilder::new().ascii_case_insensitive(true).build(patterns) {
        Ok(automaton) => Some(automaton),
        Err(_) => None,
    }
}

/// Runs `AhoCorasick::find_overlapping_iter` over `haystack` and hands out
/// the pattern index of each match. The iterator yields every match at
/// every position, so a pattern is among the indices exactly when it occurs
/// in the haystack; an automaton from [`build_automaton`] compares bytes
/// without respect to the case of ASCII letters, and searches with the
/// standard match kind, for which the overlapping search is defined.
#[verifier::external_body]
pub(crate) fn automaton_search(automaton: &aho_corasick::AhoCorasick, haystack: &str) -> (hits: Vec<
    usize,
>)
    ensures
        forall|k: int|
            0 <= k < automaton_patterns(*automaton).len() ==> (hits@.contains(k as usize)
                <==> #[trigger] occurs_in(automaton_patterns(*automaton)[k], haystack@)),
{
    automaton.find_overlapping_iter(haystack).map(|found| found.pattern().as_usize()).collect()
}

/// Compiles `pattern` with `Regex::new`. Whether that succeeds, and with
/// which error it fails, depends on the pattern alone; the compiled
/// expression remembers its source, and the error is handed out as the text
/// that it displays.
#[verifier::external_body]
pub(crate) fn compile_regex(pattern: &str) -> (compiled: Result<regex::Regex, String>)
    ensures
        compiled matches Ok(regex) ==> regex_error(pattern@) is None && regex_source(regex)
            == pattern@,
        compiled matches Err(text) ==> regex_error(pattern@) == Some(text@),
{
    match regex::Regex::new(pattern) {
        Ok(regex) => Ok(regex),
        Err(error) => Err(error.to_string()),
    }
}

/// Tests `haystack` with `Regex::is_match`.
#[verifier::external_body]
pub(crate) fn regex_matches(regex: &regex::Regex, haystack: &str) -> (found: bool)
    ensures
        found == regex_is_match(regex_source(*regex), haystack@),
{
    regex.is_match(haystack)
}

/// Runs `Regex::captures` and copies out the text of each group with
/// `Captures::get`, group 0 first.
#[verifier::external_body]
pub(crate) fn capture_groups(regex: &regex::Regex, haystack: &str) -> (groups: Option<
    Vec<Option<String>>,
>)
    ensures
        captured(groups) == regex_captures(regex_source(*regex), haystack@),
{
    regex.captures(haystack).map(
        |caps| (0..caps.len()).map(|i| caps.get(i).map(|m| m.as_str().to_string())).collect(),
    )
}

/// Builds a set with `RegexSet::new`. Nothing is promised of success: the
/// set has size limits of its own. A set that was built holds the patterns
/// as given.
#[verifier::external_body]
pub(crate) fn build_regex_set(patterns: &Vec<String>) -> (built: Option<regex::RegexSet>)
    ensures
        built matches Some(set) ==> regex_set_patterns(set) == texts(patterns@),
{
    match regex::RegexSet::new(patterns) {
        Ok(set) => Some(set),
        Err(_) => None,
    }
}

/// Runs `RegexSet::matches` and hands out the matching indices. The set
/// reports the index of each of its expressions that matches the haystack,
/// in ascending order.
#[verifier::external_body]
pub(crate) fn regex_set_matches(set: &regex::RegexSet, haystack: &str) -> (found: Vec<usize>)
    ensures
        forall|k: int| 0 <= k < found@.len() ==> found@[k] < regex_set_patterns(*set).len(),
        forall|j: int, k: int| 0 <= j < k < found@.len() ==> found@[j] < found@[k],
        forall|i: int|
            0 <= i < regex_set_patterns(*set).len() ==> (found@.contains(i as usize)
                <==> #[trigger] regex_is_match(regex_set_patterns(*set)[i], haystack@)),
{
    set.matches(haystack).into_iter().collect()
}

} // verus!
