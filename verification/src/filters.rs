//! User, database and host filters: a filter matches everything, one exact string, or a regular
//! expression written between slashes.
use vstd::prelude::*;
use crate::text::{law_trim_idempotent, str_eq, trim, trim_str};
use vstd::string::*;

verus! {

/// A filter as the user typed it.
#[derive(Debug, Clone, PartialEq, Eq)]
pub enum StringOrRegex {
    MatchAll,
    Exact(String),
    Pattern(String),
}

/// The mathematical value of a filter.
pub enum FilterSpec {
    MatchAll,
    Exact(Seq<char>),
    Pattern(Seq<char>),
}

impl View for StringOrRegex {
    type V = FilterSpec;

    open spec fn view(&self) -> FilterSpec {
        match self {
            StringOrRegex::MatchAll => FilterSpec::MatchAll,
            StringOrRegex::Exact(s) => FilterSpec::Exact(s@),
            StringOrRegex::Pattern(p) => FilterSpec::Pattern(p@),
        }
    }
}

/// The filter that an input denotes: after trimming, empty input matches everything, input
/// wrapped in slashes is a regular expression, anything else must match exactly.
pub open spec fn filter_of(input: Seq<char>) -> FilterSpec {
    let t = trim(input);
    if t.len() == 0 {
        FilterSpec::MatchAll
    } else if t.len() >= 2 && t[0] == '/' && t.last() == '/' {
        FilterSpec::Pattern(t.subrange(1, t.len() - 1))
    } else {
        FilterSpec::Exact(t)
    }
}

/// Whether `regex::Regex::new` accepts `pattern`.
pub uninterp spec fn regex_compiles(pattern: Seq<char>) -> bool;

/// Whether the regular expression compiled from `pattern` matches somewhere in `text`,
/// as `regex::Regex::is_match` decides.
pub uninterp spec fn regex_finds(pattern: Seq<char>, text: Seq<char>) -> bool;

/// Compiles `pattern` with `regex::Regex::new` and, where that succeeds, asks
/// `regex::Regex::is_match` about `text`. The contract claims that `None` comes back exactly
/// when the pattern does not compile, and otherwise the verdict of `is_match`; both are taken
/// as functions of the strings, which the crate computes deterministically.
#[verifier::external_body]
fn regex_search(pattern: &str, text: &str) -> (r: Option<bool>)
    ensures
        r is Some <==> regex_compiles(pattern@),
        r matches Some(b) ==> b == regex_finds(pattern@, text@),
{
    match regex::Regex::new(pattern) {
        Ok(re) => Some(re.is_match(text)),
        Err(_) => None,
    }
}

/// Whether `filter` lets `value` through.
pub open spec fn filter_matches(filter: FilterSpec, value: Seq<char>) -> bool {
    match filter {
        FilterSpec::MatchAll => true,
        FilterSpec::Exact(s) => s == value,
        FilterSpec::Pattern(p) => regex_compiles(p) && regex_finds(p, value),
    }
}

/// The verdict of a pattern filter from the outcome of a regular expression search:
/// a pattern that did not compile matches nothing.
pub fn pattern_outcome(search: Option<bool>) -> (r: bool)
    ensures
        r == (search == Some(true)),
{
    match search {
        Some(found) => found,
        None => false,
    }
}

impl StringOrRegex {
    /// Reads a filter from user input.
    pub fn parse(input: &str) -> (r: Self)
        ensures
            r@ == filter_of(input@),
    {
        let trimmed = trim_str(input);
        let n = trimmed.unicode_len();
        if n == 0 {
            return StringOrRegex::MatchAll;
        }
        if n >= 2 && trimmed.get_char(0) == '/' && trimmed.get_char(n - 1) == '/' {
            return StringOrRegex::Pattern(String::from_str(trimmed.substring_char(1, n - 1)));
        }
        StringOrRegex::Exact(String::from_str(trimmed))
    }

    /// Whether `value` passes this filter.
    pub fn matches(&self, value: &str) -> (r: bool)
        ensures
            r == filter_matches(self@, value@),
    {
        match self {
            StringOrRegex::MatchAll => true,
            StringOrRegex::Exact(s) => str_eq(value, s.as_str()),
            StringOrRegex::Pattern(p) => pattern_outcome(regex_search(p.as_str(), value)),
        }
    }
}

/// The three filters of the thread list.
#[derive(Debug, Clone, PartialEq, Eq)]
pub struct Filters {
    pub user: StringOrRegex,
    pub db: StringOrRegex,
    pub host: StringOrRegex,
}

/// The filters that let every thread through.
pub open spec fn match_all_filters() -> Filters {
    Filters { user: StringOrRegex::MatchAll, db: StringOrRegex::MatchAll, host: StringOrRegex::MatchAll }
}

impl Default for Filters {
    fn default() -> (r: Self)
        ensures
            r == match_all_filters(),
    {
        Filters {
            user: StringOrRegex::MatchAll,
            db: StringOrRegex::MatchAll,
            host: StringOrRegex::MatchAll,
        }
    }
}

impl Filters {
    /// Sets every filter back to matching everything.
    pub fn reset(&mut self)
        ensures
            *final(self) == match_all_filters(),
    {
        *self = Filters::default();
    }
}


/// Whitespace around a filter does not change it.
pub proof fn law_filter_ignores_surrounding_space(input: Seq<char>)
    ensures
        filter_of(trim(input)) == filter_of(input),
{
    law_trim_idempotent(input);
}

/// An empty filter, and the reset filters, let every value through.
pub proof fn law_cleared_filters_match_everything(user: Seq<char>, db: Seq<char>, host: Seq<char>)
    ensures
        filter_matches(filter_of(Seq::empty()), user),
        filter_matches(match_all_filters().user@, user),
        filter_matches(match_all_filters().db@, db),
        filter_matches(match_all_filters().host@, host),
{
    assert(trim(Seq::<char>::empty()) == Seq::<char>::empty());
}

} // verus!
