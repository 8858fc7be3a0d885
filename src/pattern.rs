//! Sort keys extracted from lines by a regular expression.

use vstd::prelude::*;
use regex::Regex;

verus! {

/// `regex::Regex`, carried opaquely.
#[verifier::external_type_specification]
#[verifier::external_body]
pub struct ExRegex(Regex);

/// `regex::Error`, carried opaquely.
#[verifier::external_type_specification]
#[verifier::external_body]
pub struct ExRegexError(regex::Error);

/// Whether the regular expression library accepts `pattern`.
pub uninterp spec fn pattern_compiles(pattern: Seq<char>) -> bool;

/// What matching `line` against `pattern` yields: `None` when the line does
/// not match, `Some(None)` when it matches but the first capture group took
/// no part in the match (or does not exist), and `Some(Some(k))` when that
/// group captured `k`.
pub uninterp spec fn first_group(pattern: Seq<char>, line: Seq<char>) -> Option<Option<Seq<char>>>;

/// The number of capture groups of `pattern`, counting the implicit group
/// of the whole match.
pub uninterp spec fn group_count_of(pattern: Seq<char>) -> nat;

/// `k` is a contiguous part of `line`.
pub open spec fn is_part_of(k: Seq<char>, line: Seq<char>) -> bool {
    exists|i: int, j: int| 0 <= i <= j <= line.len() && k == line.subrange(i, j)
}

/// Relies on `regex::Regex::new`: it fails exactly on patterns it does not
/// accept.
#[verifier::external_body]
fn compile(pattern: &str) -> (r: Result<Regex, regex::Error>)
    ensures
        r is Ok <==> pattern_compiles(pattern@),
{
    Regex::new(pattern)
}

/// A compiled regular expression together with its source text.
pub struct KeyPattern {
    source: String,
    regex: Regex,
}

impl KeyPattern {
    /// The source text of the expression.
    pub closed spec fn pattern(&self) -> Seq<char> {
        self.source@
    }

    /// Compiles `pattern`; `None` when it is not a valid expression.
    pub fn new(pattern: &str) -> (r: Option<KeyPattern>)
        ensures
            r is Some <==> pattern_compiles(pattern@),
            r matches Some(p) ==> p.pattern() == pattern@,
    {
        match compile(pattern) {
            Ok(regex) => Some(KeyPattern { source: pattern.to_string(), regex }),
            Err(_) => None,
        }
    }

    /// The source text of the expression.
    pub fn as_str(&self) -> (r: &str)
        ensures
            r@ == self.pattern(),
    {
        self.source.as_str()
    }

    /// Relies on `regex::Regex::captures_len`: the number of capture groups,
    /// the implicit group of the whole match included, so at least one.
    /// `regex` was compiled from `source` by `new`, the only place that
    /// builds a `KeyPattern`.
    #[verifier::external_body]
    pub(crate) fn group_count(&self) -> (r: usize)
        ensures
            r == group_count_of(self.pattern()),
            r >= 1,
    {
        self.regex.captures_len()
    }

    /// Relies on `regex::Regex::captures` and `regex::Captures::get`: the
    /// match of `line` and the text of its first capture group, which is a
    /// part of `line` (`Match::as_str` slices the haystack). `regex` was
    /// compiled from `source` by `new`, the only place that builds a
    /// `KeyPattern`.
    #[verifier::external_body]
    pub(crate) fn first_group(&self, line: &str) -> (r: Option<Option<Vec<char>>>)
        ensures
            match (r, first_group(self.pattern(), line@)) {
                (None, None) => true,
                (Some(None), Some(None)) => true,
                (Some(Some(k)), Some(Some(g))) => k@ == g && is_part_of(g, line@),
                _ => false,
            },
    {
        self.regex.captures(line).map(|c| c.get(1).map(|m| m.as_str().chars().collect()))
    }
}

} // verus!
