//! Regular expressions, as the `regex` crate matches them.

use regex::Error as RegexError;
use vstd::prelude::*;

verus! {

/// A compiled expression of the `regex` crate.
#[verifier::external_type_specification]
#[verifier::external_body]
pub struct ExRegex(regex::Regex);

/// Why the `regex` crate refuses an expression.
#[verifier::external_type_specification]
#[verifier::external_body]
pub struct ExRegexError(RegexError);

/// Whether the `regex` crate accepts an expression.
pub uninterp spec fn regex_accepts(source: Seq<char>) -> bool;

/// The matches of an expression in a line, from left to right: what stands
/// before each match, and what it matches.
pub uninterp spec fn regex_matches(source: Seq<char>, line: Seq<char>) -> Seq<
    (Seq<char>, Seq<char>),
>;

/// A regular expression.
#[derive(Debug)]
pub struct Pattern {
    source: String,
    compiled: regex::Regex,
}

impl View for Pattern {
    type V = Seq<char>;

    /// The expression as it was written.
    closed spec fn view(&self) -> Seq<char> {
        self.source@
    }
}

/// The texts of some matches.
pub open spec fn match_views(matches: Seq<(String, String)>) -> Seq<(Seq<char>, Seq<char>)> {
    Seq::new(matches.len(), |i: int| (matches[i].0@, matches[i].1@))
}

impl Pattern {
    /// Calls `regex::Regex::new`. Whether it accepts an expression depends on
    /// the expression alone.
    #[verifier::external_body]
    pub(crate) fn new(source: &str) -> (result: std::result::Result<Pattern, RegexError>)
        ensures
            result is Ok <==> regex_accepts(source@),
            result matches Ok(pattern) ==> pattern@ == source@,
    {
        let compiled = regex::Regex::new(source)?;
        Ok(Pattern { source: source.to_owned(), compiled })
    }

    /// Calls `regex::Regex::find_iter` and copies, for each match, the part of
    /// the line before it and the part that it covers. The matches depend on the
    /// expression and the line alone. Each lies in the line, and none overlaps
    /// the one before it.
    #[verifier::external_body]
    pub(crate) fn find_all(&self, line: &str) -> (matches: Vec<(String, String)>)
        ensures
            match_views(matches@) == regex_matches(self@, line@),
            forall|i: int|
                0 <= i < matches@.len() ==> (#[trigger] matches@[i]).0@.len()
                    + matches@[i].1@.len() <= line@.len() && matches@[i].0@ + matches@[i].1@
                    == line@.take((matches@[i].0@.len() + matches@[i].1@.len()) as int),
            forall|i: int, j: int|
                0 <= i < j < matches@.len() ==> (#[trigger] matches@[i]).0@.len()
                    + matches@[i].1@.len() <= (#[trigger] matches@[j]).0@.len(),
    {
        self.compiled.find_iter(line).map(
            |found| (line[..found.start()].to_owned(), found.as_str().to_owned()),
        ).collect()
    }

    /// The expression as it was written.
    pub fn source(&self) -> (source: &str)
        ensures
            source@ == self@,
    {
        self.source.as_str()
    }
}

} // verus!
