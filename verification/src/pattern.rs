//! Regular expressions, compiled and matched by the `regex` crate.

use crate::text::contains;
use vstd::prelude::*;

verus! {

/// A compiled regular expression of the `regex` crate.
#[verifier::external_type_specification]
#[verifier::external_body]
pub struct ExRegex(regex::Regex);

/// Whether the `regex` crate accepts `pattern`.
pub uninterp spec fn regex_compiles(pattern: Seq<char>) -> bool;

/// The pattern that a compiled expression was made from.
pub uninterp spec fn regex_source(re: regex::Regex) -> Seq<char>;

/// Whether the expression made from `pattern` matches somewhere in `text`.
pub uninterp spec fn regex_matches(pattern: Seq<char>, text: Seq<char>) -> bool;

/// `pattern` with its meta characters escaped.
pub uninterp spec fn regex_escaped(text: Seq<char>) -> Seq<char>;

/// `regex::Regex::new`: the compiled expression, or `None` when the pattern is
/// malformed or too big. The pattern alone decides.
#[verifier::external_body]
pub(crate) fn compile(pattern: &str) -> (r: Option<regex::Regex>)
    ensures
        r is Some <==> regex_compiles(pattern@),
        r matches Some(re) ==> regex_source(re) == pattern@,
{
    regex::Regex::new(pattern).ok()
}

/// `regex::Regex::is_match`: whether the expression matches anywhere in `text`,
/// which its pattern and the text alone decide.
#[verifier::external_body]
pub(crate) fn is_match(re: &regex::Regex, text: &str) -> (r: bool)
    ensures
        r == regex_matches(regex_source(*re), text@),
{
    re.is_match(text)
}

/// `regex::escape`: `text` as a pattern that matches it literally, so that the
/// expression made from the pattern matches wherever `text` stands. Made to ignore
/// case, it matches there, too, and possibly elsewhere: what else it takes for the
/// same letters is left unsaid.
#[verifier::external_body]
pub(crate) fn escape(text: &str) -> (r: String)
    ensures
        r@ == regex_escaped(text@),
        forall|s: Seq<char>| #[trigger] regex_matches(r@, s) == contains(s, text@),
        forall|s: Seq<char>|
            contains(s, text@) ==> #[trigger] regex_matches("(?i)"@ + r@, s),
{
    regex::escape(text)
}

} // verus!
