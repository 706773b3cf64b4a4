//! Regular-expression matching, provided by an outside engine. The matching
//! rules and the verification comparator only need to know whether a pattern
//! compiles and whether it matches somewhere in a text; both are functions of
//! the pattern and the text alone, so they are given names here.

use vstd::prelude::*;

verus! {

/// Whether `pattern` is a well-formed regular expression.
pub uninterp spec fn regex_valid(pattern: Seq<char>) -> bool;

/// Whether `pattern` matches somewhere inside `text` (anchors in the pattern
/// itself restrict where).
pub uninterp spec fn regex_match(pattern: Seq<char>, text: Seq<char>) -> bool;

/// Relies on regex::Regex::new (whether a pattern compiles depends on the
/// pattern alone) and regex::Regex::is_match (whether a compiled pattern
/// matches a text depends on the pattern and the text alone).
#[verifier::external_body]
pub fn regex_is_match(pattern: &str, text: &str) -> (r: Option<bool>)
    ensures
        r is Some <==> regex_valid(pattern@),
        r is Some ==> r->0 == regex_match(pattern@, text@),
{
    regex::Regex::new(pattern).ok().map(|re| re.is_match(text))
}

} // verus!
