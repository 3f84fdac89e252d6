use vstd::prelude::*;
use regex::Regex;
use crate::text::optional_text;

verus! {

/// `regex::Regex`: a compiled pattern. Nothing of its inside is seen here.
#[verifier::external_type_specification]
#[verifier::external_body]
pub struct ExRegex(Regex);

/// `regex::Error`: why a pattern was refused. Nothing of its inside is seen here.
#[verifier::external_type_specification]
#[verifier::external_body]
pub struct ExRegexError(regex::Error);

/// The groups of one match: the text that each group took, the whole match
/// first; nothing for a group that took no part in the match.
pub type Groups = Vec<Option<String>>;

/// The pattern that a compiled expression was made from.
pub uninterp spec fn pattern_of(re: Regex) -> Seq<char>;

/// Whether `Regex::new` compiles the pattern.
pub uninterp spec fn compiles(pattern: Seq<char>) -> bool;

/// The groups of the first match of the pattern in the text, if it matches at all.
pub uninterp spec fn first_match(pattern: Seq<char>, text: Seq<char>) -> Option<Seq<Option<Seq<char>>>>;

/// The groups of each match of the pattern in the text, from left to right, no two overlapping.
pub uninterp spec fn all_matches(pattern: Seq<char>, text: Seq<char>) -> Seq<Seq<Option<Seq<char>>>>;

/// What the groups of one match hold, as plain text.
pub open spec fn groups_text(groups: Groups) -> Seq<Option<Seq<char>>> {
    Seq::new(groups@.len(), |i: int| optional_text(groups@[i]))
}

/// What the groups of several matches hold, as plain text.
pub open spec fn matches_text(found: Seq<Groups>) -> Seq<Seq<Option<Seq<char>>>> {
    Seq::new(found.len(), |i: int| groups_text(found[i]))
}

/// `Regex::new`: compiles a pattern. Whether it does depends on the pattern
/// alone, and the compiled expression remembers the pattern it was made from.
#[verifier::external_body]
pub(crate) fn compile(pattern: &str) -> (r: Result<Regex, regex::Error>)
    ensures
        r is Ok <==> compiles(pattern@),
        r matches Ok(re) ==> pattern_of(re) == pattern@,
{
    Regex::new(pattern)
}

/// `Regex::captures`: the groups of the leftmost match, each handed out as an
/// owned string. What comes back depends on the pattern and the text alone.
#[verifier::external_body]
pub(crate) fn capture_first(re: &Regex, text: &str) -> (r: Option<Groups>)
    ensures
        match r {
            Some(groups) => first_match(pattern_of(*re), text@) == Some(groups_text(groups)),
            None => first_match(pattern_of(*re), text@) is None,
        },
{
    re.captures(text).map(|c| c.iter().map(|m| m.map(|m| m.as_str().to_string())).collect())
}

/// `Regex::captures_iter`: the groups of every match, in the order in which the
/// matches stand in the text, each handed out as an owned string. What comes
/// back depends on the pattern and the text alone.
#[verifier::external_body]
pub(crate) fn capture_all(re: &Regex, text: &str) -> (r: Vec<Groups>)
    ensures
        matches_text(r@) == all_matches(pattern_of(*re), text@),
{
    re.captures_iter(text).map(|c| c.iter().map(|m| m.map(|m| m.as_str().to_string())).collect()).collect()
}

} // verus!
