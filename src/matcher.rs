//! Regular expressions over sensor keys, as the `regex` crate provides them.
//!
//! What a pattern matches is not restated here: the names below stand for the
//! crate's answers, which depend on the pattern and the key alone.

use vstd::prelude::*;

verus! {

#[verifier::external_type_specification]
#[verifier::external_body]
pub struct ExRegex(regex::Regex);

#[verifier::external_type_specification]
#[verifier::external_body]
pub struct ExRegexError(regex::Error);

/// Whether `Regex::new` accepts the pattern.
pub uninterp spec fn pattern_is_valid(pattern: Seq<char>) -> bool;

/// The pattern that a compiled expression was built from (`Regex::as_str`).
pub uninterp spec fn regex_source(re: regex::Regex) -> Seq<char>;

/// Whether the pattern matches somewhere in the key (`Regex::is_match`).
pub uninterp spec fn key_matches(pattern: Seq<char>, key: Seq<char>) -> bool;

/// The text of each capture group of the leftmost-first match of the pattern
/// in the key, group 0 being the whole match (`Regex::captures`).
pub uninterp spec fn capture_groups(pattern: Seq<char>, key: Seq<char>) -> Seq<Option<Seq<char>>>;

pub open spec fn opt_view(o: Option<String>) -> Option<Seq<char>> {
    match o {
        Some(s) => Some(s@),
        None => None,
    }
}

/// A pattern over sensor keys, compiled by `Regex::new` with the crate's
/// default options; no other way builds one.
pub struct KeyPattern {
    re: regex::Regex,
}

impl View for KeyPattern {
    type V = Seq<char>;

    /// The pattern text the expression was compiled from.
    closed spec fn view(&self) -> Seq<char> {
        regex_source(self.re)
    }
}

/// Relies on `regex::Regex::new`: it either compiles the pattern with the
/// default options or reports an error, depending on the pattern alone; the
/// compiled expression keeps the pattern it was built from (`as_str`).
#[verifier::external_body]
fn compile_regex(pattern: &str) -> (r: Result<KeyPattern, regex::Error>)
    ensures
        r is Ok <==> pattern_is_valid(pattern@),
        r matches Ok(p) ==> regex_source(p.re) == pattern@,
{
    regex::Regex::new(pattern).map(|re| KeyPattern { re })
}

/// Relies on `regex::Regex::is_match`: whether an expression compiled with
/// the default options matches anywhere in the key.
#[verifier::external_body]
fn regex_is_match(p: &KeyPattern, key: &str) -> (r: bool)
    ensures
        r == key_matches(regex_source(p.re), key@),
{
    p.re.is_match(key)
}

/// Relies on `regex::Regex::captures` and `Captures::iter`, for an
/// expression compiled with the default options: no captures where it does
/// not match, else the text of every group in order, group 0 first and
/// always present.
#[verifier::external_body]
fn regex_captures(p: &KeyPattern, key: &str) -> (r: Option<Vec<Option<String>>>)
    ensures
        r is Some <==> key_matches(regex_source(p.re), key@),
        r matches Some(g) ==> g@.len() >= 1 && g@.map_values(|o: Option<String>| opt_view(o))
            == capture_groups(regex_source(p.re), key@),
{
    p.re.captures(key).map(|c| c.iter().map(|m| m.map(|m| m.as_str().to_string())).collect())
}

impl KeyPattern {
    /// Compiles a pattern; fails exactly where the pattern is not a valid
    /// regular expression.
    pub fn new(pattern: &str) -> (r: Result<KeyPattern, regex::Error>)
        ensures
            r is Ok <==> pattern_is_valid(pattern@),
            r matches Ok(p) ==> p@ == pattern@,
    {
        compile_regex(pattern)
    }

    /// Whether the pattern matches somewhere in the key.
    pub fn is_match(&self, key: &str) -> (r: bool)
        ensures
            r == key_matches(self@, key@),
    {
        regex_is_match(self, key)
    }

    /// The capture groups of the first match in the key, group 0 being the
    /// whole match; `None` where the pattern does not match.
    pub fn captures(&self, key: &str) -> (r: Option<Vec<Option<String>>>)
        ensures
            r is Some <==> key_matches(self@, key@),
            r matches Some(g) ==> g@.len() >= 1 && g@.map_values(|o: Option<String>| opt_view(o))
                == capture_groups(self@, key@),
    {
        regex_captures(self, key)
    }
}

} // verus!
