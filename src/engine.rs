//! The regular-expression engine, seen through the values it takes and gives.
//!
//! A pattern is held as its text. What the engine makes of a pattern (its
//! capture groups) and of a pattern and a line (the captured texts) is a
//! function of those texts alone; the names below stand for it.

use vstd::prelude::*;
use crate::parser::opt_string_view;

verus! {

/// The capture groups of `pattern`, in the order of their opening
/// parentheses, group 0 (the whole match, unnamed) first; each with its name,
/// if it has one. `None` where `pattern` is not a valid regular expression.
pub uninterp spec fn regex_groups(pattern: Seq<char>) -> Option<Seq<Option<Seq<char>>>>;

/// The first match of `pattern` in `line`: for each capture group, the text
/// it matched, if it took part. `None` where there is no match, or where
/// `pattern` is not a valid regular expression.
pub uninterp spec fn regex_captures(pattern: Seq<char>, line: Seq<char>) -> Option<
    Seq<Option<Seq<char>>>,
>;

pub open spec fn opt_str_view(o: Option<&str>) -> Option<Seq<char>> {
    match o {
        Some(s) => Some(s@),
        None => None,
    }
}

pub open spec fn opt_strs_view(v: Seq<Option<String>>) -> Seq<Option<Seq<char>>> {
    v.map_values(|o: Option<String>| opt_string_view(o))
}

/// Characters that have a meaning in a regular expression.
pub open spec fn is_meta(c: char) -> bool {
    c == '\\' || c == '.' || c == '+' || c == '*' || c == '?' || c == '(' || c == ')' || c == '|'
        || c == '[' || c == ']' || c == '{' || c == '}' || c == '^' || c == '$' || c == '#'
        || c == '&' || c == '-' || c == '~'
}

/// `s` with a `\` put before each meta character, so that it matches itself.
pub open spec fn escape_spec(s: Seq<char>) -> Seq<char>
    decreases s.len(),
{
    if s.len() == 0 {
        Seq::empty()
    } else {
        escape_spec(s.drop_last()) + if is_meta(s.last()) {
            seq!['\\', s.last()]
        } else {
            seq![s.last()]
        }
    }
}

/// Relies on `regex::escape`: every meta character of `text` gets a `\` before it.
#[verifier::external_body]
pub(crate) fn escape(text: &str) -> (r: String)
    ensures
        r@ == escape_spec(text@),
{
    regex::escape(text)
}

/// Relies on `regex::Regex::new` and `Regex::capture_names`: compiles `pattern`
/// and lists its capture groups, or gives the compiler's message.
#[verifier::external_body]
pub(crate) fn compile_groups(pattern: &str) -> (r: Result<Vec<Option<String>>, String>)
    ensures
        r is Ok <==> regex_groups(pattern@) is Some,
        r matches Ok(v) ==> opt_strs_view(v@) == regex_groups(pattern@)->0 && v@.len() >= 1
            && v@[0] is None,
{
    match regex::Regex::new(pattern) {
        Ok(re) => Ok(re.capture_names().map(|n| n.map(|s| s.to_string())).collect()),
        Err(e) => Err(e.to_string()),
    }
}

pub open spec fn caps_view<'a>(v: Seq<Option<&'a str>>) -> Seq<Option<Seq<char>>> {
    v.map_values(|o: Option<&'a str>| opt_str_view(o))
}

/// Relies on `regex::Regex::new` and `Regex::captures`: compiles `pattern`
/// once, then gives for each line the texts that the groups capture in its
/// first match (`None` where it does not match, or where `pattern` does not
/// compile). A match has one entry per capture group (`Captures::len` equals
/// the length of `capture_names`).
#[verifier::external_body]
pub(crate) fn captures_each<'a>(pattern: &str, lines: &Vec<&'a str>) -> (r: Vec<Option<Vec<Option<&'a str>>>>)
    ensures
        r@.len() == lines@.len(),
        forall|i: int|
            0 <= i < lines@.len() ==> (#[trigger] r@[i] is Some <==> regex_captures(pattern@, lines@[i]@) is Some),
        forall|i: int|
            0 <= i < lines@.len() ==> (#[trigger] r@[i] matches Some(v) ==> caps_view(v@)
                == regex_captures(pattern@, lines@[i]@)->0),
        forall|i: int|
            0 <= i < lines@.len() ==> (#[trigger] r@[i] matches Some(v) ==> regex_groups(pattern@) is Some
                && v@.len() == regex_groups(pattern@)->0.len()),
{
    match regex::Regex::new(pattern) {
        Ok(re) => lines
            .iter()
            .map(|l| re.captures(l).map(|c| c.iter().map(|m| m.map(|m| m.as_str())).collect()))
            .collect(),
        Err(_) => lines.iter().map(|_| None).collect(),
    }
}

} // verus!
