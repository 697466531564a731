//! Regular expressions, compiled and matched with the `regex` crate.

use vstd::prelude::*;

verus! {

#[verifier::external_type_specification]
#[verifier::external_body]
pub struct ExRegex(regex::Regex);

/// Whether `regex::Regex::new` accepts `pattern`.
pub uninterp spec fn regex_valid(pattern: Seq<char>) -> bool;

/// The capture groups of the leftmost-first match of `pattern` in `text`
/// (`regex::Regex::captures`), group 0 being the whole match; `None` when
/// nothing matches.
pub uninterp spec fn regex_captures(pattern: Seq<char>, text: Seq<char>) -> Option<
    Seq<Option<Seq<char>>>,
>;

/// A compiled regular expression, viewed as its pattern text.
pub struct Pattern {
    regex: regex::Regex,
    source: Ghost<Seq<char>>,
}

impl View for Pattern {
    type V = Seq<char>;

    closed spec fn view(&self) -> Seq<char> {
        self.source@
    }
}

/// The capture groups of a match: for each group, the matched part of the
/// text, or `None` where the group did not take part in the match.
pub struct Captures<'t> {
    pub groups: Vec<Option<&'t str>>,
}

/// The view of one optional group.
pub open spec fn group_view(g: Option<&str>) -> Option<Seq<char>> {
    match g {
        Some(s) => Some(s@),
        None => None,
    }
}

impl<'t> View for Captures<'t> {
    type V = Seq<Option<Seq<char>>>;

    open spec fn view(&self) -> Seq<Option<Seq<char>>> {
        self.groups@.map_values(|g: Option<&'t str>| group_view(g))
    }
}

/// The view of an optional match.
pub open spec fn captures_view(c: Option<Captures>) -> Option<Seq<Option<Seq<char>>>> {
    match c {
        Some(c) => Some(c@),
        None => None,
    }
}

/// Compiles `pattern` (`regex::Regex::new`): `Some` exactly when the pattern
/// is valid, viewed as its text.
#[verifier::external_body]
pub fn compile(pattern: &str) -> (res: Option<Pattern>)
    ensures
        res is Some <==> regex_valid(pattern@),
        res matches Some(p) ==> p@ == pattern@,
{
    match regex::Regex::new(pattern) {
        Ok(r) => Some(Pattern { regex: r, source: Ghost(pattern@) }),
        Err(_) => None,
    }
}

/// The capture groups of the leftmost-first match of `pattern` in `text`
/// (`regex::Regex::captures`).
#[verifier::external_body]
pub fn captures<'t>(pattern: &Pattern, text: &'t str) -> (res: Option<Captures<'t>>)
    ensures
        captures_view(res) == regex_captures(pattern@, text@),
{
    pattern.regex.captures(text).map(|c| Captures { groups: c.iter().map(|g| g.map(|m| m.as_str())).collect() })
}

} // verus!
