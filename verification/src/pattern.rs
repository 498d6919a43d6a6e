//! Regular expressions, as the `regex` crate compiles and runs them.
//!
//! What a pattern matches is not restated here: the results of the crate are
//! given names, and the analyzers state their own results over those names.

use vstd::prelude::*;

verus! {

/// Whether `pattern` matches anywhere in `haystack`; nothing where the
/// pattern does not compile.
pub uninterp spec fn regex_matches(pattern: Seq<char>, haystack: Seq<char>) -> Option<bool>;

/// For each successive non-overlapping match of `pattern` in `haystack`, the
/// text of its first capture group, if the group took part in the match;
/// nothing where the pattern does not compile.
pub uninterp spec fn regex_first_groups(pattern: Seq<char>, haystack: Seq<char>) -> Option<
    Seq<Option<Seq<char>>>,
>;

/// The characters that mean something in a regular expression.
pub open spec fn is_meta_character(c: char) -> bool {
    c == '\\' || c == '.' || c == '+' || c == '*' || c == '?' || c == '(' || c == ')' || c == '|'
        || c == '[' || c == ']' || c == '{' || c == '}' || c == '^' || c == '$' || c == '#' || c
        == '&' || c == '-' || c == '~'
}

/// `text` with a backslash before each of its meta characters.
pub open spec fn regex_escaped(text: Seq<char>) -> Seq<char>
    decreases text.len(),
{
    if text.len() == 0 {
        Seq::empty()
    } else if is_meta_character(text.last()) {
        regex_escaped(text.drop_last()).push('\\').push(text.last())
    } else {
        regex_escaped(text.drop_last()).push(text.last())
    }
}

/// The character sequences of a sequence of optional strings.
pub open spec fn option_texts(strings: Seq<Option<String>>) -> Seq<Option<Seq<char>>> {
    Seq::new(
        strings.len(),
        |i: int|
            match strings[i] {
                Some(s) => Some(s@),
                None => None,
            },
    )
}

/// What the groups of a search say, as plain values.
pub open spec fn groups_view(groups: Option<Vec<Option<String>>>) -> Option<
    Seq<Option<Seq<char>>>,
> {
    match groups {
        Some(found) => Some(option_texts(found@)),
        None => None,
    }
}

/// `Regex::is_match` on the expression that `Regex::new` compiles from
/// `pattern`: whether the expression matches somewhere in `haystack`, and
/// nothing where `Regex::new` fails.
#[verifier::external_body]
pub(crate) fn is_match(pattern: &str, haystack: &str) -> (found: Option<bool>)
    ensures
        found == regex_matches(pattern@, haystack@),
{
    match regex::Regex::new(pattern) {
        Ok(re) => Some(re.is_match(haystack)),
        Err(_) => None,
    }
}

/// `Regex::captures_iter` on the expression that `Regex::new` compiles from
/// `pattern`: the first capture group of each successive match in
/// `haystack`, read with `Captures::get` and copied, and nothing where
/// `Regex::new` fails.
#[verifier::external_body]
pub(crate) fn first_groups(pattern: &str, haystack: &str) -> (groups: Option<Vec<Option<String>>>)
    ensures
        groups_view(groups) == regex_first_groups(pattern@, haystack@),
{
    match regex::Regex::new(pattern) {
        Ok(re) => Some(
            re.captures_iter(haystack).map(|c| c.get(1).map(|m| m.as_str().to_string())).collect(),
        ),
        Err(_) => None,
    }
}

/// `regex::escape`: the text as a pattern that matches it literally, which
/// is the text with a backslash before each meta character.
#[verifier::external_body]
pub(crate) fn escape(text: &str) -> (escaped: String)
    ensures
        escaped@ == regex_escaped(text@),
{
    regex::escape(text)
}

} // verus!
