//! The shapes of the tokens that the grammar notation and the programs are
//! made of. Each shape is stated as a predicate on characters; the matching
//! itself is done by the `regex` crate.

use vstd::prelude::*;
use crate::text::option_text;

verus! {

/// An upper-case ASCII letter.
pub open spec fn is_upper(c: char) -> bool {
    'A' <= c && c <= 'Z'
}

/// A lower-case ASCII letter.
pub open spec fn is_lower(c: char) -> bool {
    'a' <= c && c <= 'z'
}

/// The shape of a name chosen by a program's author: an upper-case ASCII
/// letter, then ASCII letters and dashes only.
pub open spec fn is_user_specified_name(token: Seq<char>) -> bool {
    &&& token.len() >= 1
    &&& is_upper(token[0])
    &&& forall|i: int|
        1 <= i < token.len() ==> is_upper(#[trigger] token[i]) || is_lower(token[i]) || token[i]
            == '-'
}

/// The shape of a rule name in the grammar notation: upper-case ASCII
/// letters and dashes, at least one, between `<` and `>`.
pub open spec fn is_rule_name(token: Seq<char>) -> bool {
    &&& token.len() >= 3
    &&& token[0] == '<'
    &&& token[token.len() - 1] == '>'
    &&& forall|i: int|
        1 <= i < token.len() - 1 ==> is_upper(#[trigger] token[i]) || token[i] == '-'
}

/// The text between the double quotes of a quoted literal: at least one
/// character, none of them a double quote.
pub open spec fn quoted_text(token: Seq<char>) -> Option<Seq<char>> {
    if token.len() >= 3 && token[0] == '"' && token[token.len() - 1] == '"' && (forall|i: int|
        1 <= i < token.len() - 1 ==> #[trigger] token[i] != '"') {
        Some(token.subrange(1, token.len() - 1))
    } else {
        None
    }
}

/// The rule name and the separator of a repetition: a rule name, a star,
/// and one quoted character that is not a line feed.
pub open spec fn repetition_parts(token: Seq<char>) -> Option<(Seq<char>, Seq<char>)> {
    let n = token.len() as int;
    if n >= 7 && is_rule_name(token.subrange(0, n - 4)) && token[n - 4] == '*' && token[n - 3]
        == '"' && token[n - 2] != '\n' && token[n - 1] == '"' {
        Some((token.subrange(0, n - 4), token.subrange(n - 2, n - 1)))
    } else {
        None
    }
}

/// Matches `token` against the pattern `^[A-Z][a-zA-Z-]*$` with
/// `regex::Regex::new` and `regex::Regex::is_match`.
///
/// Taken on trust: that the match holds exactly of the tokens that
/// [`is_user_specified_name`] describes. The pattern is anchored at both
/// ends of the token, so the whole token has to have the shape; its classes
/// hold ASCII letters and the dash only.
#[verifier::external_body]
pub(crate) fn matches_user_specified_name(token: &str) -> (matches: bool)
    ensures
        matches == is_user_specified_name(token@),
{
    regex::Regex::new("^[A-Z][a-zA-Z-]*$").unwrap().is_match(token)
}

/// Matches `token` against the pattern `^"([^"]+)"$` with
/// `regex::Regex::new` and `regex::Regex::captures`, and hands out a copy of
/// the first group.
///
/// Taken on trust: that the match holds exactly where [`quoted_text`] finds
/// a text, and that the first group is that text. A negated class takes any
/// character but the one it names, a line feed too.
#[verifier::external_body]
pub(crate) fn capture_quoted(token: &str) -> (inner: Option<String>)
    ensures
        option_text(inner) == quoted_text(token@),
{
    match regex::Regex::new("^\"([^\"]+)\"$").unwrap().captures(token) {
        Some(captures) => Some(captures[1].to_string()),
        None => None,
    }
}

/// Matches `token` against the pattern `^(<[A-Z-]+>)$` with
/// `regex::Regex::new` and `regex::Regex::is_match`.
///
/// Taken on trust: that the match holds exactly of the tokens that
/// [`is_rule_name`] describes.
#[verifier::external_body]
pub(crate) fn matches_rule_name(token: &str) -> (matches: bool)
    ensures
        matches == is_rule_name(token@),
{
    regex::Regex::new("^(<[A-Z-]+>)$").unwrap().is_match(token)
}

/// Matches `token` against the pattern `^(<[A-Z-]+>)\*"(.)"$` with
/// `regex::Regex::new` and `regex::Regex::captures`, and hands out copies of
/// both groups.
///
/// Taken on trust: that the match holds exactly where [`repetition_parts`]
/// finds a rule name and a separator, and that the groups are those two.
/// The dot takes any one character but a line feed.
#[verifier::external_body]
pub(crate) fn capture_repetition(token: &str) -> (parts: Option<(String, String)>)
    ensures
        match parts {
            Some((rule_name, separator)) => repetition_parts(token@) == Some(
                (rule_name@, separator@),
            ),
            None => repetition_parts(token@) is None,
        },
{
    match regex::Regex::new("^(<[A-Z-]+>)\\*\"(.)\"$").unwrap().captures(token) {
        Some(captures) => Some((captures[1].to_string(), captures[2].to_string())),
        None => None,
    }
}

} // verus!
