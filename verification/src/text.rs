//! Plain-text helpers shared by the loader, the interpreter and the generator.

use vstd::prelude::*;
use vstd::string::StringExecFns;

verus! {

/// The texts of a sequence of borrowed tokens.
pub open spec fn texts(tokens: Seq<&str>) -> Seq<Seq<char>> {
    tokens.map_values(|t: &str| t@)
}

/// The texts of a sequence of owned strings.
pub open spec fn string_views(strings: Seq<String>) -> Seq<Seq<char>> {
    strings.map_values(|s: String| s@)
}

/// The text of an optional string.
pub open spec fn option_text(text: Option<String>) -> Option<Seq<char>> {
    match text {
        Some(s) => Some(s@),
        None => None,
    }
}

/// The next token of a stream, if there is one.
pub open spec fn lookahead(tokens: Seq<Seq<char>>) -> Option<Seq<char>> {
    if tokens.len() > 0 {
        Some(tokens[0])
    } else {
        None
    }
}

/// `rest` is what is left of `tokens` once some of them were taken from the
/// front: nothing was put back and nothing changed places.
pub open spec fn left_of<T>(rest: Seq<T>, tokens: Seq<T>) -> bool {
    rest.len() <= tokens.len() && rest =~= tokens.skip(tokens.len() - rest.len())
}

/// What is left of what is left of a stream is left of that stream.
pub broadcast proof fn lemma_left_of_transitive<T>(a: Seq<T>, b: Seq<T>, c: Seq<T>)
    requires
        #[trigger] left_of(a, b),
        #[trigger] left_of(b, c),
    ensures
        left_of(a, c),
{
}

/// A stream without its first token is left of the stream.
pub broadcast proof fn lemma_left_of_remove_first<T>(tokens: Seq<T>)
    requires
        tokens.len() > 0,
    ensures
        left_of(#[trigger] tokens.remove(0), tokens),
{
}

/// Taking the first token off a stream takes the first text off its texts.
pub proof fn lemma_texts_remove_first(tokens: Seq<&str>)
    requires
        tokens.len() > 0,
    ensures
        texts(tokens.remove(0)) == texts(tokens).skip(1),
        texts(tokens)[0] == tokens[0]@,
{
}

/// Lexicographic order on texts, character by character, by code point.
pub open spec fn text_less(a: Seq<char>, b: Seq<char>) -> bool
    decreases a.len(),
{
    if b.len() == 0 {
        false
    } else if a.len() == 0 {
        true
    } else if a[0] != b[0] {
        (a[0] as int) < (b[0] as int)
    } else {
        text_less(a.drop_first(), b.drop_first())
    }
}

/// No text comes before itself.
pub proof fn lemma_text_less_irreflexive(a: Seq<char>)
    ensures
        !text_less(a, a),
    decreases a.len(),
{
    if a.len() > 0 {
        lemma_text_less_irreflexive(a.drop_first());
    }
}

/// The order is transitive.
pub proof fn lemma_text_less_transitive(a: Seq<char>, b: Seq<char>, c: Seq<char>)
    requires
        text_less(a, b),
        text_less(b, c),
    ensures
        text_less(a, c),
    decreases a.len(),
{
    if a.len() > 0 && a[0] == b[0] && b[0] == c[0] {
        lemma_text_less_transitive(a.drop_first(), b.drop_first(), c.drop_first());
    }
}

/// Of two different texts one comes before the other.
pub proof fn lemma_text_less_connected(a: Seq<char>, b: Seq<char>)
    requires
        a != b,
    ensures
        text_less(a, b) || text_less(b, a),
    decreases a.len(),
{
    if a.len() > 0 && b.len() > 0 && a[0] == b[0] {
        if a.drop_first() == b.drop_first() {
            assert(a =~= seq![a[0]] + a.drop_first());
            assert(b =~= seq![b[0]] + b.drop_first());
        }
        lemma_text_less_connected(a.drop_first(), b.drop_first());
    } else if a.len() == 0 && b.len() == 0 {
        assert(a =~= b);
    }
}

/// A sequence of texts in strictly increasing order.
pub open spec fn strictly_increasing(names: Seq<Seq<char>>) -> bool {
    forall|i: int, j: int| 0 <= i < j < names.len() ==> text_less(#[trigger] names[i], #[trigger] names[j])
}

/// The whitespace-separated words of a text, in order. This names what
/// `str::split_whitespace` yields; the words are not spelled out here.
pub uninterp spec fn whitespace_words(s: Seq<char>) -> Seq<Seq<char>>;

/// A text as the standard library's `Debug` formatting of `str` writes it:
/// between double quotes, with what cannot stand there escaped. This names
/// the result; the escapes are not spelled out here.
pub uninterp spec fn debug_quoted(s: Seq<char>) -> Seq<char>;

/// Writes a string slice with the standard library's `Debug` formatting,
/// `{:?}`, which gives a string literal of Rust.
///
/// Taken on trust: that the result depends on the text alone, so that it
/// can go by the name [`debug_quoted`].
#[verifier::external_body]
pub(crate) fn quote(s: &str) -> (quoted: String)
    ensures
        quoted@ == debug_quoted(s@),
{
    format!("{:?}", s)
}

/// Compares two string slices with `str`'s `==`.
///
/// Taken on trust: that the comparison holds exactly when both slices hold
/// the same characters.
#[verifier::external_body]
pub(crate) fn same_text(a: &str, b: &str) -> (same: bool)
    ensures
        same == (a@ == b@),
{
    a == b
}

/// Compares two string slices with `str`'s `<`.
///
/// Taken on trust: that the standard library orders strings
/// lexicographically by their bytes, which is the order of their code
/// points that [`text_less`] spells out.
#[verifier::external_body]
pub(crate) fn text_before(a: &str, b: &str) -> (before: bool)
    ensures
        before == text_less(a@, b@),
{
    a < b
}

/// Splits a text with `str::split_whitespace` and collects the words, each a
/// slice of the input.
///
/// Taken on trust: that the words depend on the text alone, so that they
/// can go by the name [`whitespace_words`].
#[verifier::external_body]
pub(crate) fn split_words<'a>(s: &'a str) -> (words: Vec<&'a str>)
    ensures
        texts(words@) == whitespace_words(s@),
{
    s.split_whitespace().collect()
}

/// A copy of the next token of a stream, if there is one.
pub fn peek<'a>(tokens: &Vec<&'a str>) -> (found: Option<String>)
    ensures
        option_text(found) == lookahead(texts(tokens@)),
{
    if tokens.len() > 0 {
        Some(tokens[0].to_owned())
    } else {
        None
    }
}

/// Adds a line to the end of `lines`.
pub fn put(lines: &mut Vec<String>, line: String)
    ensures
        string_views(final(lines)@) == string_views(old(lines)@).push(line@),
{
    lines.push(line);
}

/// Adds all of `more` to the end of `lines`.
pub fn put_all(lines: &mut Vec<String>, more: Vec<String>)
    ensures
        string_views(final(lines)@) == string_views(old(lines)@) + string_views(more@),
{
    let mut more = more;
    lines.append(&mut more);
}

/// The decimal digit that stands for a number below ten.
pub open spec fn digit_text(d: nat) -> Seq<char> {
    if d == 0 {
        "0"@
    } else if d == 1 {
        "1"@
    } else if d == 2 {
        "2"@
    } else if d == 3 {
        "3"@
    } else if d == 4 {
        "4"@
    } else if d == 5 {
        "5"@
    } else if d == 6 {
        "6"@
    } else if d == 7 {
        "7"@
    } else if d == 8 {
        "8"@
    } else {
        "9"@
    }
}

/// A number in decimal notation, without leading zeros.
pub open spec fn decimal_text(n: nat) -> Seq<char>
    decreases n,
{
    if n < 10 {
        digit_text(n)
    } else {
        decimal_text(n / 10) + digit_text(n % 10)
    }
}

/// The decimal digit that stands for a number below ten.
fn digit(d: usize) -> (text: &'static str)
    requires
        d < 10,
    ensures
        text@ == digit_text(d as nat),
{
    if d == 0 {
        "0"
    } else if d == 1 {
        "1"
    } else if d == 2 {
        "2"
    } else if d == 3 {
        "3"
    } else if d == 4 {
        "4"
    } else if d == 5 {
        "5"
    } else if d == 6 {
        "6"
    } else if d == 7 {
        "7"
    } else if d == 8 {
        "8"
    } else {
        "9"
    }
}

/// Writes a number in decimal notation.
pub fn decimal(n: usize) -> (text: String)
    ensures
        text@ == decimal_text(n as nat),
    decreases n,
{
    if n < 10 {
        String::from_str(digit(n))
    } else {
        let mut text = decimal(n / 10);
        text.append(digit(n % 10));
        text
    }
}

} // verus!
