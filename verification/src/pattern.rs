//! The regular expression engine, as far as the library uses it.
//!
//! What the `regex` crate does is not proved here. The items that speak of it
//! say what it is taken to do, and the rest of the library is verified
//! against these statements.

use vstd::prelude::*;
use vstd::utf8::*;

verus! {

/// `regex::Error`: why the engine did not accept a pattern. The library
/// never looks inside.
#[verifier::external_type_specification]
#[verifier::external_body]
pub struct ExPatternError(regex::Error);

/// The characters that mean something in a regular expression.
pub open spec fn is_meta(c: char) -> bool {
    c == '\\' || c == '.' || c == '+' || c == '*' || c == '?' || c == '(' || c == ')' || c == '|'
        || c == '[' || c == ']' || c == '{' || c == '}' || c == '^' || c == '$' || c == '#' || c
        == '&' || c == '-' || c == '~'
}

/// The text with a backslash before each character that means something in a
/// regular expression.
pub open spec fn escaped(text: Seq<char>) -> Seq<char>
    decreases text.len(),
{
    if text.len() == 0 {
        seq![]
    } else if is_meta(text.last()) {
        escaped(text.drop_last()) + seq!['\\', text.last()]
    } else {
        escaped(text.drop_last()) + seq![text.last()]
    }
}

/// `regex::escape`: the argument, character by character, with a backslash
/// put before each meta character of the regex syntax.
pub assume_specification[ regex::escape ](pattern: &str) -> (r: String)
    ensures
        r@ == escaped(pattern@),
;

/// Where `Regex::find` finds the leftmost match of `pattern` in `haystack`, as
/// the byte offsets of its start and its end, once `Regex::new` has compiled
/// the pattern.
pub uninterp spec fn leftmost_match(pattern: Seq<char>, haystack: Seq<char>) -> Option<
    (usize, usize),
>;

/// A span lies within a text, between two character boundaries of its UTF-8
/// encoding.
pub open spec fn fits(text: Seq<char>, start: int, end: int) -> bool {
    &&& 0 <= start <= end <= encode_utf8(text).len()
    &&& is_char_boundary(encode_utf8(text), start)
    &&& is_char_boundary(encode_utf8(text), end)
}

/// `Regex::new` followed by `Regex::find`: compiles the pattern and searches
/// the haystack for its leftmost match.
///
/// Compiling may fail, and nothing is claimed of when. If it succeeds, the
/// result is the one that `leftmost_match` names, and a match's offsets are
/// as `Match::start` and `Match::end` document them: in order, within the
/// haystack, and on character boundaries.
#[verifier::external_body]
fn search(pattern: &str, haystack: &str) -> (r: Result<Option<(usize, usize)>, regex::Error>)
    ensures
        r matches Ok(found) ==> {
            &&& found == leftmost_match(pattern@, haystack@)
            &&& found matches Some((start, end)) ==> fits(haystack@, start as int, end as int)
        },
{
    let compiled = regex::Regex::new(pattern)?;
    Ok(compiled.find(haystack).map(|m| (m.start(), m.end())))
}

/// The regex engine did not accept a pattern.
#[derive(Clone, Copy, Debug, PartialEq, Eq)]
pub struct PatternRejected;

/// Looks for the leftmost match of a pattern in a text.
///
/// Where the engine accepts the pattern, the result is the match that
/// `leftmost_match` names, and a match fits the text.
pub fn locate(pattern: &str, text: &str) -> (r: Result<Option<(usize, usize)>, PatternRejected>)
    ensures
        r matches Ok(found) ==> {
            &&& found == leftmost_match(pattern@, text@)
            &&& found matches Some((start, end)) ==> fits(text@, start as int, end as int)
        },
{
    match search(pattern, text) {
        Ok(found) => Ok(found),
        Err(_) => Err(PatternRejected),
    }
}

} // verus!
