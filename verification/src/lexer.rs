//! Cutting an expression into tokens.
//!
//! Where the next token lies is found by a regular expression built from the
//! symbols, the function names and the names of the constants. What is done
//! with the match is decided here: what may be skipped, what kind of token
//! the matched text is, and where the scan goes on.

use vstd::prelude::*;
use vstd::string::*;
use vstd::utf8::*;
use crate::constants::{lookup, names_of, Constants};
use crate::pattern::{escaped, fits, leftmost_match, locate};
use crate::text::{decimal, decimal_text, same_text};
use crate::token::{Token, TokenKind, TokenView};

verus! {

/// The alternatives that the names of the constants add to the pattern.
pub open spec fn alternatives(names: Seq<Seq<char>>) -> Seq<char>
    decreases names.len(),
{
    if names.len() == 0 {
        seq![]
    } else if names.len() == 1 {
        escaped(names[0])
    } else {
        alternatives(names.drop_last()) + seq!['|'] + escaped(names.last())
    }
}

/// The pattern of a token: a function name or a constant's name as a whole
/// word, a numeral, or one of the seven symbols.
pub open spec fn pattern_for(names: Seq<Seq<char>>) -> Seq<char> {
    if names.len() == 0 {
        r"\b(sin|cos|tg|ctg)\b|\d*\.\d+|\d+|[()+\-*/^]"@
    } else {
        r"\b(sin|cos|tg|ctg|"@ + alternatives(names) + r")\b|\d*\.\d+|\d+|[()+\-*/^]"@
    }
}

/// Builds the pattern of a token from the names that constants have.
pub fn pattern_from(names: &Vec<String>) -> (r: String)
    ensures
        r@ == pattern_for(names.deep_view()),
{
    let n = names.len();
    let ghost all = names.deep_view();
    if n == 0 {
        return String::from_str(r"\b(sin|cos|tg|ctg)\b|\d*\.\d+|\d+|[()+\-*/^]");
    }
    let mut pattern = String::from_str(r"\b(sin|cos|tg|ctg|");
    let mut joined = regex::escape(names[0].as_str());
    assert(joined@ == alternatives(all.take(1))) by {
        assert(all.take(1)[0] == names[0]@);
    }
    let mut i: usize = 1;
    while i < n
        invariant
            1 <= i <= n,
            n == names.len(),
            all == names.deep_view(),
            joined@ == alternatives(all.take(i as int)),
        decreases n - i,
    {
        let name = regex::escape(names[i].as_str());
        joined.append("|");
        joined.append(name.as_str());
        proof {
            reveal_strlit("|");
            assert("|"@ =~= seq!['|']);
            assert(all.take(i + 1).drop_last() =~= all.take(i as int));
            assert(all.take(i + 1).last() == names[i as int]@);
        }
        i = i + 1;
    }
    assert(all.take(n as int) =~= all);
    pattern.append(joined.as_str());
    pattern.append(r")\b|\d*\.\d+|\d+|[()+\-*/^]");
    pattern
}

/// Builds the pattern of a token for a table of constants.
pub fn token_pattern(constants: &Constants) -> (r: String)
    ensures
        r@ == pattern_for(names_of(constants@)),
{
    pattern_from(&constants.names())
}

/// Why an expression has no tokens.
#[derive(Debug, PartialEq, Eq)]
pub enum TokenizeError {
    /// The scan met text that is no token. `position` is the byte offset at
    /// which the text in `excerpt` begins.
    InvalidCharacter { position: usize, excerpt: String },
    /// The pattern built from the names of the constants was not accepted.
    PatternRejected,
}

/// A tokenizer's error as the contracts see it.
pub enum TokenizeErrorView {
    InvalidCharacter { position: int, excerpt: Seq<char> },
    PatternRejected,
}

impl View for TokenizeError {
    type V = TokenizeErrorView;

    open spec fn view(&self) -> TokenizeErrorView {
        match self {
            TokenizeError::InvalidCharacter { position, excerpt } => {
                TokenizeErrorView::InvalidCharacter {
                    position: *position as int,
                    excerpt: excerpt@,
                }
            },
            TokenizeError::PatternRejected => TokenizeErrorView::PatternRejected,
        }
    }
}

impl TokenizeErrorView {
    /// The error with its position counted from `by` bytes further back.
    pub open spec fn shifted(self, by: int) -> TokenizeErrorView {
        match self {
            TokenizeErrorView::InvalidCharacter { position, excerpt } => {
                TokenizeErrorView::InvalidCharacter { position: position + by, excerpt }
            },
            TokenizeErrorView::PatternRejected => TokenizeErrorView::PatternRejected,
        }
    }

    /// The error in words.
    pub open spec fn message(self) -> Seq<char> {
        match self {
            TokenizeErrorView::InvalidCharacter { position, excerpt } => {
                "Invalid character at position "@ + decimal(position as nat) + ": "@ + excerpt
            },
            TokenizeErrorView::PatternRejected => "The pattern of a token was not accepted."@,
        }
    }
}

impl TokenizeError {
    /// The error in words.
    pub fn message(&self) -> (r: String)
        ensures
            r@ == self@.message(),
    {
        match self {
            TokenizeError::InvalidCharacter { position, excerpt } => {
                let mut text = String::from_str("Invalid character at position ");
                text.append(decimal_text(*position).as_str());
                text.append(": ");
                text.append(excerpt.as_str());
                text
            },
            TokenizeError::PatternRejected => String::from_str(
                "The pattern of a token was not accepted.",
            ),
        }
    }
}

/// What may stand between two tokens: space, tab, line feed, form feed,
/// carriage return.
pub open spec fn blank(c: char) -> bool {
    c == ' ' || c == '\t' || c == '\n' || c == '\x0c' || c == '\r'
}

/// Nothing but blanks.
pub open spec fn all_blank(text: Seq<char>) -> bool {
    forall|i: int| 0 <= i < text.len() ==> blank(#[trigger] text[i])
}

/// A decimal digit or the decimal point.
pub open spec fn numeral_char(c: char) -> bool {
    ('0' <= c && c <= '9') || c == '.'
}

/// At least one character, all of them digits or points.
pub open spec fn numeral_like(text: Seq<char>) -> bool {
    text.len() > 0 && forall|i: int| 0 <= i < text.len() ==> numeral_char(#[trigger] text[i])
}

/// The kind whose symbol the word is.
pub open spec fn symbol_kind(word: Seq<char>) -> Option<TokenKind> {
    if word == TokenKind::LeftParen.symbol() {
        Some(TokenKind::LeftParen)
    } else if word == TokenKind::RightParen.symbol() {
        Some(TokenKind::RightParen)
    } else if word == TokenKind::Mul.symbol() {
        Some(TokenKind::Mul)
    } else if word == TokenKind::Div.symbol() {
        Some(TokenKind::Div)
    } else if word == TokenKind::Add.symbol() {
        Some(TokenKind::Add)
    } else if word == TokenKind::Sub.symbol() {
        Some(TokenKind::Sub)
    } else if word == TokenKind::Pow.symbol() {
        Some(TokenKind::Pow)
    } else if word == TokenKind::Sin.symbol() {
        Some(TokenKind::Sin)
    } else if word == TokenKind::Cos.symbol() {
        Some(TokenKind::Cos)
    } else if word == TokenKind::Tan.symbol() {
        Some(TokenKind::Tan)
    } else if word == TokenKind::Cot.symbol() {
        Some(TokenKind::Cot)
    } else {
        None
    }
}

/// The token that a matched word is. A symbol or a function name is itself;
/// the name of a constant becomes a number whose text is the constant's
/// numeral; digits and points are a number as they stand. Anything else is no
/// token.
pub open spec fn classify(table: Seq<(Seq<char>, Seq<char>)>, word: Seq<char>) -> Option<
    TokenView,
> {
    match symbol_kind(word) {
        Some(kind) => Some(TokenView { kind, text: word }),
        None => match lookup(table, word) {
            Some(value) => Some(TokenView { kind: TokenKind::Number, text: value }),
            None => if numeral_like(word) {
                Some(TokenView { kind: TokenKind::Number, text: word })
            } else {
                None
            },
        },
    }
}

/// The part of a text between two byte offsets of its UTF-8 encoding.
pub open spec fn piece(text: Seq<char>, from: int, to: int) -> Seq<char> {
    decode_utf8(encode_utf8(text).subrange(from, to))
}

/// A match can be used if it fits the text and is not empty.
pub open spec fn usable(rest: Seq<char>, found: Option<(usize, usize)>) -> bool {
    found matches Some((start, end)) && fits(rest, start as int, end as int) && start < end
}

/// The token at the head of `rest`, with the number of bytes that it and the
/// blanks before it take, given where the pattern matched in `rest`.
///
/// Without a usable match, or with anything but blanks before the match,
/// all of `rest` is reported, at position 0. A match that is no token is
/// reported itself, at the position where it begins in `rest`.
pub open spec fn token_at(
    table: Seq<(Seq<char>, Seq<char>)>,
    rest: Seq<char>,
    found: Option<(usize, usize)>,
) -> Result<(TokenView, int), TokenizeErrorView> {
    if !usable(rest, found) {
        Err(TokenizeErrorView::InvalidCharacter { position: 0, excerpt: rest })
    } else {
        let (start, end) = found->0;
        let word = piece(rest, start as int, end as int);
        if !all_blank(piece(rest, 0, start as int)) {
            Err(TokenizeErrorView::InvalidCharacter { position: 0, excerpt: rest })
        } else {
            match classify(table, word) {
                Some(token) => Ok((token, end as int)),
                None => Err(
                    TokenizeErrorView::InvalidCharacter { position: start as int, excerpt: word },
                ),
            }
        }
    }
}

/// The bytes of `text` that lie at `pos` and after.
pub open spec fn left(text: Seq<char>, pos: int) -> nat {
    if pos < encode_utf8(text).len() {
        (encode_utf8(text).len() - pos) as nat
    } else {
        0
    }
}

/// The tokens of `text` from byte offset `pos` on. An error's position is
/// counted from the start of `text`.
pub open spec fn scan(
    pattern: Seq<char>,
    table: Seq<(Seq<char>, Seq<char>)>,
    text: Seq<char>,
    pos: int,
) -> Result<Seq<TokenView>, TokenizeErrorView>
    decreases left(text, pos),
{
    if left(text, pos) == 0 {
        Ok(seq![])
    } else {
        let rest = piece(text, pos, encode_utf8(text).len() as int);
        match token_at(table, rest, leftmost_match(pattern, rest)) {
            Err(e) => Err(e.shifted(pos)),
            Ok((token, used)) => match scan(pattern, table, text, pos + used) {
                Ok(tokens) => Ok(seq![token] + tokens),
                Err(e) => Err(e),
            },
        }
    }
}

/// The tokens of an expression under a table of constants.
pub open spec fn tokens_of(table: Seq<(Seq<char>, Seq<char>)>, text: Seq<char>) -> Result<
    Seq<TokenView>,
    TokenizeErrorView,
> {
    scan(pattern_for(names_of(table)), table, text, 0)
}

/// A boundary of a text that lies before another boundary is a boundary of
/// the text up to that one.
proof fn boundary_in_head(bytes: Seq<u8>, start: int, end: int)
    requires
        valid_utf8(bytes),
        0 <= start <= end <= bytes.len(),
        is_char_boundary(bytes, start),
        is_char_boundary(bytes, end),
    ensures
        valid_utf8(bytes.subrange(0, end)),
        is_char_boundary(bytes.subrange(0, end), start),
{
    let head = bytes.subrange(0, end);
    valid_utf8_split(bytes, end);
    if start == end {
        is_char_boundary_start_end_of_seq(head);
    } else {
        is_char_boundary_iff_not_is_continuation_byte(bytes, start);
        is_char_boundary_iff_not_is_continuation_byte(head, start);
    }
}

/// The characters of a string are what its bytes decode to.
proof fn decoded(text: &str)
    ensures
        text@ == decode_utf8(text.spec_bytes()),
        valid_utf8(text.spec_bytes()),
{
    encode_utf8_decode_utf8(text@);
    encode_utf8_valid_utf8(text@);
}

fn byte_len(text: &str) -> (n: usize)
    ensures
        n == encode_utf8(text@).len(),
{
    text.as_bytes().len()
}

/// Whether a text holds nothing but blanks.
pub fn is_blank(text: &str) -> (r: bool)
    ensures
        r == all_blank(text@),
{
    if !text.is_ascii() {
        return false;
    }
    let bytes = text.as_bytes();
    proof {
        is_ascii_chars_encode_utf8(text@);
    }
    let mut i: usize = 0;
    while i < bytes.len()
        invariant
            i <= bytes.len(),
            bytes@ == encode_utf8(text@),
            is_ascii_chars(text@),
            text@.len() == bytes@.len(),
            forall|j: int| 0 <= j < text@.len() ==> text@[j] as u8 == #[trigger] bytes@[j],
            forall|j: int| 0 <= j < i ==> blank(#[trigger] text@[j]),
        decreases bytes.len() - i,
    {
        let b = bytes[i];
        assert(text@[i as int] as u8 == b);
        if !(b == 0x20 || b == 0x09 || b == 0x0a || b == 0x0c || b == 0x0d) {
            return false;
        }
        i = i + 1;
    }
    true
}

/// Whether a text is made of digits and points, at least one.
pub fn is_numeral_like(text: &str) -> (r: bool)
    ensures
        r == numeral_like(text@),
{
    if !text.is_ascii() {
        return false;
    }
    let bytes = text.as_bytes();
    proof {
        is_ascii_chars_encode_utf8(text@);
    }
    if bytes.len() == 0 {
        return false;
    }
    let mut i: usize = 0;
    while i < bytes.len()
        invariant
            i <= bytes.len(),
            bytes@ == encode_utf8(text@),
            is_ascii_chars(text@),
            text@.len() == bytes@.len(),
            forall|j: int| 0 <= j < text@.len() ==> text@[j] as u8 == #[trigger] bytes@[j],
            forall|j: int| 0 <= j < i ==> numeral_char(#[trigger] text@[j]),
        decreases bytes.len() - i,
    {
        let b = bytes[i];
        assert(text@[i as int] as u8 == b);
        if !((0x30 <= b && b <= 0x39) || b == 0x2e) {
            return false;
        }
        i = i + 1;
    }
    true
}

/// The kind whose symbol the word is.
pub fn symbol(word: &str) -> (r: Option<TokenKind>)
    ensures
        r == symbol_kind(word@),
{
    proof {
        reveal_strlit("(");
        reveal_strlit(")");
        reveal_strlit("*");
        reveal_strlit("/");
        reveal_strlit("+");
        reveal_strlit("-");
        reveal_strlit("^");
        reveal_strlit("sin");
        reveal_strlit("cos");
        reveal_strlit("tg");
        reveal_strlit("ctg");
        assert("("@ =~= TokenKind::LeftParen.symbol());
        assert(")"@ =~= TokenKind::RightParen.symbol());
        assert("*"@ =~= TokenKind::Mul.symbol());
        assert("/"@ =~= TokenKind::Div.symbol());
        assert("+"@ =~= TokenKind::Add.symbol());
        assert("-"@ =~= TokenKind::Sub.symbol());
        assert("^"@ =~= TokenKind::Pow.symbol());
        assert("sin"@ =~= TokenKind::Sin.symbol());
        assert("cos"@ =~= TokenKind::Cos.symbol());
        assert("tg"@ =~= TokenKind::Tan.symbol());
        assert("ctg"@ =~= TokenKind::Cot.symbol());
    }
    if same_text(word, "(") {
        Some(TokenKind::LeftParen)
    } else if same_text(word, ")") {
        Some(TokenKind::RightParen)
    } else if same_text(word, "*") {
        Some(TokenKind::Mul)
    } else if same_text(word, "/") {
        Some(TokenKind::Div)
    } else if same_text(word, "+") {
        Some(TokenKind::Add)
    } else if same_text(word, "-") {
        Some(TokenKind::Sub)
    } else if same_text(word, "^") {
        Some(TokenKind::Pow)
    } else if same_text(word, "sin") {
        Some(TokenKind::Sin)
    } else if same_text(word, "cos") {
        Some(TokenKind::Cos)
    } else if same_text(word, "tg") {
        Some(TokenKind::Tan)
    } else if same_text(word, "ctg") {
        Some(TokenKind::Cot)
    } else {
        None
    }
}

/// The token that a matched word is, if it is one.
pub fn token_of(word: &str, constants: &Constants) -> (r: Option<Token>)
    ensures
        match r {
            Some(token) => classify(constants@, word@) == Some(token@),
            None => classify(constants@, word@) is None,
        },
{
    match symbol(word) {
        Some(kind) => Some(Token { kind, text: String::from_str(word) }),
        None => match constants.get(word) {
            Some(value) => Some(Token { kind: TokenKind::Number, text: value.clone() }),
            None => if is_numeral_like(word) {
                Some(Token { kind: TokenKind::Number, text: String::from_str(word) })
            } else {
                None
            },
        },
    }
}

/// Takes the token at the head of `rest`, given where the pattern matched in
/// `rest`, and says how many bytes it and the blanks before it take.
/// Positions are counted from the start of `rest`.
pub fn take_token(rest: &str, found: Option<(usize, usize)>, constants: &Constants) -> (r: Result<
    (Token, usize),
    TokenizeError,
>)
    ensures
        match r {
            Ok((token, used)) => token_at(constants@, rest@, found) == Ok::<
                (TokenView, int),
                TokenizeErrorView,
            >((token@, used as int)),
            Err(e) => token_at(constants@, rest@, found) == Err::<
                (TokenView, int),
                TokenizeErrorView,
            >(e@),
        },
{
    let (start, end) = match found {
        Some(span) => span,
        None => {
            return Err(
                TokenizeError::InvalidCharacter { position: 0, excerpt: String::from_str(rest) },
            );
        },
    };
    if !(start < end && end <= byte_len(rest) && rest.is_char_boundary(start)
        && rest.is_char_boundary(end)) {
        return Err(
            TokenizeError::InvalidCharacter { position: 0, excerpt: String::from_str(rest) },
        );
    }
    proof {
        decoded(rest);
        boundary_in_head(rest.spec_bytes(), start as int, end as int);
    }
    let (head, _) = rest.split_at(end);
    let (gap, word) = head.split_at(start);
    proof {
        decoded(gap);
        decoded(word);
        assert(gap.spec_bytes() =~= rest.spec_bytes().subrange(0, start as int));
        assert(word.spec_bytes() =~= rest.spec_bytes().subrange(start as int, end as int));
    }
    if !is_blank(gap) {
        return Err(
            TokenizeError::InvalidCharacter { position: 0, excerpt: String::from_str(rest) },
        );
    }
    match token_of(word, constants) {
        Some(token) => Ok((token, end)),
        None => Err(
            TokenizeError::InvalidCharacter { position: start, excerpt: String::from_str(word) },
        ),
    }
}

/// `scan` with the tokens already taken put in front.
spec fn after(
    taken: Seq<TokenView>,
    rest: Result<Seq<TokenView>, TokenizeErrorView>,
) -> Result<Seq<TokenView>, TokenizeErrorView> {
    match rest {
        Ok(tokens) => Ok(taken + tokens),
        Err(e) => Err(e),
    }
}

/// Cuts an expression into tokens.
///
/// At each position the pattern is looked for in the text that is left.
/// Blanks before the match are passed over; anything else there, or no match
/// at all, ends the scan with `InvalidCharacter`. The name of a constant
/// becomes a number with the constant's numeral as its text.
///
/// `PatternRejected` comes when the regex engine refuses the pattern; whether
/// it does is the engine's matter and is not stated here. The engine is not
/// asked about an empty expression, which has no tokens.
pub fn tokenize(expression: &str, constants: &Constants) -> (r: Result<Vec<Token>, TokenizeError>)
    ensures
        expression@.len() == 0 ==> r is Ok,
        match r {
            Ok(tokens) => tokens_of(constants@, expression@) == Ok::<
                Seq<TokenView>,
                TokenizeErrorView,
            >(tokens.deep_view()),
            Err(e) => e@ is PatternRejected || tokens_of(constants@, expression@) == Err::<
                Seq<TokenView>,
                TokenizeErrorView,
            >(e@),
        },
{
    let pattern = token_pattern(constants);
    let total = byte_len(expression);
    let ghost bytes = encode_utf8(expression@);
    let ghost goal = tokens_of(constants@, expression@);
    let mut tokens: Vec<Token> = Vec::new();
    let mut rest = expression;
    let mut pos: usize = 0;
    proof {
        assert(bytes.subrange(0, total as int) =~= bytes);
        assert(tokens.deep_view() =~= Seq::<TokenView>::empty());
        assert(seq![] + scan(pattern@, constants@, expression@, 0)->Ok_0 =~= scan(
            pattern@,
            constants@,
            expression@,
            0,
        )->Ok_0);
    }
    while pos < total
        invariant
            pos <= total,
            total == bytes.len(),
            bytes == encode_utf8(expression@),
            rest.spec_bytes() == bytes.subrange(pos as int, total as int),
            pattern@ == pattern_for(names_of(constants@)),
            goal == tokens_of(constants@, expression@),
            goal == after(tokens.deep_view(), scan(pattern@, constants@, expression@, pos as int)),
        decreases total - pos,
    {
        proof {
            decoded(rest);
        }
        let found = match locate(pattern.as_str(), rest) {
            Ok(found) => found,
            Err(_) => {
                return Err(TokenizeError::PatternRejected);
            },
        };
        match take_token(rest, found, constants) {
            Ok((token, used)) => {
                let ghost before = tokens.deep_view();
                let ghost later = scan(pattern@, constants@, expression@, pos + used);
                proof {
                    assert(later is Ok ==> before + (seq![token@] + later->Ok_0) =~= before.push(
                        token@,
                    ) + later->Ok_0);
                }
                let (_, tail) = rest.split_at(used);
                tokens.push(token);
                proof {
                    assert(tokens.deep_view() =~= before.push(token@));
                    assert(tail.spec_bytes() =~= bytes.subrange(pos + used, total as int));
                }
                rest = tail;
                pos = pos + used;
            },
            Err(TokenizeError::InvalidCharacter { position, excerpt }) => {
                return Err(TokenizeError::InvalidCharacter { position: pos + position, excerpt });
            },
            Err(TokenizeError::PatternRejected) => {
                return Err(TokenizeError::PatternRejected);
            },
        }
    }
    Ok(tokens)
}

/// Some constant of the table stands for this numeral.
pub open spec fn stands_in(table: Seq<(Seq<char>, Seq<char>)>, value: Seq<char>) -> bool {
    exists|name: Seq<char>| lookup(table, name) == Some(value)
}

/// What a token of an expression carries: an operator, a parenthesis or a
/// function carries its own symbol; a number carries digits and points as
/// they stood in the expression, or the numeral of a constant.
pub open spec fn carries_its_text(table: Seq<(Seq<char>, Seq<char>)>, token: TokenView) -> bool {
    &&& token.well_formed()
    &&& token.kind is Number ==> numeral_like(token.text) || stands_in(table, token.text)
}

/// Every token that the scan yields carries its text.
pub proof fn tokens_carry_their_text(
    pattern: Seq<char>,
    table: Seq<(Seq<char>, Seq<char>)>,
    text: Seq<char>,
    pos: int,
)
    ensures
        scan(pattern, table, text, pos) matches Ok(tokens) ==> forall|i: int|
            0 <= i < tokens.len() ==> carries_its_text(table, #[trigger] tokens[i]),
    decreases left(text, pos),
{
    if left(text, pos) > 0 {
        let rest = piece(text, pos, encode_utf8(text).len() as int);
        match token_at(table, rest, leftmost_match(pattern, rest)) {
            Ok((token, used)) => {
                tokens_carry_their_text(pattern, table, text, pos + used);
                let (start, end) = leftmost_match(pattern, rest)->0;
                let word = piece(rest, start as int, end as int);
                assert(classify(table, word) == Some(token));
                assert(carries_its_text(table, token)) by {
                    if symbol_kind(word) is None && lookup(table, word) is Some {
                        assert(lookup(table, word) == Some(token.text));
                    }
                }
            },
            Err(_) => {},
        }
    }
}

} // verus!
