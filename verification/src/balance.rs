//! When a token sequence has a postfix form: its parentheses must match up
//! and every minus in sign position must have its number.

use vstd::prelude::*;
use crate::postfix::{convert_from, negated, postfix_of, sign_position, Conversion, SyntaxError};
use crate::token::{TokenKind, TokenView};

verus! {

/// The parentheses from index `i` on match up, given that `depth` of them
/// are open at `i`: none closes what was not opened, and none is left open.
pub open spec fn balanced_from(tokens: Seq<TokenView>, i: int, depth: int) -> bool
    decreases tokens.len() - i,
{
    if i < 0 || i >= tokens.len() {
        depth == 0
    } else {
        match tokens[i].kind {
            TokenKind::LeftParen => balanced_from(tokens, i + 1, depth + 1),
            TokenKind::RightParen => depth > 0 && balanced_from(tokens, i + 1, depth - 1),
            _ => balanced_from(tokens, i + 1, depth),
        }
    }
}

/// The parentheses of a token sequence match up.
pub open spec fn balanced(tokens: Seq<TokenView>) -> bool {
    balanced_from(tokens, 0, 0)
}

/// A minus stands at `i` as a sign and no number follows it.
pub open spec fn sign_fault(tokens: Seq<TokenView>, i: int) -> bool {
    &&& 0 <= i < tokens.len()
    &&& sign_position(tokens, i)
    &&& !(i + 1 < tokens.len() && tokens[i + 1].kind is Number)
}

/// How many parentheses are open after the first `upto` tokens: those opened
/// less those closed.
pub open spec fn opened(tokens: Seq<TokenView>, upto: int) -> int
    decreases upto,
{
    if upto <= 0 {
        0
    } else {
        match tokens[upto - 1].kind {
            TokenKind::LeftParen => opened(tokens, upto - 1) + 1,
            TokenKind::RightParen => opened(tokens, upto - 1) - 1,
            _ => opened(tokens, upto - 1),
        }
    }
}

/// The `)` at `i` closes nothing: no parenthesis is open there.
pub open spec fn unopened_close(tokens: Seq<TokenView>, i: int) -> bool {
    0 <= i < tokens.len() && tokens[i].kind is RightParen && opened(tokens, i) <= 0
}

/// A sign fault at `i` that no `)` without its `(` comes before: the fault
/// that the converter meets first.
pub open spec fn decisive_fault(tokens: Seq<TokenView>, i: int) -> bool {
    sign_fault(tokens, i) && forall|c: int| 0 <= c < i ==> !unopened_close(tokens, c)
}

proof fn conversion_verdict(tokens: Seq<TokenView>, i: int, state: Conversion)
    requires
        0 <= i,
        i <= tokens.len() ==> state.depth == opened(tokens, i),
        state.depth >= 0,
        forall|c: int| 0 <= c < i ==> !unopened_close(tokens, c),
    ensures
        (exists|s: int| s >= i && decisive_fault(tokens, s)) ==> convert_from(tokens, i, state)
            == Err::<Seq<Seq<char>>, SyntaxError>(SyntaxError::UnaryMinusExpectedNumber),
        !(exists|s: int| s >= i && decisive_fault(tokens, s)) && !balanced_from(
            tokens,
            i,
            state.depth,
        ) ==> convert_from(tokens, i, state) == Err::<Seq<Seq<char>>, SyntaxError>(
            SyntaxError::MismatchedParentheses,
        ),
        !(exists|s: int| s >= i && decisive_fault(tokens, s)) && balanced_from(
            tokens,
            i,
            state.depth,
        ) ==> convert_from(tokens, i, state) is Ok,
    decreases tokens.len() - i,
{
    if i < tokens.len() {
        let token = tokens[i];
        if sign_position(tokens, i) {
            if i + 1 < tokens.len() && tokens[i + 1].kind is Number {
                assert(!sign_fault(tokens, i));
                assert(!sign_position(tokens, i + 1));
                assert(opened(tokens, i + 2) == opened(tokens, i)) by {
                    assert(opened(tokens, i + 1) == opened(tokens, i));
                }
                assert(balanced_from(tokens, i, state.depth) == balanced_from(
                    tokens,
                    i + 2,
                    state.depth,
                )) by {
                    assert(balanced_from(tokens, i + 1, state.depth) == balanced_from(
                        tokens,
                        i + 2,
                        state.depth,
                    ));
                }
                conversion_verdict(tokens, i + 2, state.emit(negated(tokens[i + 1].text)));
                assert forall|s: int| s >= i && decisive_fault(tokens, s) implies s >= i + 2 by {}
            } else {
                assert(decisive_fault(tokens, i));
            }
        } else {
            assert(!sign_fault(tokens, i));
            assert forall|s: int| s >= i && decisive_fault(tokens, s) implies s >= i + 1 by {}
            match token.kind {
                TokenKind::Number => {
                    conversion_verdict(tokens, i + 1, state.emit(token.text));
                },
                TokenKind::LeftParen => {
                    conversion_verdict(tokens, i + 1, state.open(token));
                },
                TokenKind::RightParen => {
                    if state.depth > 0 {
                        conversion_verdict(tokens, i + 1, state.close());
                    } else {
                        assert(unopened_close(tokens, i));
                        assert forall|s: int| s >= i implies !decisive_fault(tokens, s) by {
                            if s > i && sign_fault(tokens, s) {
                                assert(unopened_close(tokens, i));
                            }
                        }
                    }
                },
                TokenKind::Sin | TokenKind::Cos | TokenKind::Tan | TokenKind::Cot => {
                    conversion_verdict(tokens, i + 1, state.function(token));
                },
                _ => {
                    conversion_verdict(tokens, i + 1, state.operator(token));
                },
            }
        }
    } else {
        assert forall|s: int| s >= i implies !decisive_fault(tokens, s) by {}
    }
}

/// Unbalanced parentheses are reported as such, unless a sign fault is met
/// first: a sequence whose parentheses do not match up, and in which every
/// minus in sign position either has its number or comes after a `)` without
/// its `(`, is refused with `MismatchedParentheses`.
pub proof fn unbalanced_is_mismatched(tokens: Seq<TokenView>)
    requires
        !balanced(tokens),
        forall|s: int| !decisive_fault(tokens, s),
    ensures
        postfix_of(tokens) == Err::<Seq<Seq<char>>, SyntaxError>(
            SyntaxError::MismatchedParentheses,
        ),
{
    conversion_verdict(tokens, 0, Conversion::start());
}

/// The fault that is met first decides: a sign fault that no `)` without its
/// `(` comes before is reported as `UnaryMinusExpectedNumber`, whatever the
/// parentheses are.
pub proof fn sign_fault_is_reported(tokens: Seq<TokenView>, at: int)
    requires
        decisive_fault(tokens, at),
    ensures
        postfix_of(tokens) == Err::<Seq<Seq<char>>, SyntaxError>(
            SyntaxError::UnaryMinusExpectedNumber,
        ),
{
    conversion_verdict(tokens, 0, Conversion::start());
}

/// A sequence has a postfix form exactly when its parentheses match up and
/// every minus in sign position has its number.
pub proof fn postfix_exists_when_balanced(tokens: Seq<TokenView>)
    ensures
        postfix_of(tokens) is Ok <==> balanced(tokens) && forall|s: int| !sign_fault(tokens, s),
{
    conversion_verdict(tokens, 0, Conversion::start());
    if balanced(tokens) {
        assert forall|s: int| sign_fault(tokens, s) implies decisive_fault(tokens, s) by {
            assert forall|c: int| 0 <= c < s implies !unopened_close(tokens, c) by {
                if unopened_close(tokens, c) {
                    unopened_close_unbalances(tokens, 0, c);
                }
            }
        }
    }
}

/// A `)` that closes nothing leaves the parentheses unbalanced, from wherever
/// before it the count is taken up.
proof fn unopened_close_unbalances(tokens: Seq<TokenView>, i: int, c: int)
    requires
        0 <= i <= c,
        unopened_close(tokens, c),
    ensures
        !balanced_from(tokens, i, opened(tokens, i)),
    decreases c - i,
{
    if i < c {
        assert(opened(tokens, i + 1) == match tokens[i].kind {
            TokenKind::LeftParen => opened(tokens, i) + 1,
            TokenKind::RightParen => opened(tokens, i) - 1,
            _ => opened(tokens, i),
        });
        unopened_close_unbalances(tokens, i + 1, c);
    }
}

} // verus!
