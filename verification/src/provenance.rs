//! Where the entries of a postfix form come from: each from a token that is
//! no parenthesis.

use vstd::prelude::*;
use crate::postfix::{
    convert_from, drain, negated, pop_binding, pop_group, postfix_of, sign_position, Conversion,
};
use crate::token::{TokenKind, TokenView};

verus! {

/// The entry is the text of the token at `i`, which is no parenthesis, or
/// that text negated if the token is a number.
pub open spec fn drawn_at(tokens: Seq<TokenView>, i: int, entry: Seq<char>) -> bool {
    &&& 0 <= i < tokens.len()
    &&& !(tokens[i].kind is LeftParen)
    &&& !(tokens[i].kind is RightParen)
    &&& (entry == tokens[i].text || (tokens[i].kind is Number && entry == negated(tokens[i].text)))
}

/// The entry comes from some token that is no parenthesis.
pub open spec fn drawn_from(tokens: Seq<TokenView>, entry: Seq<char>) -> bool {
    exists|i: int| drawn_at(tokens, i, entry)
}

/// The token is the one at `i`.
pub open spec fn found_at(tokens: Seq<TokenView>, i: int, token: TokenView) -> bool {
    0 <= i < tokens.len() && tokens[i] == token
}

/// What lies on the operator stack is an operator or a `(` of the sequence.
spec fn stack_sound(tokens: Seq<TokenView>, operators: Seq<TokenView>) -> bool {
    forall|k: int|
        0 <= k < operators.len() ==> {
            &&& ((#[trigger] operators[k]).kind.is_operator() || operators[k].kind is LeftParen)
            &&& exists|i: int| found_at(tokens, i, operators[k])
        }
}

/// What waits is a function of the sequence.
spec fn waiting_sound(tokens: Seq<TokenView>, functions: Seq<TokenView>) -> bool {
    forall|k: int|
        0 <= k < functions.len() ==> {
            &&& (#[trigger] functions[k]).kind.is_function()
            &&& exists|i: int| found_at(tokens, i, functions[k])
        }
}

/// Every entry of the output comes from a token that is no parenthesis.
spec fn output_sound(tokens: Seq<TokenView>, output: Seq<Seq<char>>) -> bool {
    forall|j: int| 0 <= j < output.len() ==> drawn_from(tokens, #[trigger] output[j])
}

proof fn moved_is_drawn(tokens: Seq<TokenView>, token: TokenView)
    requires
        exists|i: int| found_at(tokens, i, token),
        !(token.kind is LeftParen),
        !(token.kind is RightParen),
    ensures
        drawn_from(tokens, token.text),
{
    let i = choose|i: int| found_at(tokens, i, token);
    assert(drawn_at(tokens, i, token.text));
}

proof fn pop_binding_sound(
    tokens: Seq<TokenView>,
    operators: Seq<TokenView>,
    output: Seq<Seq<char>>,
    binding: int,
)
    requires
        stack_sound(tokens, operators),
        output_sound(tokens, output),
        binding >= 0,
    ensures
        stack_sound(tokens, pop_binding(operators, output, binding).0),
        output_sound(tokens, pop_binding(operators, output, binding).1),
    decreases operators.len(),
{
    if operators.len() > 0 && operators.last().kind.precedence() >= binding {
        moved_is_drawn(tokens, operators.last());
        pop_binding_sound(
            tokens,
            operators.drop_last(),
            output.push(operators.last().text),
            binding,
        );
    }
}

proof fn pop_group_sound(
    tokens: Seq<TokenView>,
    operators: Seq<TokenView>,
    output: Seq<Seq<char>>,
)
    requires
        stack_sound(tokens, operators),
        output_sound(tokens, output),
    ensures
        stack_sound(tokens, pop_group(operators, output).0),
        output_sound(tokens, pop_group(operators, output).1),
    decreases operators.len(),
{
    if operators.len() > 0 && !(operators.last().kind is LeftParen) {
        moved_is_drawn(tokens, operators.last());
        pop_group_sound(tokens, operators.drop_last(), output.push(operators.last().text));
    }
}

proof fn drain_sound(tokens: Seq<TokenView>, operators: Seq<TokenView>, output: Seq<Seq<char>>)
    requires
        stack_sound(tokens, operators),
        output_sound(tokens, output),
    ensures
        output_sound(tokens, drain(operators, output)),
    decreases operators.len(),
{
    if operators.len() > 0 {
        let top = operators.last();
        if top.kind is LeftParen || top.kind is RightParen {
            drain_sound(tokens, operators.drop_last(), output);
        } else {
            moved_is_drawn(tokens, top);
            drain_sound(tokens, operators.drop_last(), output.push(top.text));
        }
    }
}

proof fn conversion_is_sound(tokens: Seq<TokenView>, i: int, state: Conversion)
    requires
        0 <= i,
        stack_sound(tokens, state.operators),
        waiting_sound(tokens, state.functions),
        output_sound(tokens, state.output),
    ensures
        convert_from(tokens, i, state) matches Ok(output) ==> output_sound(tokens, output),
    decreases tokens.len() - i,
{
    if i >= tokens.len() {
        drain_sound(tokens, state.operators, state.output);
    } else if sign_position(tokens, i) {
        if i + 1 < tokens.len() && tokens[i + 1].kind is Number {
            let entry = negated(tokens[i + 1].text);
            assert(drawn_at(tokens, i + 1, entry));
            conversion_is_sound(tokens, i + 2, state.emit(entry));
        }
    } else {
        let token = tokens[i];
        assert(found_at(tokens, i, token));
        match token.kind {
            TokenKind::Number => {
                assert(drawn_at(tokens, i, token.text));
                conversion_is_sound(tokens, i + 1, state.emit(token.text));
            },
            TokenKind::LeftParen => {
                conversion_is_sound(tokens, i + 1, state.open(token));
            },
            TokenKind::RightParen => {
                if state.depth > 0 {
                    pop_group_sound(tokens, state.operators, state.output);
                    if state.functions.len() > 0 {
                        moved_is_drawn(tokens, state.functions.last());
                    }
                    conversion_is_sound(tokens, i + 1, state.close());
                }
            },
            TokenKind::Sin | TokenKind::Cos | TokenKind::Tan | TokenKind::Cot => {
                conversion_is_sound(tokens, i + 1, state.function(token));
            },
            _ => {
                pop_binding_sound(
                    tokens,
                    state.operators,
                    state.output,
                    token.kind.precedence(),
                );
                conversion_is_sound(tokens, i + 1, state.operator(token));
            },
        }
    }
}

/// No parenthesis remains: every entry of a postfix form is the text of a
/// token that is no parenthesis, or the negated text of a number.
pub proof fn postfix_has_no_parentheses(tokens: Seq<TokenView>)
    ensures
        postfix_of(tokens) matches Ok(output) ==> forall|j: int|
            0 <= j < output.len() ==> drawn_from(tokens, #[trigger] output[j]),
{
    conversion_is_sound(tokens, 0, Conversion::start());
}

} // verus!
