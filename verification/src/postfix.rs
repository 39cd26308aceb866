//! From tokens in infix order to text in postfix order, by operator
//! precedence.

use vstd::prelude::*;
use vstd::string::*;
use crate::token::{Token, TokenKind, TokenView};

verus! {

/// Why a token sequence has no postfix form.
#[derive(Clone, Copy, Debug, PartialEq, Eq, Structural)]
pub enum SyntaxError {
    /// A minus in sign position is not followed by a number.
    UnaryMinusExpectedNumber,
    /// A `)` without its `(`, or a `(` that is never closed.
    MismatchedParentheses,
}

impl SyntaxError {
    /// The error in words.
    pub fn message(&self) -> (r: String)
        ensures
            r@ == match self {
                SyntaxError::UnaryMinusExpectedNumber => {
                    "Invalid syntax: Expected number after '-'."@
                },
                SyntaxError::MismatchedParentheses => "Mismatched parentheses."@,
            },
    {
        match self {
            SyntaxError::UnaryMinusExpectedNumber => String::from_str(
                "Invalid syntax: Expected number after '-'.",
            ),
            SyntaxError::MismatchedParentheses => String::from_str("Mismatched parentheses."),
        }
    }
}

/// The converter between two tokens: the operator stack (top last), the
/// functions waiting for their argument to close (latest last), the output so
/// far, and how many parentheses are open.
pub struct Conversion {
    pub operators: Seq<TokenView>,
    pub functions: Seq<TokenView>,
    pub output: Seq<Seq<char>>,
    pub depth: int,
}

/// Moves operators from the top of the stack to the output for as long as
/// they bind at least as tightly as `binding`.
pub open spec fn pop_binding(
    operators: Seq<TokenView>,
    output: Seq<Seq<char>>,
    binding: int,
) -> (Seq<TokenView>, Seq<Seq<char>>)
    decreases operators.len(),
{
    if operators.len() > 0 && operators.last().kind.precedence() >= binding {
        pop_binding(operators.drop_last(), output.push(operators.last().text), binding)
    } else {
        (operators, output)
    }
}

/// Moves entries from the top of the stack to the output down to the nearest
/// `(`, which is dropped. On a stack without one, everything is moved.
pub open spec fn pop_group(operators: Seq<TokenView>, output: Seq<Seq<char>>) -> (
    Seq<TokenView>,
    Seq<Seq<char>>,
)
    decreases operators.len(),
{
    if operators.len() == 0 {
        (operators, output)
    } else if operators.last().kind is LeftParen {
        (operators.drop_last(), output)
    } else {
        pop_group(operators.drop_last(), output.push(operators.last().text))
    }
}

/// Moves what is left on the stack to the output, top first, passing over
/// parentheses.
pub open spec fn drain(operators: Seq<TokenView>, output: Seq<Seq<char>>) -> Seq<Seq<char>>
    decreases operators.len(),
{
    if operators.len() == 0 {
        output
    } else {
        let top = operators.last();
        let rest = operators.drop_last();
        if top.kind is LeftParen || top.kind is RightParen {
            drain(rest, output)
        } else {
            drain(rest, output.push(top.text))
        }
    }
}

impl Conversion {
    /// The converter before the first token.
    pub open spec fn start() -> Conversion {
        Conversion { operators: seq![], functions: seq![], output: seq![], depth: 0 }
    }

    /// A number goes straight to the output.
    pub open spec fn emit(self, text: Seq<char>) -> Conversion {
        Conversion { output: self.output.push(text), ..self }
    }

    /// A binary operator first sends every operator on top of the stack that
    /// binds at least as tightly to the output, then takes its place.
    pub open spec fn operator(self, token: TokenView) -> Conversion {
        let (operators, output) = pop_binding(
            self.operators,
            self.output,
            token.kind.precedence(),
        );
        Conversion { operators: operators.push(token), output, ..self }
    }

    /// A function waits apart from the operators.
    pub open spec fn function(self, token: TokenView) -> Conversion {
        Conversion { functions: self.functions.push(token), ..self }
    }

    /// A `(` goes on the operator stack and opens a group.
    pub open spec fn open(self, token: TokenView) -> Conversion {
        Conversion { operators: self.operators.push(token), depth: self.depth + 1, ..self }
    }

    /// A `)` sends the operators of its group to the output. When it closes
    /// the outermost group, the function that has waited the shortest follows.
    pub open spec fn close(self) -> Conversion {
        let (operators, output) = pop_group(self.operators, self.output);
        let depth = self.depth - 1;
        if depth == 0 && self.functions.len() > 0 {
            Conversion {
                operators,
                functions: self.functions.drop_last(),
                output: output.push(self.functions.last().text),
                depth,
            }
        } else {
            Conversion { operators, output, depth, ..self }
        }
    }
}

/// A minus at `i` is a sign, not an operator: it opens the sequence or follows
/// an operator.
pub open spec fn sign_position(tokens: Seq<TokenView>, i: int) -> bool {
    tokens[i].kind is Sub && (i == 0 || tokens[i - 1].kind.is_operator())
}

/// The negated numeral that a sign and its number become.
pub open spec fn negated(text: Seq<char>) -> Seq<char> {
    seq!['-'] + text
}

/// The conversion of `tokens` from index `i` on, begun in `state`.
pub open spec fn convert_from(tokens: Seq<TokenView>, i: int, state: Conversion) -> Result<
    Seq<Seq<char>>,
    SyntaxError,
>
    decreases tokens.len() - i,
{
    if i < 0 || i >= tokens.len() {
        if state.depth > 0 {
            Err(SyntaxError::MismatchedParentheses)
        } else {
            Ok(drain(state.operators, state.output))
        }
    } else if sign_position(tokens, i) {
        if i + 1 < tokens.len() && tokens[i + 1].kind is Number {
            convert_from(tokens, i + 2, state.emit(negated(tokens[i + 1].text)))
        } else {
            Err(SyntaxError::UnaryMinusExpectedNumber)
        }
    } else {
        let token = tokens[i];
        match token.kind {
            TokenKind::Number => convert_from(tokens, i + 1, state.emit(token.text)),
            TokenKind::LeftParen => convert_from(tokens, i + 1, state.open(token)),
            TokenKind::RightParen => if state.depth <= 0 {
                Err(SyntaxError::MismatchedParentheses)
            } else {
                convert_from(tokens, i + 1, state.close())
            },
            TokenKind::Sin | TokenKind::Cos | TokenKind::Tan | TokenKind::Cot => convert_from(
                tokens,
                i + 1,
                state.function(token),
            ),
            _ => convert_from(tokens, i + 1, state.operator(token)),
        }
    }
}

/// The postfix form of a token sequence, or the reason it has none.
pub open spec fn postfix_of(tokens: Seq<TokenView>) -> Result<Seq<Seq<char>>, SyntaxError> {
    convert_from(tokens, 0, Conversion::start())
}

/// The converter's state as held in the three vectors and the counter.
spec fn held(
    operators: &Vec<Token>,
    functions: &Vec<Token>,
    output: &Vec<String>,
    depth: usize,
) -> Conversion {
    Conversion {
        operators: operators.deep_view(),
        functions: functions.deep_view(),
        output: output.deep_view(),
        depth: depth as int,
    }
}

fn copy_of(token: &Token) -> (r: Token)
    ensures
        r@ == token@,
{
    Token { kind: token.kind, text: token.text.clone() }
}

fn push_token(stack: &mut Vec<Token>, token: Token)
    ensures
        final(stack).deep_view() == old(stack).deep_view().push(token@),
        final(stack).len() == old(stack).len() + 1,
{
    stack.push(token);
    assert(stack.deep_view() =~= old(stack).deep_view().push(token@));
}

fn pop_token(stack: &mut Vec<Token>) -> (r: Token)
    requires
        old(stack).len() > 0,
    ensures
        final(stack).deep_view() == old(stack).deep_view().drop_last(),
        final(stack).len() == old(stack).len() - 1,
        r@ == old(stack).deep_view().last(),
{
    let r = stack.pop().unwrap();
    assert(stack.deep_view() =~= old(stack).deep_view().drop_last());
    r
}

fn push_text(output: &mut Vec<String>, text: String)
    ensures
        final(output).deep_view() == old(output).deep_view().push(text@),
{
    output.push(text);
    assert(output.deep_view() =~= old(output).deep_view().push(text@));
}

/// Converts tokens in infix order to postfix order.
///
/// A minus that opens the sequence or follows an operator is a sign: it must
/// be followed by a number, and the two become one negated numeral. Operators
/// of equal precedence group to the left, `^` included. A function is held
/// back until the outermost parenthesis closes.
pub fn rpn(tokens: Vec<Token>) -> (r: Result<Vec<String>, SyntaxError>)
    ensures
        match r {
            Ok(output) => postfix_of(tokens.deep_view()) == Ok::<Seq<Seq<char>>, SyntaxError>(
                output.deep_view(),
            ),
            Err(e) => postfix_of(tokens.deep_view()) == Err::<Seq<Seq<char>>, SyntaxError>(e),
        },
{
    let ghost all = tokens.deep_view();
    let mut operators: Vec<Token> = Vec::new();
    let mut functions: Vec<Token> = Vec::new();
    let mut output: Vec<String> = Vec::new();
    let mut depth: usize = 0;
    let mut i: usize = 0;
    proof {
        assert(operators.deep_view() =~= Seq::<TokenView>::empty());
        assert(functions.deep_view() =~= Seq::<TokenView>::empty());
        assert(output.deep_view() =~= Seq::<Seq<char>>::empty());
    }
    while i < tokens.len()
        invariant
            all == tokens.deep_view(),
            i <= tokens.len() + 1,
            depth <= i,
            convert_from(all, i as int, held(&operators, &functions, &output, depth))
                == postfix_of(all),
        decreases tokens.len() + 1 - i,
    {
        let ghost before = held(&operators, &functions, &output, depth);
        let kind = tokens[i].kind;
        assert(all[i as int] == tokens[i as int]@);
        let sign = match kind {
            TokenKind::Sub => i == 0 || tokens[i - 1].kind.operator(),
            _ => false,
        };
        assert(sign == sign_position(all, i as int)) by {
            if i > 0 {
                assert(all[i - 1] == tokens[i - 1]@);
            }
        }
        if sign {
            let numbered = i + 1 < tokens.len() && match tokens[i + 1].kind {
                TokenKind::Number => true,
                _ => false,
            };
            if !numbered {
                assert(i + 1 < tokens.len() ==> all[i + 1] == tokens[i + 1]@);
                return Err(SyntaxError::UnaryMinusExpectedNumber);
            }
            assert(all[i + 1] == tokens[i + 1]@);
            let mut text = String::from_str("-");
            text.append(tokens[i + 1].text.as_str());
            proof {
                reveal_strlit("-");
                assert(text@ =~= negated(all[i + 1].text));
            }
            push_text(&mut output, text);
            i = i + 2;
            assert(held(&operators, &functions, &output, depth) == before.emit(
                negated(all[i - 1].text),
            ));
            continue;
        }
        match kind {
            TokenKind::Number => {
                push_text(&mut output, tokens[i].text.clone());
                assert(held(&operators, &functions, &output, depth) == before.emit(
                    all[i as int].text,
                ));
            },
            TokenKind::LeftParen => {
                push_token(&mut operators, copy_of(&tokens[i]));
                depth = depth + 1;
                assert(held(&operators, &functions, &output, depth) == before.open(
                    all[i as int],
                ));
            },
            TokenKind::RightParen => {
                if depth == 0 {
                    return Err(SyntaxError::MismatchedParentheses);
                }
                close_group(&mut operators, &mut output);
                depth = depth - 1;
                if depth == 0 && functions.len() > 0 {
                    let waiting = pop_token(&mut functions);
                    push_text(&mut output, waiting.text);
                }
                assert(held(&operators, &functions, &output, depth) == before.close());
            },
            TokenKind::Sin | TokenKind::Cos | TokenKind::Tan | TokenKind::Cot => {
                push_token(&mut functions, copy_of(&tokens[i]));
                assert(held(&operators, &functions, &output, depth) == before.function(
                    all[i as int],
                ));
            },
            _ => {
                make_room(&mut operators, &mut output, kind.binding());
                push_token(&mut operators, copy_of(&tokens[i]));
                assert(held(&operators, &functions, &output, depth) == before.operator(
                    all[i as int],
                ));
            },
        }
        i = i + 1;
    }
    if depth > 0 {
        return Err(SyntaxError::MismatchedParentheses);
    }
    flush(&mut operators, &mut output);
    Ok(output)
}

/// Sends the operators that bind at least as tightly as `binding` from the
/// top of the stack to the output.
fn make_room(operators: &mut Vec<Token>, output: &mut Vec<String>, binding: i8)
    ensures
        (final(operators).deep_view(), final(output).deep_view()) == pop_binding(
            old(operators).deep_view(),
            old(output).deep_view(),
            binding as int,
        ),
{
    while operators.len() > 0 && operators[operators.len() - 1].kind.binding() >= binding
        invariant
            pop_binding(operators.deep_view(), output.deep_view(), binding as int) == pop_binding(
                old(operators).deep_view(),
                old(output).deep_view(),
                binding as int,
            ),
        decreases operators.len(),
    {
        assert(operators.deep_view().last() == operators[operators.len() - 1]@);
        let top = pop_token(operators);
        push_text(output, top.text);
    }
    assert(operators.len() > 0 ==> operators.deep_view().last() == operators[operators.len() - 1]@);
}

/// Sends the operators above the nearest `(` to the output and drops that `(`.
fn close_group(operators: &mut Vec<Token>, output: &mut Vec<String>)
    ensures
        (final(operators).deep_view(), final(output).deep_view()) == pop_group(
            old(operators).deep_view(),
            old(output).deep_view(),
        ),
{
    while operators.len() > 0
        invariant
            pop_group(operators.deep_view(), output.deep_view()) == pop_group(
                old(operators).deep_view(),
                old(output).deep_view(),
            ),
        decreases operators.len(),
    {
        let top = pop_token(operators);
        match top.kind {
            TokenKind::LeftParen => {
                return ;
            },
            _ => {
                push_text(output, top.text);
            },
        }
    }
}

/// Sends what is left on the stack to the output, passing over parentheses.
fn flush(operators: &mut Vec<Token>, output: &mut Vec<String>)
    ensures
        final(output).deep_view() == drain(old(operators).deep_view(), old(output).deep_view()),
{
    while operators.len() > 0
        invariant
            drain(operators.deep_view(), output.deep_view()) == drain(
                old(operators).deep_view(),
                old(output).deep_view(),
            ),
        decreases operators.len(),
    {
        let top = pop_token(operators);
        match top.kind {
            TokenKind::LeftParen | TokenKind::RightParen => {},
            _ => {
                push_text(output, top.text);
            },
        }
    }
}

} // verus!
