//! Expressions as trees, and what the converter and the run make of them.
//!
//! A tree says how an expression is meant: which operands belong to which
//! operator. Written out token by token, a well-formed tree is an ordinary
//! infix expression; the converter turns it into the tree's own postfix
//! order, and running that gives the tree's value.

use vstd::prelude::*;
use crate::eval::{entry_of, symbol_is_entry, Function, Operation};
use crate::meaning::{failure_is_final, run_in_parts, Arithmetic, Progress};
use crate::number::is_zero;
use crate::postfix::{
    convert_from, drain, negated, pop_binding, pop_group, postfix_of, Conversion, SyntaxError,
};
use crate::token::{TokenKind, TokenView};

verus! {

/// An expression of numbers, signs, binary operators, parentheses and
/// functions.
pub enum Expr {
    /// A numeral.
    Number(Seq<char>),
    /// A minus sign and the numeral it belongs to.
    Negative(Seq<char>),
    /// An expression in parentheses.
    Group(Box<Expr>),
    /// A function and its argument in parentheses.
    Call(TokenKind, Box<Expr>),
    /// An operator between its two operands.
    Binary(TokenKind, Box<Expr>, Box<Expr>),
}

/// The token that stands for a kind.
pub open spec fn sign(kind: TokenKind) -> TokenView {
    TokenView { kind, text: kind.symbol() }
}

/// The operation that an operator asks for.
pub open spec fn operation_of(kind: TokenKind) -> Operation {
    match kind {
        TokenKind::Sub => Operation::Sub,
        TokenKind::Mul => Operation::Mul,
        TokenKind::Div => Operation::Div,
        TokenKind::Pow => Operation::Pow,
        _ => Operation::Add,
    }
}

/// The function that a function token asks for.
pub open spec fn function_of(kind: TokenKind) -> Function {
    match kind {
        TokenKind::Cos => Function::Cos,
        TokenKind::Tan => Function::Tan,
        TokenKind::Cot => Function::Cot,
        _ => Function::Sin,
    }
}

impl Expr {
    /// How tightly the expression holds together: as its operator binds, and
    /// tighter than any operator if it has none outside parentheses.
    pub open spec fn level(self) -> int {
        match self {
            Expr::Binary(op, _, _) => op.precedence(),
            _ => 4,
        }
    }

    /// The tree is one that the calculator's notation can write down at this
    /// place without changing its meaning. `inside` says that the place lies
    /// within parentheses, `signable` that a sign may stand there: at the
    /// very start, or right after an operator.
    ///
    /// A left operand binds at least as tightly as its operator, a right
    /// operand tighter. A sign stands only where one may stand. A function is
    /// applied only outside all parentheses. Numerals are not symbols.
    pub open spec fn placed(self, inside: bool, signable: bool) -> bool
        decreases self,
    {
        match self {
            Expr::Number(text) => entry_of(text) is Numeral,
            Expr::Negative(text) => signable && entry_of(negated(text)) is Numeral,
            Expr::Group(inner) => inner.placed(true, false),
            Expr::Call(f, argument) => {
                &&& f.is_function()
                &&& !inside
                &&& argument.placed(true, false)
            },
            Expr::Binary(op, left, right) => {
                &&& op.is_operator()
                &&& left.placed(inside, signable)
                &&& right.placed(inside, true)
                &&& left.level() >= op.precedence()
                &&& right.level() > op.precedence()
            },
        }
    }

    /// The tree is one that the calculator's notation can write down as a
    /// whole expression.
    pub open spec fn well_formed(self) -> bool {
        self.placed(false, true)
    }

    /// The expression written out in infix order.
    pub open spec fn tokens(self) -> Seq<TokenView>
        decreases self,
    {
        match self {
            Expr::Number(text) => seq![TokenView { kind: TokenKind::Number, text }],
            Expr::Negative(text) => seq![
                sign(TokenKind::Sub),
                TokenView { kind: TokenKind::Number, text },
            ],
            Expr::Group(inner) => seq![sign(TokenKind::LeftParen)] + inner.tokens() + seq![
                sign(TokenKind::RightParen),
            ],
            Expr::Call(f, argument) => seq![sign(f), sign(TokenKind::LeftParen)]
                + argument.tokens() + seq![sign(TokenKind::RightParen)],
            Expr::Binary(op, left, right) => left.tokens() + seq![sign(op)] + right.tokens(),
        }
    }

    /// The expression in postfix order: each operator and each function
    /// after what it applies to.
    pub open spec fn postfix(self) -> Seq<Seq<char>>
        decreases self,
    {
        match self {
            Expr::Number(text) => seq![text],
            Expr::Negative(text) => seq![negated(text)],
            Expr::Group(inner) => inner.postfix(),
            Expr::Call(f, argument) => argument.postfix() + seq![f.symbol()],
            Expr::Binary(op, left, right) => left.postfix() + right.postfix() + seq![op.symbol()],
        }
    }

    /// What the expression is worth under an arithmetic: nothing if a numeral
    /// cannot be read or a divisor is zero.
    pub open spec fn value(self, a: Arithmetic) -> Option<u64>
        decreases self,
    {
        match self {
            Expr::Number(text) => (a.read)(text),
            Expr::Negative(text) => (a.read)(negated(text)),
            Expr::Group(inner) => inner.value(a),
            Expr::Call(f, argument) => match argument.value(a) {
                Some(x) => Some(a.function(function_of(f), x)),
                None => None,
            },
            Expr::Binary(op, left, right) => match (left.value(a), right.value(a)) {
                (Some(x), Some(y)) => if op is Div && is_zero(y) {
                    None
                } else {
                    Some((a.binary)(operation_of(op), x, y))
                },
                _ => None,
            },
        }
    }

    /// Somewhere in the expression a divisor is worth zero.
    pub open spec fn divides_by_zero(self, a: Arithmetic) -> bool
        decreases self,
    {
        match self {
            Expr::Number(_) | Expr::Negative(_) => false,
            Expr::Group(inner) => inner.divides_by_zero(a),
            Expr::Call(_, argument) => argument.divides_by_zero(a),
            Expr::Binary(op, left, right) => {
                ||| left.divides_by_zero(a)
                ||| right.divides_by_zero(a)
                ||| (op is Div && right.value(a) is Some && is_zero(right.value(a)->0))
            },
        }
    }

    /// The converter after the expression's tokens.
    spec fn converted(self, state: Conversion) -> Conversion
        decreases self,
    {
        match self {
            Expr::Number(text) => state.emit(text),
            Expr::Negative(text) => state.emit(negated(text)),
            Expr::Group(inner) => inner.converted(state.open(sign(TokenKind::LeftParen))).close(),
            Expr::Call(f, argument) => argument.converted(
                state.function(sign(f)).open(sign(TokenKind::LeftParen)),
            ).close(),
            Expr::Binary(op, left, right) => right.converted(
                left.converted(state).operator(sign(op)),
            ),
        }
    }

    /// The operators that are still on the stack after the expression.
    spec fn pending(self) -> Seq<TokenView>
        decreases self,
    {
        match self {
            Expr::Binary(op, _, right) => seq![sign(op)] + right.pending(),
            _ => seq![],
        }
    }

    /// What the expression has sent to the output by its end.
    spec fn emitted(self) -> Seq<Seq<char>>
        decreases self,
    {
        match self {
            Expr::Binary(_, left, right) => left.postfix() + right.emitted(),
            _ => self.postfix(),
        }
    }
}

/// The texts of a stack in the order in which it is emptied: top first.
spec fn unwound(stack: Seq<TokenView>) -> Seq<Seq<char>>
    decreases stack.len(),
{
    if stack.len() == 0 {
        seq![]
    } else {
        seq![stack.last().text] + unwound(stack.drop_last())
    }
}

proof fn unwound_below(bottom: TokenView, stack: Seq<TokenView>)
    ensures
        unwound(seq![bottom] + stack) == unwound(stack) + seq![bottom.text],
    decreases stack.len(),
{
    let whole = seq![bottom] + stack;
    if stack.len() == 0 {
        assert(whole.drop_last() =~= stack);
        assert(unwound(whole) =~= unwound(stack) + seq![bottom.text]);
    } else {
        assert(whole.drop_last() =~= seq![bottom] + stack.drop_last());
        unwound_below(bottom, stack.drop_last());
        assert(unwound(whole) =~= unwound(stack) + seq![bottom.text]);
    }
}

/// Operators that all bind tightly enough are popped one and all.
proof fn pop_binding_through(
    below: Seq<TokenView>,
    above: Seq<TokenView>,
    output: Seq<Seq<char>>,
    binding: int,
)
    requires
        forall|j: int| 0 <= j < above.len() ==> (#[trigger] above[j]).kind.precedence() >= binding,
    ensures
        pop_binding(below + above, output, binding) == pop_binding(
            below,
            output + unwound(above),
            binding,
        ),
    decreases above.len(),
{
    if above.len() == 0 {
        assert(below + above =~= below);
        assert(output + unwound(above) =~= output);
    } else {
        let whole = below + above;
        assert(whole.last() == above.last());
        assert(whole.drop_last() =~= below + above.drop_last());
        pop_binding_through(below, above.drop_last(), output.push(above.last().text), binding);
        assert(output.push(above.last().text) + unwound(above.drop_last()) =~= output + unwound(
            above,
        ));
    }
}

/// A group of operators is popped down to its parenthesis.
proof fn pop_group_through(
    below: Seq<TokenView>,
    paren: TokenView,
    above: Seq<TokenView>,
    output: Seq<Seq<char>>,
)
    requires
        paren.kind is LeftParen,
        forall|j: int| 0 <= j < above.len() ==> !((#[trigger] above[j]).kind is LeftParen),
    ensures
        pop_group(below.push(paren) + above, output) == (below, output + unwound(above)),
    decreases above.len(),
{
    let whole = below.push(paren) + above;
    if above.len() == 0 {
        assert(whole =~= below.push(paren));
        assert(whole.drop_last() =~= below);
        assert(output + unwound(above) =~= output);
    } else {
        assert(whole.last() == above.last());
        assert(whole.drop_last() =~= below.push(paren) + above.drop_last());
        pop_group_through(below, paren, above.drop_last(), output.push(above.last().text));
        assert(output.push(above.last().text) + unwound(above.drop_last()) =~= output + unwound(
            above,
        ));
    }
}

/// A stack of operators is drained top first.
proof fn drain_operators(stack: Seq<TokenView>, output: Seq<Seq<char>>)
    requires
        forall|j: int| 0 <= j < stack.len() ==> (#[trigger] stack[j]).kind.is_operator(),
    ensures
        drain(stack, output) == output + unwound(stack),
    decreases stack.len(),
{
    if stack.len() == 0 {
        assert(output + unwound(stack) =~= output);
    } else {
        drain_operators(stack.drop_last(), output.push(stack.last().text));
        assert(output.push(stack.last().text) + unwound(stack.drop_last()) =~= output + unwound(
            stack,
        ));
    }
}

/// Every expression binds more tightly than a parenthesis.
proof fn operators_bind(e: Expr, inside: bool, signable: bool)
    requires
        e.placed(inside, signable),
    ensures
        e.level() >= 1,
{
}

/// An expression has tokens, and the last of them is a number or a closing
/// parenthesis.
proof fn tokens_end_in_operand(e: Expr)
    ensures
        e.tokens().len() > 0,
        e.tokens().last().kind is Number || e.tokens().last().kind is RightParen,
    decreases e,
{
    match e {
        Expr::Binary(_, _, right) => {
            tokens_end_in_operand(*right);
        },
        _ => {},
    }
}

/// What an expression leaves on the stack binds at least as tightly as the
/// expression, and together with what it has emitted makes up its postfix
/// order.
proof fn pending_completes_emitted(e: Expr, inside: bool, signable: bool)
    requires
        e.placed(inside, signable),
    ensures
        e.emitted() + unwound(e.pending()) == e.postfix(),
        forall|j: int|
            0 <= j < e.pending().len() ==> {
                &&& (#[trigger] e.pending()[j]).kind.is_operator()
                &&& e.pending()[j].kind.precedence() >= e.level()
            },
    decreases e,
{
    match e {
        Expr::Binary(op, left, right) => {
            pending_completes_emitted(*right, inside, true);
            unwound_below(sign(op), right.pending());
            assert(e.emitted() + unwound(e.pending()) =~= e.postfix());
        },
        _ => {
            assert(e.emitted() + unwound(e.pending()) =~= e.postfix());
        },
    }
}

/// The converter takes the tokens of an expression as the tree says: a
/// number is emitted, a sign and its number are emitted as one, a group is
/// opened and closed around its inside, a function waits for its group, an
/// operator comes between its operands.
proof fn conversion_follows_tree(
    e: Expr,
    inside: bool,
    signable: bool,
    all: Seq<TokenView>,
    at: int,
    state: Conversion,
)
    requires
        e.placed(inside, signable),
        0 <= at,
        at + e.tokens().len() <= all.len(),
        all.subrange(at, at + e.tokens().len()) == e.tokens(),
        state.depth >= 0,
        signable ==> at == 0 || all[at - 1].kind.is_operator(),
    ensures
        convert_from(all, at, state) == convert_from(
            all,
            at + e.tokens().len(),
            e.converted(state),
        ),
        e.converted(state).depth == state.depth,
    decreases e,
{
    let mine = e.tokens();
    let n = mine.len() as int;
    assert forall|j: int| 0 <= j < n implies all[at + j] == mine[j] by {
        assert(all.subrange(at, at + n)[j] == all[at + j]);
    }
    match e {
        Expr::Number(text) => {
            assert(all[at] == mine[0]);
        },
        Expr::Negative(text) => {
            assert(all[at] == mine[0]);
            assert(all[at + 1] == mine[1]);
        },
        Expr::Group(inner) => {
            let inside_tokens = inner.tokens();
            let k = inside_tokens.len() as int;
            let opened = state.open(sign(TokenKind::LeftParen));
            assert(all[at] == mine[0]);
            assert(all.subrange(at + 1, at + 1 + k) =~= inside_tokens) by {
                assert forall|j: int| 0 <= j < k implies all[at + 1 + j] == inside_tokens[j] by {
                    assert(mine[1 + j] == inside_tokens[j]);
                }
            }
            conversion_follows_tree(*inner, true, false, all, at + 1, opened);
            assert(all[at + 1 + k] == mine[1 + k]);
        },
        Expr::Call(f, argument) => {
            let inside_tokens = argument.tokens();
            let k = inside_tokens.len() as int;
            let waiting = state.function(sign(f));
            let opened = waiting.open(sign(TokenKind::LeftParen));
            assert(all[at] == mine[0]);
            assert(all[at + 1] == mine[1]);
            assert(convert_from(all, at, state) == convert_from(all, at + 1, waiting));
            assert(convert_from(all, at + 1, waiting) == convert_from(all, at + 2, opened));
            assert(all.subrange(at + 2, at + 2 + k) =~= inside_tokens) by {
                assert forall|j: int| 0 <= j < k implies all[at + 2 + j] == inside_tokens[j] by {
                    assert(mine[2 + j] == inside_tokens[j]);
                }
            }
            conversion_follows_tree(*argument, true, false, all, at + 2, opened);
            assert(all[at + 2 + k] == mine[2 + k]);
        },
        Expr::Binary(op, left, right) => {
            let first = left.tokens();
            let second = right.tokens();
            let k = first.len() as int;
            let m = second.len() as int;
            assert(all.subrange(at, at + k) =~= first) by {
                assert forall|j: int| 0 <= j < k implies all[at + j] == first[j] by {
                    assert(mine[j] == first[j]);
                }
            }
            conversion_follows_tree(*left, inside, signable, all, at, state);
            tokens_end_in_operand(*left);
            let middle = at + k;
            assert(all[middle] == mine[k]);
            assert(all[middle - 1] == mine[k - 1]);
            assert(mine[k - 1] == first.last());
            let between = left.converted(state).operator(sign(op));
            assert(convert_from(all, middle, left.converted(state)) == convert_from(
                all,
                middle + 1,
                between,
            ));
            assert(all.subrange(middle + 1, middle + 1 + m) =~= second) by {
                assert forall|j: int| 0 <= j < m implies all[middle + 1 + j] == second[j] by {
                    assert(mine[k + 1 + j] == second[j]);
                }
            }
            conversion_follows_tree(*right, inside, true, all, middle + 1, between);
        },
    }
}

/// After an expression the converter has put the expression's pending
/// operators on top of the stack it found and sent the rest of the
/// expression to the output, provided that what lies on top of the stack
/// binds less tightly than the expression, and that outside all parentheses
/// no function waits.
proof fn converted_state(e: Expr, inside: bool, signable: bool, state: Conversion)
    requires
        e.placed(inside, signable),
        state.operators.len() > 0 ==> state.operators.last().kind.precedence() < e.level(),
        inside ==> state.depth >= 1,
        !inside ==> state.depth == 0 && state.functions.len() == 0,
    ensures
        e.converted(state) == (Conversion {
            operators: state.operators + e.pending(),
            output: state.output + e.emitted(),
            ..state
        }),
    decreases e,
{
    match e {
        Expr::Number(text) => {
            assert(state.operators + e.pending() =~= state.operators);
            assert(state.output + e.emitted() =~= state.output.push(text));
        },
        Expr::Negative(text) => {
            assert(state.operators + e.pending() =~= state.operators);
            assert(state.output + e.emitted() =~= state.output.push(negated(text)));
        },
        Expr::Group(inner) => {
            let paren = sign(TokenKind::LeftParen);
            let opened = state.open(paren);
            assert(opened.operators.last() == paren);
            operators_bind(*inner, true, false);
            converted_state(*inner, true, false, opened);
            pending_completes_emitted(*inner, true, false);
            pop_group_through(
                state.operators,
                paren,
                inner.pending(),
                opened.output + inner.emitted(),
            );
            assert(opened.operators + inner.pending() =~= state.operators.push(paren)
                + inner.pending());
            assert(opened.output + inner.emitted() + unwound(inner.pending()) =~= state.output
                + inner.postfix());
            assert(state.operators + e.pending() =~= state.operators);
        },
        Expr::Call(f, argument) => {
            let paren = sign(TokenKind::LeftParen);
            let waiting = state.function(sign(f));
            let opened = waiting.open(paren);
            assert(opened.operators.last() == paren);
            operators_bind(*argument, true, false);
            converted_state(*argument, true, false, opened);
            pending_completes_emitted(*argument, true, false);
            pop_group_through(
                state.operators,
                paren,
                argument.pending(),
                opened.output + argument.emitted(),
            );
            assert(opened.operators + argument.pending() =~= state.operators.push(paren)
                + argument.pending());
            assert(opened.output + argument.emitted() + unwound(argument.pending())
                =~= state.output + argument.postfix());
            assert(waiting.functions.drop_last() =~= state.functions);
            assert(waiting.functions.last() == sign(f));
            assert(state.operators + e.pending() =~= state.operators);
            assert((state.output + argument.postfix()).push(f.symbol()) =~= state.output
                + e.emitted());
        },
        Expr::Binary(op, left, right) => {
            converted_state(*left, inside, signable, state);
            pending_completes_emitted(*left, inside, signable);
            let done = left.converted(state);
            pop_binding_through(state.operators, left.pending(), done.output, op.precedence());
            assert(done.output + unwound(left.pending()) =~= state.output + left.postfix());
            let between = done.operator(sign(op));
            assert(between.operators == state.operators.push(sign(op)));
            assert(between.output == state.output + left.postfix());
            converted_state(*right, inside, true, between);
            assert(between.operators + right.pending() =~= state.operators + e.pending());
            assert(between.output + right.emitted() =~= state.output + e.emitted());
        },
    }
}

/// The converter turns the tokens of a well-formed expression into the
/// expression's postfix order: operators of higher precedence first, equal
/// precedence from left to right (`^` included), parentheses before all, a
/// function after its argument.
pub proof fn conversion_is_postfix_order(e: Expr)
    requires
        e.well_formed(),
    ensures
        postfix_of(e.tokens()) == Ok::<Seq<Seq<char>>, SyntaxError>(e.postfix()),
{
    let all = e.tokens();
    let start = Conversion::start();
    assert(all.subrange(0, all.len() as int) =~= all);
    conversion_follows_tree(e, false, true, all, 0, start);
    converted_state(e, false, true, start);
    pending_completes_emitted(e, false, true);
    drain_operators(e.pending(), start.output + e.emitted());
    assert(start.operators + e.pending() =~= e.pending());
    assert(start.output + e.emitted() =~= e.emitted());
}

/// Running the postfix order of an expression puts the expression's value on
/// the stack, or fails where the expression has none.
proof fn postfix_runs_to_value(
    a: Arithmetic,
    e: Expr,
    inside: bool,
    signable: bool,
    before: Progress,
)
    requires
        e.placed(inside, signable),
        !before.failed,
    ensures
        match e.value(a) {
            Some(v) => {
                &&& !a.run(before, e.postfix()).failed
                &&& a.run(before, e.postfix()).stack == before.stack.push(v)
            },
            None => a.run(before, e.postfix()).failed,
        },
    decreases e,
{
    match e {
        Expr::Number(text) => {
            assert(e.postfix().drop_last() =~= Seq::<Seq<char>>::empty());
            assert(a.run(before, e.postfix().drop_last()) == before);
        },
        Expr::Negative(text) => {
            assert(e.postfix().drop_last() =~= Seq::<Seq<char>>::empty());
            assert(a.run(before, e.postfix().drop_last()) == before);
        },
        Expr::Group(inner) => {
            postfix_runs_to_value(a, *inner, true, false, before);
        },
        Expr::Call(f, argument) => {
            let symbol = seq![f.symbol()];
            run_in_parts(a, before, argument.postfix(), symbol);
            postfix_runs_to_value(a, *argument, true, false, before);
            let first = a.run(before, argument.postfix());
            assert(symbol.drop_last() =~= Seq::<Seq<char>>::empty());
            if first.failed {
                failure_is_final(a, first, symbol);
            } else {
                symbol_is_entry(f);
                assert(a.run(first, symbol.drop_last()) == first);
                assert(first.stack.drop_last() =~= before.stack);
            }
        },
        Expr::Binary(op, left, right) => {
            let symbol = seq![op.symbol()];
            let operands = left.postfix() + right.postfix();
            run_in_parts(a, before, operands, symbol);
            run_in_parts(a, before, left.postfix(), right.postfix());
            postfix_runs_to_value(a, *left, inside, signable, before);
            let first = a.run(before, left.postfix());
            assert(symbol.drop_last() =~= Seq::<Seq<char>>::empty());
            if first.failed {
                failure_is_final(a, first, right.postfix());
                failure_is_final(a, first, symbol);
            } else {
                postfix_runs_to_value(a, *right, inside, true, first);
                let second = a.run(first, right.postfix());
                if second.failed {
                    failure_is_final(a, second, symbol);
                } else {
                    symbol_is_entry(op);
                    assert(a.run(second, symbol.drop_last()) == second);
                    assert(second.stack.take(second.stack.len() - 2) =~= before.stack);
                }
            }
        },
    }
}

/// A well-formed expression, written out in infix order, converted and run,
/// comes to the value of its tree: each operator applied to the values of
/// its own operands, each function to the value of its argument.
pub proof fn expression_evaluates_to_its_value(a: Arithmetic, e: Expr)
    requires
        e.well_formed(),
    ensures
        postfix_of(e.tokens()) is Ok,
        a.evaluate(postfix_of(e.tokens())->Ok_0).value == e.value(a),
{
    conversion_is_postfix_order(e);
    postfix_runs_to_value(a, e, false, true, Progress::start());
}

/// An expression in which some divisor is worth zero has no value.
pub proof fn division_by_zero_anywhere(a: Arithmetic, e: Expr)
    requires
        e.well_formed(),
        e.divides_by_zero(a),
    ensures
        e.value(a) is None,
        a.evaluate(postfix_of(e.tokens())->Ok_0).value is None,
{
    expression_evaluates_to_its_value(a, e);
    zero_divisor_has_no_value(a, e);
}

proof fn zero_divisor_has_no_value(a: Arithmetic, e: Expr)
    requires
        e.divides_by_zero(a),
    ensures
        e.value(a) is None,
    decreases e,
{
    match e {
        Expr::Number(_) | Expr::Negative(_) => {},
        Expr::Group(inner) => {
            zero_divisor_has_no_value(a, *inner);
        },
        Expr::Call(_, argument) => {
            zero_divisor_has_no_value(a, *argument);
        },
        Expr::Binary(op, left, right) => {
            if left.divides_by_zero(a) {
                zero_divisor_has_no_value(a, *left);
            }
            if right.divides_by_zero(a) {
                zero_divisor_has_no_value(a, *right);
            }
        },
    }
}

} // verus!
