//! From an expression to a run: the three stages in a row.

use vstd::prelude::*;
use crate::constants::Constants;
use crate::eval::{Evaluation, Machine, Request};
use crate::lexer::{tokenize, tokens_of, TokenizeError, TokenizeErrorView};
use crate::meaning::{ending, machine_computes_evaluation, Arithmetic, Outcome};
use crate::postfix::{postfix_of, rpn, SyntaxError};

verus! {

/// The stage at which an expression failed, with that stage's error.
#[derive(Debug, PartialEq, Eq)]
pub enum Failure {
    Tokenize(TokenizeError),
    Syntax(SyntaxError),
}

/// A failure as the contracts see it.
pub enum FailureView {
    Tokenize(TokenizeErrorView),
    Syntax(SyntaxError),
}

impl View for Failure {
    type V = FailureView;

    open spec fn view(&self) -> FailureView {
        match self {
            Failure::Tokenize(e) => FailureView::Tokenize(e@),
            Failure::Syntax(e) => FailureView::Syntax(*e),
        }
    }
}

/// The postfix form of an expression under a table of constants: its tokens,
/// converted. The first stage that fails decides the failure.
pub open spec fn compiled(table: Seq<(Seq<char>, Seq<char>)>, text: Seq<char>) -> Result<
    Seq<Seq<char>>,
    FailureView,
> {
    match tokens_of(table, text) {
        Err(e) => Err(FailureView::Tokenize(e)),
        Ok(tokens) => match postfix_of(tokens) {
            Err(e) => Err(FailureView::Syntax(e)),
            Ok(postfix) => Ok(postfix),
        },
    }
}

/// Brings an expression to postfix form.
///
/// The one failure that the text and the table do not decide is
/// `PatternRejected`, which is the regex engine's. It does not come for an
/// empty expression.
pub fn compile(expression: &str, constants: &Constants) -> (r: Result<Vec<String>, Failure>)
    ensures
        expression@.len() == 0 ==> r is Ok,
        match r {
            Ok(postfix) => compiled(constants@, expression@) == Ok::<Seq<Seq<char>>, FailureView>(
                postfix.deep_view(),
            ),
            Err(e) => e@ == FailureView::Tokenize(TokenizeErrorView::PatternRejected) || compiled(
                constants@,
                expression@,
            ) == Err::<Seq<Seq<char>>, FailureView>(e@),
        },
{
    let tokens = match tokenize(expression, constants) {
        Ok(tokens) => tokens,
        Err(e) => {
            return Err(Failure::Tokenize(e));
        },
    };
    match rpn(tokens) {
        Ok(postfix) => Ok(postfix),
        Err(e) => Err(Failure::Syntax(e)),
    }
}

/// Brings an expression to postfix form and begins its run: the result is
/// the run with its first request, or the failure of the stage that failed.
pub fn calculator(expression: &str, constants: &Constants) -> (r: Result<
    (Evaluation, Request),
    Failure,
>)
    ensures
        expression@.len() == 0 ==> r is Ok,
        match r {
            Ok((run, request)) => compiled(constants@, expression@) is Ok && (run@, request@)
                == Machine::start(compiled(constants@, expression@)->Ok_0),
            Err(e) => e@ == FailureView::Tokenize(TokenizeErrorView::PatternRejected) || compiled(
                constants@,
                expression@,
            ) == Err::<Seq<Seq<char>>, FailureView>(e@),
        },
{
    match compile(expression, constants) {
        Ok(postfix) => Ok(Evaluation::begin(postfix)),
        Err(e) => Err(e),
    }
}

/// What an expression comes to under a table of constants and an
/// arithmetic: the failure of the stage that fails, or the outcome of the
/// run.
pub open spec fn result_of(
    a: Arithmetic,
    table: Seq<(Seq<char>, Seq<char>)>,
    text: Seq<char>,
) -> Result<Outcome, FailureView> {
    match compiled(table, text) {
        Ok(postfix) => Ok(a.evaluate(postfix)),
        Err(e) => Err(e),
    }
}

/// The result is a function of the text, the table and the arithmetic: the
/// run that `calculator` begins, with its requests answered by an
/// arithmetic, ends with `result_of` for that arithmetic.
pub proof fn calculator_computes(
    a: Arithmetic,
    table: Seq<(Seq<char>, Seq<char>)>,
    text: Seq<char>,
)
    requires
        compiled(table, text) is Ok,
    ensures
        result_of(a, table, text) == Ok::<Outcome, FailureView>(
            ending(
                a.drive(
                    Machine::start(compiled(table, text)->Ok_0).0,
                    Machine::start(compiled(table, text)->Ok_0).1,
                ),
            ),
        ),
{
    machine_computes_evaluation(a, compiled(table, text)->Ok_0);
}

} // verus!
