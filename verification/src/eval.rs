//! Running a postfix sequence on a value stack.
//!
//! The run is a machine that stops whenever it needs arithmetic. It hands out
//! a `Request`; the caller computes the answer and hands it back to `resume`.
//! Every decision is the machine's: when the stack is too short, when a
//! divisor is zero, when a tangent is undefined.

use vstd::prelude::*;
use vstd::string::*;
use crate::number::{is_zero, zero, HALF_TURN, MINUS_ONE, NINETY, ZERO};
use crate::text::same_text;
use crate::token::TokenKind;

verus! {

/// An operation on two numbers that the caller computes.
#[derive(Clone, Copy, Debug, PartialEq, Eq, Structural)]
pub enum Operation {
    Add,
    Sub,
    Mul,
    Div,
    Pow,
    /// The remainder of the first number on division by the second, with the
    /// sign of the first.
    Rem,
}

/// A function of an angle in degrees that the caller computes.
#[derive(Clone, Copy, Debug, PartialEq, Eq, Structural)]
pub enum Trig {
    Sin,
    Cos,
    Tan,
}

/// A function as it stands in a postfix sequence.
#[derive(Clone, Copy, Debug, PartialEq, Eq, Structural)]
pub enum Function {
    Sin,
    Cos,
    Tan,
    Cot,
}

/// Something the user is told about a run.
#[derive(Clone, Copy, Debug, PartialEq, Eq, Structural)]
pub enum Notice {
    /// A division met a zero divisor; the run has no value.
    DivisionByZero,
    /// A tangent was taken at an odd multiple of a right angle; zero stands
    /// in for it.
    UndefinedTangent,
}

impl Notice {
    /// The notice in words.
    pub fn message(&self) -> (r: String)
        ensures
            r@ == match self {
                Notice::DivisionByZero => "Division by zero"@,
                Notice::UndefinedTangent => "Undefined tangent value"@,
            },
    {
        match self {
            Notice::DivisionByZero => String::from_str("Division by zero"),
            Notice::UndefinedTangent => String::from_str("Undefined tangent value"),
        }
    }
}

/// What one entry of a postfix sequence is.
#[derive(Clone, Copy, Debug, PartialEq, Eq, Structural)]
pub enum Entry {
    Operator(Operation),
    Function(Function),
    Numeral,
}

/// An entry is an operator or a function exactly when it is that symbol,
/// letter for letter. Anything else is taken for a numeral.
pub open spec fn entry_of(text: Seq<char>) -> Entry {
    if text == TokenKind::Mul.symbol() {
        Entry::Operator(Operation::Mul)
    } else if text == TokenKind::Div.symbol() {
        Entry::Operator(Operation::Div)
    } else if text == TokenKind::Add.symbol() {
        Entry::Operator(Operation::Add)
    } else if text == TokenKind::Sub.symbol() {
        Entry::Operator(Operation::Sub)
    } else if text == TokenKind::Pow.symbol() {
        Entry::Operator(Operation::Pow)
    } else if text == TokenKind::Sin.symbol() {
        Entry::Function(Function::Sin)
    } else if text == TokenKind::Cos.symbol() {
        Entry::Function(Function::Cos)
    } else if text == TokenKind::Tan.symbol() {
        Entry::Function(Function::Tan)
    } else if text == TokenKind::Cot.symbol() {
        Entry::Function(Function::Cot)
    } else {
        Entry::Numeral
    }
}

/// What the symbol of each kind of token is as an entry.
pub open spec fn entry_for(kind: TokenKind) -> Entry {
    match kind {
        TokenKind::Add => Entry::Operator(Operation::Add),
        TokenKind::Sub => Entry::Operator(Operation::Sub),
        TokenKind::Mul => Entry::Operator(Operation::Mul),
        TokenKind::Div => Entry::Operator(Operation::Div),
        TokenKind::Pow => Entry::Operator(Operation::Pow),
        TokenKind::Sin => Entry::Function(Function::Sin),
        TokenKind::Cos => Entry::Function(Function::Cos),
        TokenKind::Tan => Entry::Function(Function::Tan),
        TokenKind::Cot => Entry::Function(Function::Cot),
        TokenKind::Number | TokenKind::LeftParen | TokenKind::RightParen => Entry::Numeral,
    }
}

/// The symbol of an operator or of a function is that operator or function
/// as an entry; no two kinds share a symbol.
pub proof fn symbol_is_entry(kind: TokenKind)
    ensures
        entry_of(kind.symbol()) == entry_for(kind),
{
    assert(TokenKind::Mul.symbol()[0] == '*');
    assert(TokenKind::Div.symbol()[0] == '/');
    assert(TokenKind::Add.symbol()[0] == '+');
    assert(TokenKind::Sub.symbol()[0] == '-');
    assert(TokenKind::Pow.symbol()[0] == '^');
    assert(TokenKind::Sin.symbol()[0] == 's');
    assert(TokenKind::Cos.symbol()[1] == 'o');
    assert(TokenKind::Tan.symbol()[0] == 't');
    assert(TokenKind::Cot.symbol()[1] == 't');
    assert(TokenKind::LeftParen.symbol()[0] == '(');
    assert(TokenKind::RightParen.symbol()[0] == ')');
}

/// What the machine asks of its caller.
#[derive(Debug, PartialEq, Eq)]
pub enum Request {
    /// Read this numeral as a number; answer `None` if it is none.
    Read(String),
    /// Apply the operation to the two numbers, in this order.
    Binary(Operation, u64, u64),
    /// Apply the function to the angle, given in degrees.
    Angle(Trig, u64),
    /// Nothing: the run is over, with this value or without one.
    Finished(Option<u64>),
}

/// A request as the contracts see it.
pub enum RequestView {
    Read(Seq<char>),
    Binary(Operation, u64, u64),
    Angle(Trig, u64),
    Finished(Option<u64>),
}

impl View for Request {
    type V = RequestView;

    open spec fn view(&self) -> RequestView {
        match self {
            Request::Read(text) => RequestView::Read(text@),
            Request::Binary(op, x, y) => RequestView::Binary(*op, *x, *y),
            Request::Angle(f, x) => RequestView::Angle(*f, *x),
            Request::Finished(value) => RequestView::Finished(*value),
        }
    }
}

/// What the machine is waiting for.
#[derive(Clone, Copy, Debug, PartialEq, Eq, Structural)]
pub enum Phase {
    /// A number that goes on the stack: a numeral read, or a result.
    Value,
    /// The remainder of `angle` by a half turn, which tells whether the
    /// tangent of `angle` is defined. `inverse` is set for a cotangent.
    Remainder { angle: u64, inverse: bool },
    /// The tangent of an angle at which it is defined.
    Tangent { inverse: bool },
    /// Nothing more.
    Done { value: Option<u64> },
}

/// The machine as the contracts see it.
pub struct Machine {
    /// The sequence being run.
    pub postfix: Seq<Seq<char>>,
    /// The index of the entry to take next.
    pub next: int,
    /// The value stack, top last.
    pub stack: Seq<u64>,
    /// What the user is to be told, oldest first.
    pub notices: Seq<Notice>,
    pub phase: Phase,
}

impl Machine {
    /// The run ends here.
    pub open spec fn stop(self, value: Option<u64>) -> (Machine, RequestView) {
        (Machine { phase: Phase::Done { value }, ..self }, RequestView::Finished(value))
    }

    /// A number goes on the stack.
    pub open spec fn push(self, value: u64) -> Machine {
        Machine { stack: self.stack.push(value), ..self }
    }

    /// The user is to be told something.
    pub open spec fn note(self, notice: Notice) -> Machine {
        Machine { notices: self.notices.push(notice), ..self }
    }

    /// The machine waits for an answer of this kind.
    pub open spec fn await_for(self, phase: Phase) -> Machine {
        Machine { phase, ..self }
    }

    /// Takes the next entry and says what it needs. At the end of the
    /// sequence the run has a value exactly when one number is left.
    pub open spec fn fetch(self) -> (Machine, RequestView) {
        if self.next < 0 || self.next >= self.postfix.len() {
            self.stop(
                if self.stack.len() == 1 {
                    Some(self.stack[0])
                } else {
                    None
                },
            )
        } else {
            let text = self.postfix[self.next];
            let taken = Machine { next: self.next + 1, ..self };
            match entry_of(text) {
                Entry::Numeral => (taken.await_for(Phase::Value), RequestView::Read(text)),
                Entry::Operator(op) => {
                    if taken.stack.len() < 2 {
                        taken.stop(None)
                    } else {
                        let y = taken.stack[taken.stack.len() - 1];
                        let x = taken.stack[taken.stack.len() - 2];
                        if op is Div && is_zero(y) {
                            taken.note(Notice::DivisionByZero).stop(None)
                        } else {
                            (
                                Machine {
                                    stack: taken.stack.take(taken.stack.len() - 2),
                                    phase: Phase::Value,
                                    ..taken
                                },
                                RequestView::Binary(op, x, y),
                            )
                        }
                    }
                },
                Entry::Function(f) => {
                    if taken.stack.len() < 1 {
                        taken.stop(None)
                    } else {
                        let x = taken.stack.last();
                        let popped = Machine { stack: taken.stack.drop_last(), ..taken };
                        match f {
                            Function::Sin => (
                                popped.await_for(Phase::Value),
                                RequestView::Angle(Trig::Sin, x),
                            ),
                            Function::Cos => (
                                popped.await_for(Phase::Value),
                                RequestView::Angle(Trig::Cos, x),
                            ),
                            Function::Tan => (
                                popped.await_for(Phase::Remainder { angle: x, inverse: false }),
                                RequestView::Binary(Operation::Rem, x, HALF_TURN),
                            ),
                            Function::Cot => (
                                popped.await_for(Phase::Remainder { angle: x, inverse: true }),
                                RequestView::Binary(Operation::Rem, x, HALF_TURN),
                            ),
                        }
                    }
                },
            }
        }
    }

    /// The machine before its first entry.
    pub open spec fn fresh(postfix: Seq<Seq<char>>) -> Machine {
        Machine { postfix, next: 0, stack: seq![], notices: seq![], phase: Phase::Value }
    }

    /// The machine at its first request.
    pub open spec fn start(postfix: Seq<Seq<char>>) -> (Machine, RequestView) {
        Machine::fresh(postfix).fetch()
    }

    /// Takes the answer to the last request and says what is needed next.
    ///
    /// No answer ends the run without a value. A remainder of exactly `90.0`
    /// means the tangent is undefined: the user is told and `0.0` stands in
    /// for it. A cotangent is the tangent raised to `-1.0`, or `0.0` where
    /// the tangent, true or stand-in, is zero.
    pub open spec fn resume(self, reply: Option<u64>) -> (Machine, RequestView) {
        match self.phase {
            Phase::Done { value } => (self, RequestView::Finished(value)),
            Phase::Value => match reply {
                Some(v) => self.push(v).fetch(),
                None => self.stop(None),
            },
            Phase::Remainder { angle, inverse } => match reply {
                Some(v) => if v == NINETY {
                    self.note(Notice::UndefinedTangent).push(ZERO).fetch()
                } else {
                    (
                        self.await_for(Phase::Tangent { inverse }),
                        RequestView::Angle(Trig::Tan, angle),
                    )
                },
                None => self.stop(None),
            },
            Phase::Tangent { inverse } => match reply {
                Some(v) => if !inverse {
                    self.push(v).fetch()
                } else if is_zero(v) {
                    self.push(ZERO).fetch()
                } else {
                    (
                        self.await_for(Phase::Value),
                        RequestView::Binary(Operation::Pow, v, MINUS_ONE),
                    )
                },
                None => self.stop(None),
            },
        }
    }

    /// An upper bound on the answers the machine can still take.
    pub open spec fn steps_left(self) -> nat {
        let entries = if self.next < self.postfix.len() {
            (self.postfix.len() - self.next) as nat
        } else {
            0nat
        };
        match self.phase {
            Phase::Done { .. } => 0nat,
            Phase::Value => 3 * entries + 1,
            Phase::Tangent { .. } => 3 * entries + 2,
            Phase::Remainder { .. } => 3 * entries + 3,
        }
    }
}

/// Every answer brings the machine closer to its end.
pub proof fn resume_makes_progress(machine: Machine, reply: Option<u64>)
    requires
        !(machine.phase is Done),
        0 <= machine.next <= machine.postfix.len(),
    ensures
        machine.resume(reply).0.steps_left() < machine.steps_left(),
        machine.resume(reply).0.postfix == machine.postfix,
        machine.next <= machine.resume(reply).0.next <= machine.postfix.len(),
{
}

/// What an entry of a postfix sequence is.
pub fn entry(text: &str) -> (r: Entry)
    ensures
        r == entry_of(text@),
{
    proof {
        reveal_strlit("*");
        reveal_strlit("/");
        reveal_strlit("+");
        reveal_strlit("-");
        reveal_strlit("^");
        reveal_strlit("sin");
        reveal_strlit("cos");
        reveal_strlit("tg");
        reveal_strlit("ctg");
        assert("*"@ =~= TokenKind::Mul.symbol());
        assert("/"@ =~= TokenKind::Div.symbol());
        assert("+"@ =~= TokenKind::Add.symbol());
        assert("-"@ =~= TokenKind::Sub.symbol());
        assert("^"@ =~= TokenKind::Pow.symbol());
        assert("sin"@ =~= TokenKind::Sin.symbol());
        assert("cos"@ =~= TokenKind::Cos.symbol());
        assert("tg"@ =~= TokenKind::Tan.symbol());
        assert("ctg"@ =~= TokenKind::Cot.symbol());
    }
    if same_text(text, "*") {
        Entry::Operator(Operation::Mul)
    } else if same_text(text, "/") {
        Entry::Operator(Operation::Div)
    } else if same_text(text, "+") {
        Entry::Operator(Operation::Add)
    } else if same_text(text, "-") {
        Entry::Operator(Operation::Sub)
    } else if same_text(text, "^") {
        Entry::Operator(Operation::Pow)
    } else if same_text(text, "sin") {
        Entry::Function(Function::Sin)
    } else if same_text(text, "cos") {
        Entry::Function(Function::Cos)
    } else if same_text(text, "tg") {
        Entry::Function(Function::Tan)
    } else if same_text(text, "ctg") {
        Entry::Function(Function::Cot)
    } else {
        Entry::Numeral
    }
}

/// A run of a postfix sequence, between two requests.
pub struct Evaluation {
    postfix: Vec<String>,
    next: usize,
    stack: Vec<u64>,
    notices: Vec<Notice>,
    phase: Phase,
}

impl View for Evaluation {
    type V = Machine;

    closed spec fn view(&self) -> Machine {
        Machine {
            postfix: self.postfix.deep_view(),
            next: self.next as int,
            stack: self.stack@,
            notices: self.notices@,
            phase: self.phase,
        }
    }
}

impl Evaluation {
    /// Begins a run and says what it needs first.
    pub fn begin(postfix: Vec<String>) -> (r: (Evaluation, Request))
        ensures
            (r.0@, r.1@) == Machine::start(postfix.deep_view()),
    {
        let mut run = Evaluation {
            postfix,
            next: 0,
            stack: Vec::new(),
            notices: Vec::new(),
            phase: Phase::Value,
        };
        assert(run@ =~= Machine::fresh(postfix.deep_view()));
        let request = run.fetch();
        (run, request)
    }

    /// Takes the answer to the last request and says what is needed next.
    ///
    /// Answer a `Read` with the number, or with `None` if the text is no
    /// numeral; answer `Binary` and `Angle` with the result. After `Finished`
    /// every call says `Finished` again.
    pub fn resume(&mut self, reply: Option<u64>) -> (r: Request)
        ensures
            (final(self)@, r@) == old(self)@.resume(reply),
    {
        match self.phase {
            Phase::Done { value } => Request::Finished(value),
            Phase::Value => match reply {
                Some(v) => {
                    self.stack.push(v);
                    self.fetch()
                },
                None => self.stop(None),
            },
            Phase::Remainder { angle, inverse } => match reply {
                Some(v) => {
                    if v == NINETY {
                        self.notices.push(Notice::UndefinedTangent);
                        self.stack.push(ZERO);
                        self.fetch()
                    } else {
                        self.phase = Phase::Tangent { inverse };
                        Request::Angle(Trig::Tan, angle)
                    }
                },
                None => self.stop(None),
            },
            Phase::Tangent { inverse } => match reply {
                Some(v) => {
                    if !inverse {
                        self.stack.push(v);
                        self.fetch()
                    } else if zero(v) {
                        self.stack.push(ZERO);
                        self.fetch()
                    } else {
                        self.phase = Phase::Value;
                        Request::Binary(Operation::Pow, v, MINUS_ONE)
                    }
                },
                None => self.stop(None),
            },
        }
    }

    /// Whether the run is over.
    pub fn finished(&self) -> (r: bool)
        ensures
            r == (self@.phase is Done),
    {
        match self.phase {
            Phase::Done { .. } => true,
            _ => false,
        }
    }

    /// What the user is to be told so far, oldest first.
    pub fn notices(&self) -> (r: &Vec<Notice>)
        ensures
            r@ == self@.notices,
    {
        &self.notices
    }

    fn stop(&mut self, value: Option<u64>) -> (r: Request)
        ensures
            (final(self)@, r@) == old(self)@.stop(value),
    {
        self.phase = Phase::Done { value };
        Request::Finished(value)
    }

    fn fetch(&mut self) -> (r: Request)
        ensures
            (final(self)@, r@) == old(self)@.fetch(),
    {
        if self.next >= self.postfix.len() {
            let value = if self.stack.len() == 1 {
                Some(self.stack[0])
            } else {
                None
            };
            return self.stop(value);
        }
        let kind = entry(self.postfix[self.next].as_str());
        assert(self.postfix.deep_view()[self.next as int] == self.postfix[self.next as int]@);
        let at = self.next;
        self.next = self.next + 1;
        match kind {
            Entry::Numeral => {
                self.phase = Phase::Value;
                Request::Read(self.postfix[at].clone())
            },
            Entry::Operator(op) => {
                let depth = self.stack.len();
                if depth < 2 {
                    return self.stop(None);
                }
                let y = self.stack[depth - 1];
                let x = self.stack[depth - 2];
                let divides = match op {
                    Operation::Div => true,
                    _ => false,
                };
                if divides && zero(y) {
                    self.notices.push(Notice::DivisionByZero);
                    return self.stop(None);
                }
                self.stack.truncate(depth - 2);
                self.phase = Phase::Value;
                Request::Binary(op, x, y)
            },
            Entry::Function(f) => {
                let depth = self.stack.len();
                if depth < 1 {
                    return self.stop(None);
                }
                let x = self.stack[depth - 1];
                self.stack.truncate(depth - 1);
                assert(self.stack@ =~= old(self).stack@.drop_last());
                match f {
                    Function::Sin => {
                        self.phase = Phase::Value;
                        Request::Angle(Trig::Sin, x)
                    },
                    Function::Cos => {
                        self.phase = Phase::Value;
                        Request::Angle(Trig::Cos, x)
                    },
                    Function::Tan => {
                        self.phase = Phase::Remainder { angle: x, inverse: false };
                        Request::Binary(Operation::Rem, x, HALF_TURN)
                    },
                    Function::Cot => {
                        self.phase = Phase::Remainder { angle: x, inverse: true };
                        Request::Binary(Operation::Rem, x, HALF_TURN)
                    },
                }
            },
        }
    }
}

} // verus!
