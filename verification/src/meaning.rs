//! What a run computes, said in one piece.
//!
//! The machine of `eval` works request by request. Here the same run is a
//! fold over the postfix sequence, for an arithmetic given as three
//! functions. The two agree: a machine whose requests are answered by an
//! arithmetic ends with what the fold gives.

use vstd::prelude::*;
use crate::eval::{
    entry_of, resume_makes_progress, symbol_is_entry, Entry, Function, Machine, Notice,
    Operation, Phase, RequestView, Trig,
};
use crate::number::{is_zero, HALF_TURN, MINUS_ONE, NINETY, ZERO};
use crate::token::TokenKind;

verus! {

/// How requests are answered: how a numeral is read, and what the operations
/// and the functions of an angle give.
pub struct Arithmetic {
    pub read: spec_fn(Seq<char>) -> Option<u64>,
    pub binary: spec_fn(Operation, u64, u64) -> u64,
    pub angle: spec_fn(Trig, u64) -> u64,
}

/// A run between two entries: the stack, what the user is to be told, and
/// whether the run has failed. A failed run stays as it is.
pub struct Progress {
    pub stack: Seq<u64>,
    pub notices: Seq<Notice>,
    pub failed: bool,
}

/// How a run ends: with a value or without one, and with what the user is to
/// be told.
pub struct Outcome {
    pub value: Option<u64>,
    pub notices: Seq<Notice>,
}

impl Progress {
    /// A run before its first entry.
    pub open spec fn start() -> Progress {
        Progress { stack: seq![], notices: seq![], failed: false }
    }

    /// The run fails here.
    pub open spec fn fail(self) -> Progress {
        Progress { failed: true, ..self }
    }

    /// A number goes on the stack.
    pub open spec fn push(self, value: u64) -> Progress {
        Progress { stack: self.stack.push(value), ..self }
    }

    /// The user is to be told something.
    pub open spec fn note(self, notice: Notice) -> Progress {
        Progress { notices: self.notices.push(notice), ..self }
    }

    /// A run has a value when it has not failed and one number is left.
    pub open spec fn outcome(self) -> Outcome {
        Outcome {
            value: if !self.failed && self.stack.len() == 1 {
                Some(self.stack[0])
            } else {
                None
            },
            notices: self.notices,
        }
    }
}

impl Arithmetic {
    /// The answer to a request.
    pub open spec fn answer(self, request: RequestView) -> Option<u64> {
        match request {
            RequestView::Read(text) => (self.read)(text),
            RequestView::Binary(op, x, y) => Some((self.binary)(op, x, y)),
            RequestView::Angle(f, x) => Some((self.angle)(f, x)),
            RequestView::Finished(_) => None,
        }
    }

    /// The tangent is undefined at an angle that leaves `90.0` on division by
    /// `180.0`.
    pub open spec fn tangent_defined(self, angle: u64) -> bool {
        (self.binary)(Operation::Rem, angle, HALF_TURN) != NINETY
    }

    /// The tangent, with `0.0` in its place where it is undefined.
    pub open spec fn tangent(self, angle: u64) -> u64 {
        if self.tangent_defined(angle) {
            (self.angle)(Trig::Tan, angle)
        } else {
            ZERO
        }
    }

    /// The cotangent: the tangent raised to `-1.0`, or `0.0` where the
    /// tangent is zero.
    pub open spec fn cotangent(self, angle: u64) -> u64 {
        if is_zero(self.tangent(angle)) {
            ZERO
        } else {
            (self.binary)(Operation::Pow, self.tangent(angle), MINUS_ONE)
        }
    }

    /// A function of an angle in degrees, as a run takes it.
    pub open spec fn function(self, f: Function, angle: u64) -> u64 {
        match f {
            Function::Sin => (self.angle)(Trig::Sin, angle),
            Function::Cos => (self.angle)(Trig::Cos, angle),
            Function::Tan => self.tangent(angle),
            Function::Cot => self.cotangent(angle),
        }
    }

    /// Whether the user is told that a tangent is undefined: when a tangent
    /// or a cotangent is taken where the tangent is undefined.
    pub open spec fn undefined(self, f: Function, angle: u64) -> bool {
        (f is Tan || f is Cot) && !self.tangent_defined(angle)
    }

    /// One entry. A numeral is read and pushed. An operator takes the two
    /// numbers on top, the upper one as its second operand; a function takes
    /// the one on top. A stack that is too short, a numeral that is none and
    /// a division by zero fail the run.
    pub open spec fn apply(self, before: Progress, entry: Seq<char>) -> Progress {
        if before.failed {
            before
        } else {
            match entry_of(entry) {
                Entry::Numeral => match (self.read)(entry) {
                    Some(value) => before.push(value),
                    None => before.fail(),
                },
                Entry::Operator(op) => {
                    if before.stack.len() < 2 {
                        before.fail()
                    } else {
                        let y = before.stack[before.stack.len() - 1];
                        let x = before.stack[before.stack.len() - 2];
                        if op is Div && is_zero(y) {
                            before.note(Notice::DivisionByZero).fail()
                        } else {
                            Progress {
                                stack: before.stack.take(before.stack.len() - 2).push(
                                    (self.binary)(op, x, y),
                                ),
                                ..before
                            }
                        }
                    }
                },
                Entry::Function(f) => {
                    if before.stack.len() < 1 {
                        before.fail()
                    } else {
                        let x = before.stack.last();
                        let popped = Progress { stack: before.stack.drop_last(), ..before };
                        if self.undefined(f, x) {
                            popped.note(Notice::UndefinedTangent).push(self.function(f, x))
                        } else {
                            popped.push(self.function(f, x))
                        }
                    }
                },
            }
        }
    }

    /// The entries one after the other.
    pub open spec fn run(self, before: Progress, entries: Seq<Seq<char>>) -> Progress
        decreases entries.len(),
    {
        if entries.len() == 0 {
            before
        } else {
            self.apply(self.run(before, entries.drop_last()), entries.last())
        }
    }

    /// What a postfix sequence comes to.
    pub open spec fn evaluate(self, postfix: Seq<Seq<char>>) -> Outcome {
        self.run(Progress::start(), postfix).outcome()
    }

    /// The machine at its end, when every request is answered by this
    /// arithmetic.
    pub open spec fn drive(self, machine: Machine, request: RequestView) -> Machine
        decreases machine.steps_left(),
    {
        if machine.phase is Done || !(0 <= machine.next <= machine.postfix.len()) {
            machine
        } else {
            proof {
                resume_makes_progress(machine, self.answer(request));
            }
            let (next, asked) = machine.resume(self.answer(request));
            self.drive(next, asked)
        }
    }
}

/// How a machine has ended.
pub open spec fn ending(machine: Machine) -> Outcome {
    Outcome {
        value: match machine.phase {
            Phase::Done { value } => value,
            _ => None,
        },
        notices: machine.notices,
    }
}

/// A failed run is not changed by further entries.
pub proof fn failure_is_final(a: Arithmetic, before: Progress, entries: Seq<Seq<char>>)
    requires
        before.failed,
    ensures
        a.run(before, entries) == before,
    decreases entries.len(),
{
    if entries.len() > 0 {
        failure_is_final(a, before, entries.drop_last());
    }
}

/// Running two sequences one after the other is running their concatenation.
pub proof fn run_in_parts(
    a: Arithmetic,
    before: Progress,
    first: Seq<Seq<char>>,
    second: Seq<Seq<char>>,
)
    ensures
        a.run(before, first + second) == a.run(a.run(before, first), second),
    decreases second.len(),
{
    if second.len() == 0 {
        assert(first + second =~= first);
    } else {
        assert((first + second).drop_last() =~= first + second.drop_last());
        assert((first + second).last() == second.last());
        run_in_parts(a, before, first, second.drop_last());
    }
}

/// Running a sequence is applying its first entry and running the rest.
pub proof fn run_from_the_left(a: Arithmetic, before: Progress, entries: Seq<Seq<char>>)
    requires
        entries.len() > 0,
    ensures
        a.run(before, entries) == a.run(a.apply(before, entries[0]), entries.drop_first()),
{
    let head = seq![entries[0]];
    assert(head + entries.drop_first() =~= entries);
    run_in_parts(a, before, head, entries.drop_first());
    assert(head.drop_last() =~= Seq::<Seq<char>>::empty());
    assert(a.run(before, head) == a.apply(a.run(before, head.drop_last()), head.last()));
}

/// The run that a machine is in, between two entries.
spec fn progress_of(machine: Machine) -> Progress {
    Progress { stack: machine.stack, notices: machine.notices, failed: false }
}

/// A machine that has taken an answer and goes on to its next entry ends as
/// the fold over the entries that are left.
proof fn fetch_agrees(a: Arithmetic, machine: Machine)
    requires
        0 <= machine.next <= machine.postfix.len(),
    ensures
        ending(a.drive(machine.fetch().0, machine.fetch().1)) == a.run(
            progress_of(machine),
            machine.postfix.skip(machine.next),
        ).outcome(),
    decreases machine.postfix.len() - machine.next,
{
    let before = progress_of(machine);
    let entries = machine.postfix.skip(machine.next);
    let (first, request) = machine.fetch();
    if machine.next >= machine.postfix.len() {
        assert(entries =~= Seq::<Seq<char>>::empty());
    } else {
        let text = machine.postfix[machine.next];
        let taken = Machine { next: machine.next + 1, ..machine };
        let rest = machine.postfix.skip(machine.next + 1);
        assert(entries[0] == text);
        assert(entries.drop_first() =~= rest);
        run_from_the_left(a, before, entries);
        let applied = a.apply(before, text);
        if applied.failed {
            failure_is_final(a, applied, rest);
        }
        let reply = a.answer(request);
        match entry_of(text) {
            Entry::Numeral => {
                match reply {
                    Some(value) => {
                        fetch_agrees(a, first.push(value));
                    },
                    None => {
                        let (stopped, last) = first.resume(reply);
                        assert(a.drive(first, request) == a.drive(stopped, last));
                    },
                }
            },
            Entry::Operator(op) => {
                if !(first.phase is Done) {
                    fetch_agrees(a, first.push(reply->0));
                }
            },
            Entry::Function(f) => {
                if !(first.phase is Done) {
                    match f {
                        Function::Sin | Function::Cos => {
                            fetch_agrees(a, first.push(reply->0));
                        },
                        Function::Tan | Function::Cot => {
                            let angle = taken.stack.last();
                            if reply->0 == NINETY {
                                fetch_agrees(a, first.note(Notice::UndefinedTangent).push(ZERO));
                            } else {
                                let (second, asked) = first.resume(reply);
                                assert(a.drive(first, request) == a.drive(second, asked));
                                let tangent = (a.angle)(Trig::Tan, angle);
                                assert(a.answer(asked) == Some(tangent));
                                if f is Tan {
                                    fetch_agrees(a, second.push(tangent));
                                } else if is_zero(tangent) {
                                    fetch_agrees(a, second.push(ZERO));
                                } else {
                                    let (third, wanted) = second.resume(Some(tangent));
                                    assert(a.drive(second, asked) == a.drive(third, wanted));
                                    fetch_agrees(a, third.push(a.answer(wanted)->0));
                                }
                            }
                        },
                    }
                }
            },
        }
    }
}

/// A machine whose requests are answered by an arithmetic ends with the value
/// and the notices that the fold over its sequence gives for that arithmetic.
pub proof fn machine_computes_evaluation(a: Arithmetic, postfix: Seq<Seq<char>>)
    ensures
        ending(a.drive(Machine::start(postfix).0, Machine::start(postfix).1)) == a.evaluate(
            postfix,
        ),
{
    let fresh = Machine::fresh(postfix);
    fetch_agrees(a, fresh);
    assert(postfix.skip(0) =~= postfix);
    assert(progress_of(fresh) == Progress::start());
}

/// The run as it stands before the entry at `index`.
pub open spec fn reached(a: Arithmetic, postfix: Seq<Seq<char>>, index: int) -> Progress {
    a.run(Progress::start(), postfix.take(index))
}

/// A run that fails at some entry has no value, and nothing is told after the
/// failure.
pub proof fn failure_has_no_value(a: Arithmetic, postfix: Seq<Seq<char>>, index: int)
    requires
        0 <= index < postfix.len(),
        a.apply(reached(a, postfix, index), postfix[index]).failed,
    ensures
        a.evaluate(postfix).value is None,
        a.evaluate(postfix).notices == a.apply(reached(a, postfix, index), postfix[index]).notices,
{
    let rest = postfix.skip(index);
    assert(postfix.take(index) + rest =~= postfix);
    run_in_parts(a, Progress::start(), postfix.take(index), rest);
    run_from_the_left(a, reached(a, postfix, index), rest);
    failure_is_final(a, a.apply(reached(a, postfix, index), postfix[index]), rest.drop_first());
}

/// Division by zero: a run that comes to a `/` with a zero on top of its
/// stack has no value, whatever else the sequence holds.
pub proof fn division_by_zero_has_no_value(a: Arithmetic, postfix: Seq<Seq<char>>, index: int)
    requires
        0 <= index < postfix.len(),
        postfix[index] == TokenKind::Div.symbol(),
        reached(a, postfix, index).stack.len() > 0,
        is_zero(reached(a, postfix, index).stack.last()),
    ensures
        a.evaluate(postfix).value is None,
{
    symbol_is_entry(TokenKind::Div);
    failure_has_no_value(a, postfix, index);
}

/// Stack underflow: a run that comes to an operator with fewer than two
/// numbers on its stack, or to a function with none, has no value.
pub proof fn short_stack_has_no_value(a: Arithmetic, postfix: Seq<Seq<char>>, index: int)
    requires
        0 <= index < postfix.len(),
        match entry_of(postfix[index]) {
            Entry::Operator(_) => reached(a, postfix, index).stack.len() < 2,
            Entry::Function(_) => reached(a, postfix, index).stack.len() < 1,
            Entry::Numeral => false,
        },
    ensures
        a.evaluate(postfix).value is None,
{
    failure_has_no_value(a, postfix, index);
}

/// A sequence evaluates to a number only if it holds a numeral: the empty
/// sequence has no value.
pub proof fn empty_sequence_has_no_value(a: Arithmetic)
    ensures
        a.evaluate(Seq::<Seq<char>>::empty()).value is None,
{
}

} // verus!
