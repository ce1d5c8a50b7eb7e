//! What program text means: the machine that it runs on, and what each token
//! and each text makes of that machine.

use crate::failure::{arity, Failure};
use crate::lexer::{after_token, first_token, lemma_after_token_shorter, Lexeme};
use crate::operators::apply;
use crate::value::{canonical_text, Datum};
use vstd::prelude::*;

verus! {

/// What an evaluation works on: the operand stack, bottom first, and the
/// lines printed so far.
pub struct Machine {
    pub stack: Seq<Datum>,
    pub printed: Seq<Seq<char>>,
}

/// How an evaluation ended: the machine as it was left, and the failure that
/// stopped it, if one did.
pub struct Outcome {
    pub machine: Machine,
    pub failure: Option<Failure>,
}

/// The canonical text of a stack: `stack:`, then each entry from the bottom
/// up, a space before each.
pub open spec fn stack_text(stack: Seq<Datum>) -> Seq<char>
    decreases stack.len(),
{
    if stack.len() == 0 {
        seq!['s', 't', 'a', 'c', 'k', ':']
    } else {
        stack_text(stack.drop_last()) + seq![' '] + canonical_text(stack.last())
    }
}

impl Machine {
    /// The machine with `stack` for its stack.
    pub open spec fn with_stack(self, stack: Seq<Datum>) -> Machine {
        Machine { stack, printed: self.printed }
    }

    /// The machine with `datum` pushed.
    pub open spec fn push(self, datum: Datum) -> Machine {
        self.with_stack(self.stack.push(datum))
    }

    /// The machine without the `count` topmost values.
    pub open spec fn without_top(self, count: nat) -> Machine {
        self.with_stack(self.stack.take(self.stack.len() - count))
    }

    /// The value that lies `below` values under the top.
    pub open spec fn from_top(self, below: nat) -> Datum {
        self.stack[self.stack.len() - 1 - below]
    }
}

/// The evaluation that ended well on `machine`.
pub open spec fn done(machine: Machine) -> Outcome {
    Outcome { machine, failure: None }
}

/// The evaluation that `failure` stopped on `machine`.
pub open spec fn failed(machine: Machine, failure: Failure) -> Outcome {
    Outcome { machine, failure: Some(failure) }
}

/// What evaluating the text `code`, taken from the stack, makes of the
/// machine, where `depth` further evaluations may nest: with none left it
/// fails, else it is what the text makes of the machine, one evaluation
/// fewer being left inside it.
pub open spec fn nested(code: Seq<char>, machine: Machine, depth: nat) -> Outcome
    decreases depth, 0nat, 0nat,
{
    if depth == 0 {
        failed(machine, Failure::DepthExceeded)
    } else {
        run(code, machine, (depth - 1) as nat)
    }
}

/// What the loop `#` makes of the machine for the counts from `from` up to,
/// not including, `to`: for each in turn it pushes the count and evaluates
/// `code`, and the first failure ends it.
pub open spec fn repeated(code: Seq<char>, machine: Machine, from: int, to: int, depth: nat)
    -> Outcome
    decreases depth, 1nat, to - from,
{
    if from >= to {
        done(machine)
    } else {
        let outcome = nested(code, machine.push(Datum::Number(from)), depth);
        if outcome.failure is Some {
            outcome
        } else {
            repeated(code, outcome.machine, from + 1, to, depth)
        }
    }
}

/// What one token makes of the machine, where `depth` further evaluations
/// may nest.
///
/// A literal pushes its value. `Z` prints the stack. `!` evaluates the text
/// on top; `?` evaluates the first of two texts where the number on top of
/// them is not 0, else the second; `#` evaluates the text under the number on
/// top once for each count below that number. Each of these takes its
/// operands off first; without enough of them it fails and leaves the stack
/// as it was, and on operands of the wrong kinds it fails with them gone.
/// Every other operator acts on the stack alone.
pub open spec fn execute(token: Lexeme, machine: Machine, depth: nat) -> Outcome
    decreases depth, 2nat, 0nat,
{
    match token {
        Lexeme::Literal(datum) => done(machine.push(datum)),
        Lexeme::Operator(operator) => {
            if operator == 'Z' {
                done(
                    Machine {
                        stack: machine.stack,
                        printed: machine.printed.push(stack_text(machine.stack)),
                    },
                )
            } else if operator == '!' || operator == '#' || operator == '?' {
                if machine.stack.len() < arity(operator) {
                    failed(machine, Failure::MissingOperands(operator))
                } else {
                    let rest = machine.without_top(arity(operator));
                    if operator == '!' {
                        match machine.from_top(0) {
                            Datum::Text(code) => nested(code, rest, depth),
                            _ => failed(rest, Failure::WrongOperands(operator)),
                        }
                    } else if operator == '#' {
                        match (machine.from_top(1), machine.from_top(0)) {
                            (Datum::Text(code), Datum::Number(count)) => repeated(
                                code,
                                rest,
                                0,
                                count,
                                depth,
                            ),
                            _ => failed(rest, Failure::WrongOperands(operator)),
                        }
                    } else {
                        match (machine.from_top(2), machine.from_top(1), machine.from_top(0)) {
                            (
                                Datum::Text(then),
                                Datum::Text(otherwise),
                                Datum::Number(condition),
                            ) => nested(
                                if condition != 0 {
                                    then
                                } else {
                                    otherwise
                                },
                                rest,
                                depth,
                            ),
                            _ => failed(rest, Failure::WrongOperands(operator)),
                        }
                    }
                }
            } else {
                let effect = apply(operator, machine.stack);
                Outcome { machine: machine.with_stack(effect.stack), failure: effect.failure }
            }
        },
    }
}

/// What the program text `input` makes of the machine, where `depth` further
/// evaluations may nest: its tokens are executed in turn, to the end of the
/// text or to the first failure.
pub open spec fn run(input: Seq<char>, machine: Machine, depth: nat) -> Outcome
    decreases depth, 3nat, input.len(),
{
    if input.len() == 0 {
        done(machine)
    } else {
        let outcome = execute(first_token(input), machine, depth);
        if outcome.failure is Some {
            outcome
        } else {
            proof {
                lemma_after_token_shorter(input);
            }
            run(after_token(input), outcome.machine, depth)
        }
    }
}

/// The part of the program text `input` that is left unread when its
/// evaluation ends: nothing where it ends well, else what follows the token
/// that failed.
pub open spec fn unread(input: Seq<char>, machine: Machine, depth: nat) -> Seq<char>
    decreases input.len(),
{
    if input.len() == 0 {
        input
    } else {
        let outcome = execute(first_token(input), machine, depth);
        if outcome.failure is Some {
            after_token(input)
        } else {
            proof {
                lemma_after_token_shorter(input);
            }
            unread(after_token(input), outcome.machine, depth)
        }
    }
}

} // verus!
