//! The evaluator: program text, read off a buffer, run against a state.

use crate::buffer::Buffer;
use crate::failure::{operands_needed, Failure};
use crate::integer::Integer;
use crate::lexer::{lemma_after_token_shorter, next_token, Token};
use crate::semantics::{execute, nested, repeated, run, unread, Outcome};
use crate::state::{failure_of, State};
use crate::text::characters;
use crate::value::Value;
use vstd::prelude::*;

verus! {

/// Evaluates the text `code`, taken from the stack, where `depth` further
/// evaluations may nest.
fn evaluate_nested(code: &String, state: &mut State, depth: usize) -> (result: Result<
    (),
    Failure,
>)
    ensures
        (Outcome { machine: final(state)@, failure: failure_of(result) }) == nested(
            code@,
            old(state)@,
            depth as nat,
        ),
        final(state).limit() == old(state).limit(),
    decreases depth, 0nat, 0nat,
{
    if depth == 0 {
        return Err(Failure::DepthExceeded);
    }
    let mut buffer = Buffer::new(characters(code.as_str()));
    evaluate(&mut buffer, state, depth - 1)
}

/// Runs the loop `#`: for each count from 0 up to, not including, `count`, in
/// turn, pushes the count and evaluates `code`; the first failure ends it.
fn repeat(code: &String, count: &Integer, state: &mut State, depth: usize) -> (result: Result<
    (),
    Failure,
>)
    ensures
        (Outcome { machine: final(state)@, failure: failure_of(result) }) == repeated(
            code@,
            old(state)@,
            0,
            count@,
            depth as nat,
        ),
        final(state).limit() == old(state).limit(),
    decreases depth, 1nat, 0nat,
{
    let one = Integer::small(1);
    let mut at = Integer::zero();
    while at.less_than(count)
        invariant
            one@ == 1,
            0 <= at@,
            state.limit() == old(state).limit(),
            repeated(code@, state@, at@, count@, depth as nat) == repeated(
                code@,
                old(state)@,
                0,
                count@,
                depth as nat,
            ),
        decreases count@ - at@,
    {
        state.push(Value::Integer(at.clone()));
        match evaluate_nested(code, state, depth) {
            Err(failure) => {
                return Err(failure);
            },
            Ok(_) => {},
        }
        at = at.sum(&one);
    }
    Ok(())
}

/// Executes one token against the state, where `depth` further evaluations
/// may nest.
pub fn execute_token(token: Token, state: &mut State, depth: usize) -> (result: Result<
    (),
    Failure,
>)
    ensures
        (Outcome { machine: final(state)@, failure: failure_of(result) }) == execute(
            token@,
            old(state)@,
            depth as nat,
        ),
        final(state).limit() == old(state).limit(),
    decreases depth, 2nat, 0nat,
{
    match token {
        Token::Literal(value) => {
            state.push(value);
            Ok(())
        },
        Token::Operator(operator) => {
            if operator == 'Z' {
                state.print();
                Ok(())
            } else if operator == '!' || operator == '#' || operator == '?' {
                if state.len() < operands_needed(operator) {
                    return Err(Failure::MissingOperands(operator));
                }
                let ghost machine = state@;
                if operator == '!' {
                    let code = state.pop().unwrap();
                    match code {
                        Value::String(code) => evaluate_nested(&code, state, depth),
                        _ => Err(Failure::WrongOperands(operator)),
                    }
                } else if operator == '#' {
                    let count = state.pop().unwrap();
                    let code = state.pop().unwrap();
                    assert(state@.stack =~= machine.without_top(2).stack);
                    match (code, count) {
                        (Value::String(code), Value::Integer(count)) => repeat(
                            &code,
                            &count,
                            state,
                            depth,
                        ),
                        _ => Err(Failure::WrongOperands(operator)),
                    }
                } else {
                    let condition = state.pop().unwrap();
                    let otherwise = state.pop().unwrap();
                    let then = state.pop().unwrap();
                    assert(state@.stack =~= machine.without_top(3).stack);
                    match (then, otherwise, condition) {
                        (
                            Value::String(then),
                            Value::String(otherwise),
                            Value::Integer(condition),
                        ) => {
                            if condition.same_value(&Integer::zero()) {
                                evaluate_nested(&otherwise, state, depth)
                            } else {
                                evaluate_nested(&then, state, depth)
                            }
                        },
                        _ => Err(Failure::WrongOperands(operator)),
                    }
                }
            } else {
                state.apply(operator)
            }
        },
    }
}

/// Evaluates the program text that the buffer holds against the state, where
/// `depth` further evaluations may nest: reads and executes token after
/// token, to the end of the text or to the first failure.
pub fn evaluate(buffer: &mut Buffer, state: &mut State, depth: usize) -> (result: Result<
    (),
    Failure,
>)
    ensures
        (Outcome { machine: final(state)@, failure: failure_of(result) }) == run(
            old(buffer)@,
            old(state)@,
            depth as nat,
        ),
        final(buffer)@ == unread(old(buffer)@, old(state)@, depth as nat),
        result is Ok ==> final(buffer)@.len() == 0,
        final(state).limit() == old(state).limit(),
    decreases depth, 3nat, 0nat,
{
    loop
        invariant
            state.limit() == old(state).limit(),
            run(buffer@, state@, depth as nat) == run(old(buffer)@, old(state)@, depth as nat),
            unread(buffer@, state@, depth as nat) == unread(
                old(buffer)@,
                old(state)@,
                depth as nat,
            ),
        decreases buffer@.len(),
    {
        let ghost input = buffer@;
        match next_token(buffer) {
            None => {
                return Ok(());
            },
            Some(token) => {
                proof {
                    lemma_after_token_shorter(input);
                }
                match execute_token(token, state, depth) {
                    Err(failure) => {
                        return Err(failure);
                    },
                    Ok(_) => {},
                }
            },
        }
    }
}

/// Evaluates the program text that the buffer holds against the state, with
/// the state's limit on nesting. A failure is returned as its message.
pub fn eval(buffer: &mut Buffer, state: &mut State) -> (result: Result<(), String>)
    ensures
        final(state)@ == run(old(buffer)@, old(state)@, old(state).limit()).machine,
        final(buffer)@ == unread(old(buffer)@, old(state)@, old(state).limit()),
        result is Ok ==> final(buffer)@.len() == 0,
        final(state).limit() == old(state).limit(),
        match result {
            Ok(_) => run(old(buffer)@, old(state)@, old(state).limit()).failure is None,
            Err(message) => run(old(buffer)@, old(state)@, old(state).limit()).failure
                matches Some(failure) && message@ == failure.text(),
        },
{
    let depth = state.depth_limit();
    match evaluate(buffer, state, depth) {
        Ok(_) => Ok(()),
        Err(failure) => Err(failure.message()),
    }
}

} // verus!
