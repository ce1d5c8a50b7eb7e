//! The state of an evaluation: the operand stack and what was printed.

use crate::failure::{operands_needed, Failure};
use crate::operators::{apply, compute, Effect};
use crate::semantics::{stack_text, Machine};
use crate::value::{data, Datum, Value};
use vstd::prelude::*;

verus! {

/// The number of evaluations that may nest inside one another in a state
/// made by [`State::new`].
pub const DEFAULT_DEPTH_LIMIT: usize = 256;

/// What each string of `printed` holds.
pub open spec fn lines(printed: Seq<String>) -> Seq<Seq<char>> {
    Seq::new(printed.len(), |i: int| printed[i]@)
}

/// The failure that a result carries, if it carries one.
pub open spec fn failure_of(result: Result<(), Failure>) -> Option<Failure> {
    match result {
        Ok(_) => None,
        Err(failure) => Some(failure),
    }
}

/// The state that evaluations share: the operand stack, the lines that `Z`
/// printed, and the limit on how deep evaluations may nest.
///
/// The view is the stack and the printed lines.
#[derive(Debug)]
pub struct State {
    stack: Vec<Value>,
    printed: Vec<String>,
    depth_limit: usize,
}

impl View for State {
    type V = Machine;

    closed spec fn view(&self) -> Machine {
        Machine { stack: data(self.stack@), printed: lines(self.printed@) }
    }
}

impl State {
    /// The number of evaluations that may nest inside one another.
    pub closed spec fn limit(&self) -> nat {
        self.depth_limit as nat
    }

    /// A state with an empty stack, nothing printed, and the default limit
    /// on nesting.
    pub fn new() -> (state: State)
        ensures
            state@.stack == Seq::<Datum>::empty(),
            state@.printed == Seq::<Seq<char>>::empty(),
            state.limit() == DEFAULT_DEPTH_LIMIT,
    {
        State::with_depth_limit(DEFAULT_DEPTH_LIMIT)
    }

    /// A state with an empty stack and nothing printed, in which `limit`
    /// evaluations may nest inside one another. Each evaluation that nests
    /// takes room on the call stack of the machine, so a limit has to stay
    /// within what that stack holds.
    pub fn with_depth_limit(limit: usize) -> (state: State)
        ensures
            state@.stack == Seq::<Datum>::empty(),
            state@.printed == Seq::<Seq<char>>::empty(),
            state.limit() == limit,
    {
        let state = State { stack: Vec::new(), printed: Vec::new(), depth_limit: limit };
        state
    }

    /// The number of evaluations that may nest inside one another.
    pub fn depth_limit(&self) -> (limit: usize)
        ensures
            limit == self.limit(),
    {
        self.depth_limit
    }

    /// The stack, bottom first.
    pub fn stack(&self) -> (stack: &Vec<Value>)
        ensures
            data(stack@) == self@.stack,
    {
        &self.stack
    }

    /// The lines printed so far, oldest first.
    pub fn printed(&self) -> (printed: &Vec<String>)
        ensures
            lines(printed@) == self@.printed,
    {
        &self.printed
    }

    /// The number of values on the stack.
    pub fn len(&self) -> (len: usize)
        ensures
            len == self@.stack.len(),
    {
        self.stack.len()
    }

    /// Pushes `value` on the stack.
    pub fn push(&mut self, value: Value)
        ensures
            final(self)@ == old(self)@.push(value@),
            final(self).limit() == old(self).limit(),
    {
        self.stack.push(value);
        assert(self@.stack =~= old(self)@.stack.push(value@));
    }

    /// Takes the top value off the stack, if there is one.
    pub fn pop(&mut self) -> (value: Option<Value>)
        ensures
            final(self).limit() == old(self).limit(),
            old(self)@.stack.len() == 0 ==> value is None && final(self)@ == old(self)@,
            old(self)@.stack.len() > 0 ==> value is Some && value->0@ == old(self)@.stack.last()
                && final(self)@ == old(self)@.without_top(1),
    {
        let value = self.stack.pop();
        assert(old(self)@.stack.len() > 0 ==> self@.stack =~= old(self)@.without_top(1).stack);
        value
    }

    /// The canonical text of the stack.
    pub fn render(&self) -> (text: String)
        ensures
            text@ == stack_text(self@.stack),
    {
        let mut text = "stack:".to_owned();
        proof {
            reveal_strlit("stack:");
        }
        let mut at: usize = 0;
        while at < self.stack.len()
            invariant
                at <= self.stack@.len(),
                text@ == stack_text(data(self.stack@).take(at as int)),
            decreases self.stack.len() - at,
        {
            let item = self.stack[at].render();
            text.push(' ');
            text.append(item.as_str());
            at += 1;
            proof {
                let shown = data(self.stack@).take(at as int);
                assert(shown.drop_last() =~= data(self.stack@).take(at - 1));
            }
        }
        assert(data(self.stack@).take(at as int) =~= data(self.stack@));
        text
    }

    /// Prints the stack: adds its canonical text to the printed lines, and
    /// leaves the stack as it is.
    pub fn print(&mut self)
        ensures
            final(self)@ == (Machine {
                stack: old(self)@.stack,
                printed: old(self)@.printed.push(stack_text(old(self)@.stack)),
            }),
            final(self).limit() == old(self).limit(),
    {
        let line = self.render();
        self.printed.push(line);
        assert(self@.printed =~= old(self)@.printed.push(stack_text(old(self)@.stack)));
    }

    /// Applies an operator that acts on the stack alone.
    pub(crate) fn apply(&mut self, operator: char) -> (result: Result<(), Failure>)
        ensures
            final(self)@.printed == old(self)@.printed,
            final(self).limit() == old(self).limit(),
            (Effect { stack: final(self)@.stack, failure: failure_of(result) }) == apply(
                operator,
                old(self)@.stack,
            ),
    {
        let needed = operands_needed(operator);
        if self.stack.len() < needed {
            return Err(Failure::MissingOperands(operator));
        }
        let ghost before = data(self.stack@);
        let operands = self.stack.split_off(self.stack.len() - needed);
        proof {
            assert(data(self.stack@) =~= before.take(before.len() - needed));
        }
        match compute(operator, operands) {
            Ok(values) => {
                let ghost kept = data(self.stack@);
                let mut values = values;
                let ghost added = data(values@);
                self.stack.append(&mut values);
                assert(data(self.stack@) =~= kept + added);
                Ok(())
            },
            Err(failure) => Err(failure),
        }
    }
}

} // verus!
