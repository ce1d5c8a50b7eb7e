//! The ways an evaluation fails.

use vstd::prelude::*;

verus! {

/// Why an evaluation stopped. Every failure ends the evaluation in which it
/// arises and all those that called for it.
#[derive(Clone, Copy, Debug, PartialEq, Eq, Structural)]
pub enum Failure {
    /// The stack holds fewer values than the operator takes.
    MissingOperands(char),
    /// The operator is not defined on operands of these kinds.
    WrongOperands(char),
    /// A division by zero.
    DivisionByZero,
    /// An index that is not a position of the array or string.
    IndexOutOfBounds,
    /// A character that is neither an operator nor part of a literal.
    UnexpectedCharacter(char),
    /// More evaluations of strings inside one another than the limit allows.
    DepthExceeded,
}

/// The number of operands that the operator `operator` takes.
pub open spec fn arity(operator: char) -> nat {
    if operator == '?' {
        3
    } else if operator == '+' || operator == '-' || operator == '*' || operator == '/'
        || operator == '@' || operator == '#' || operator == '$' || operator == '=' {
        2
    } else if operator == '!' || operator == '%' || operator == ';' || operator == ':' {
        1
    } else {
        0
    }
}

/// The words for a number of operands in a message.
pub open spec fn count_words(count: nat) -> Seq<char> {
    if count == 1 {
        "one value"@
    } else if count == 2 {
        "two values"@
    } else {
        "three values"@
    }
}

/// The message for operands of the wrong kinds.
pub open spec fn wrong_operands_text(operator: char) -> Seq<char> {
    if operator == '+' {
        "Addition error"@
    } else if operator == '-' {
        "Subtraction error"@
    } else if operator == '*' {
        "Multiplication error"@
    } else if operator == '/' {
        "Division error"@
    } else if operator == '!' {
        "Only strings can be evaluated"@
    } else if operator == '@' {
        "Indexing can only be done with an array/string and an integer"@
    } else if operator == '#' {
        "Operator '#' expected a string and an integer"@
    } else if operator == '?' {
        "Operator '?' expected two strings and an integer"@
    } else if operator == ':' {
        "Operator ':' cannot be applied to integers"@
    } else {
        "Operator '"@.push(operator) + "' cannot be applied to these values"@
    }
}

impl Failure {
    /// The message of the failure.
    pub open spec fn text(self) -> Seq<char> {
        match self {
            Failure::MissingOperands(operator) => "Operator '"@.push(operator) + "' expected "@
                + count_words(arity(operator)) + " on the stack"@,
            Failure::WrongOperands(operator) => wrong_operands_text(operator),
            Failure::DivisionByZero => "Division error"@,
            Failure::IndexOutOfBounds => "Index out of bounds"@,
            Failure::UnexpectedCharacter(c) => "Unexpected character "@.push(c),
            Failure::DepthExceeded => "Recursion depth limit exceeded"@,
        }
    }

    /// The message of the failure.
    pub fn message(&self) -> (message: String)
        ensures
            message@ == self.text(),
    {
        match *self {
            Failure::MissingOperands(operator) => {
                let mut message = "Operator '".to_owned();
                message.push(operator);
                message.append("' expected ");
                let needed = operands_needed(operator);
                if needed == 1 {
                    message.append("one value");
                } else if needed == 2 {
                    message.append("two values");
                } else {
                    message.append("three values");
                }
                message.append(" on the stack");
                message
            },
            Failure::WrongOperands(operator) => {
                if operator == '+' {
                    "Addition error".to_owned()
                } else if operator == '-' {
                    "Subtraction error".to_owned()
                } else if operator == '*' {
                    "Multiplication error".to_owned()
                } else if operator == '/' {
                    "Division error".to_owned()
                } else if operator == '!' {
                    "Only strings can be evaluated".to_owned()
                } else if operator == '@' {
                    "Indexing can only be done with an array/string and an integer".to_owned()
                } else if operator == '#' {
                    "Operator '#' expected a string and an integer".to_owned()
                } else if operator == '?' {
                    "Operator '?' expected two strings and an integer".to_owned()
                } else if operator == ':' {
                    "Operator ':' cannot be applied to integers".to_owned()
                } else {
                    let mut message = "Operator '".to_owned();
                    message.push(operator);
                    message.append("' cannot be applied to these values");
                    message
                }
            },
            Failure::DivisionByZero => "Division error".to_owned(),
            Failure::IndexOutOfBounds => "Index out of bounds".to_owned(),
            Failure::UnexpectedCharacter(c) => {
                let mut message = "Unexpected character ".to_owned();
                message.push(c);
                message
            },
            Failure::DepthExceeded => "Recursion depth limit exceeded".to_owned(),
        }
    }
}

/// The number of operands that the operator takes.
pub fn operands_needed(operator: char) -> (needed: usize)
    ensures
        needed == arity(operator),
{
    if operator == '?' {
        3
    } else if operator == '+' || operator == '-' || operator == '*' || operator == '/'
        || operator == '@' || operator == '#' || operator == '$' || operator == '=' {
        2
    } else if operator == '!' || operator == '%' || operator == ';' || operator == ':' {
        1
    } else {
        0
    }
}

} // verus!
