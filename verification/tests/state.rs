use wln::failure::operands_needed;
use wln::lexer::Token;
use wln::{eval::execute_token, Failure, Integer, State, Value};

fn number(n: usize) -> Value {
    Value::Integer(Integer::from_usize(n))
}

fn apply(state: &mut State, operator: char) -> Result<(), Failure> {
    execute_token(Token::Operator(operator), state, 0)
}

fn state_of(values: Vec<Value>) -> State {
    let mut state = State::new();
    for value in values {
        state.push(value);
    }
    state
}

#[test]
fn new_state_is_empty() {
    let state = State::new();
    assert_eq!(state.len(), 0);
    assert!(state.stack().is_empty());
    assert!(state.printed().is_empty());
    assert_eq!(state.render(), "stack:");
}

#[test]
fn push_and_pop_work_at_the_top() {
    let mut state = State::new();
    assert!(state.pop().is_none());
    state.push(number(1));
    state.push(Value::String("a".to_string()));
    assert_eq!(state.len(), 2);
    assert_eq!(state.stack()[0].render(), "1");
    assert_eq!(state.stack()[1].render(), "\"a\"");
    assert_eq!(state.pop().unwrap().render(), "\"a\"");
    assert_eq!(state.render(), "stack: 1");
    assert_eq!(state.pop().unwrap().render(), "1");
    assert!(state.pop().is_none());
}

#[test]
fn print_records_the_stack_text() {
    let mut state = state_of(vec![number(1), Value::Array(vec![number(2), number(3)])]);
    state.print();
    state.push(Value::String("x".to_string()));
    state.print();
    assert_eq!(state.printed(), &vec!["stack: 1 [2 3]".to_string(), "stack: 1 [2 3] \"x\"".to_string()]);
    assert_eq!(state.len(), 3);
}

#[test]
fn operators_take_operands_from_the_top() {
    let mut state = state_of(vec![number(9), number(8), number(2)]);
    assert_eq!(apply(&mut state, '-'), Ok(()));
    assert_eq!(state.render(), "stack: 9 6");
    assert_eq!(apply(&mut state, '*'), Ok(()));
    assert_eq!(state.render(), "stack: 54");
    assert_eq!(apply(&mut state, '%'), Ok(()));
    assert_eq!(apply(&mut state, '/'), Ok(()));
    assert_eq!(state.render(), "stack: 1");
    assert_eq!(apply(&mut state, '['), Ok(()));
    assert_eq!(apply(&mut state, '$'), Ok(()));
    assert_eq!(apply(&mut state, '+'), Ok(()));
    assert_eq!(state.render(), "stack: [1]");
    assert_eq!(apply(&mut state, ':'), Ok(()));
    assert_eq!(apply(&mut state, '='), Ok(()));
    assert_eq!(state.render(), "stack: 0");
    assert_eq!(apply(&mut state, ' '), Ok(()));
    assert_eq!(apply(&mut state, ';'), Ok(()));
    assert_eq!(state.render(), "stack:");
}

#[test]
fn operators_report_each_failure() {
    let mut state = state_of(vec![number(1)]);
    assert_eq!(apply(&mut state, '+'), Err(Failure::MissingOperands('+')));
    assert_eq!(state.render(), "stack: 1");
    state.push(Value::String("a".to_string()));
    assert_eq!(apply(&mut state, '-'), Err(Failure::WrongOperands('-')));
    assert_eq!(state.render(), "stack:");
    state.push(number(7));
    state.push(number(0));
    assert_eq!(apply(&mut state, '/'), Err(Failure::DivisionByZero));
    assert_eq!(state.render(), "stack:");
    state.push(Value::Array(vec![]));
    state.push(number(0));
    assert_eq!(apply(&mut state, '@'), Err(Failure::IndexOutOfBounds));
    assert_eq!(state.render(), "stack:");
    state.push(number(7));
    assert_eq!(apply(&mut state, 'x'), Err(Failure::UnexpectedCharacter('x')));
    assert_eq!(state.render(), "stack: 7");
}

#[test]
fn execute_token_runs_one_token() {
    let mut state = State::with_depth_limit(3);
    assert_eq!(execute_token(Token::Literal(number(2)), &mut state, 0), Ok(()));
    assert_eq!(execute_token(Token::Literal(Value::String("% *".to_string())), &mut state, 0), Ok(()));
    assert_eq!(execute_token(Token::Operator('%'), &mut state, 0), Ok(()));
    assert_eq!(state.render(), "stack: 2 \"% *\" \"% *\"");
    assert_eq!(execute_token(Token::Operator('!'), &mut state, 0), Err(Failure::DepthExceeded));
    assert_eq!(state.render(), "stack: 2 \"% *\"");
    assert_eq!(execute_token(Token::Operator('!'), &mut state, 1), Ok(()));
    assert_eq!(state.render(), "stack: 4");
    assert_eq!(execute_token(Token::Operator('Z'), &mut state, 0), Ok(()));
    assert_eq!(state.printed(), &vec!["stack: 4".to_string()]);
    assert_eq!(state.depth_limit(), 3);
}

#[test]
fn operators_take_their_number_of_operands() {
    for operator in ['+', '-', '*', '/', '@', '#', '$', '='] {
        assert_eq!(operands_needed(operator), 2);
    }
    for operator in ['!', '%', ';', ':'] {
        assert_eq!(operands_needed(operator), 1);
    }
    assert_eq!(operands_needed('?'), 3);
    for operator in ['[', 'Z', ' ', '\n', 'x', '"', '{', '7'] {
        assert_eq!(operands_needed(operator), 0);
    }
}

#[test]
fn each_failure_has_its_message() {
    for (failure, message) in [
        (Failure::MissingOperands('!'), "Operator '!' expected one value on the stack"),
        (Failure::MissingOperands('$'), "Operator '$' expected two values on the stack"),
        (Failure::MissingOperands('?'), "Operator '?' expected three values on the stack"),
        (Failure::WrongOperands('+'), "Addition error"),
        (Failure::WrongOperands('-'), "Subtraction error"),
        (Failure::WrongOperands('*'), "Multiplication error"),
        (Failure::WrongOperands('/'), "Division error"),
        (Failure::WrongOperands('!'), "Only strings can be evaluated"),
        (
            Failure::WrongOperands('@'),
            "Indexing can only be done with an array/string and an integer",
        ),
        (Failure::WrongOperands('#'), "Operator '#' expected a string and an integer"),
        (Failure::WrongOperands('?'), "Operator '?' expected two strings and an integer"),
        (Failure::WrongOperands(':'), "Operator ':' cannot be applied to integers"),
        (Failure::WrongOperands('$'), "Operator '$' cannot be applied to these values"),
        (Failure::DivisionByZero, "Division error"),
        (Failure::IndexOutOfBounds, "Index out of bounds"),
        (Failure::UnexpectedCharacter('&'), "Unexpected character &"),
        (Failure::DepthExceeded, "Recursion depth limit exceeded"),
    ] {
        assert_eq!(failure.message(), message);
    }
}
