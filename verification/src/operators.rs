//! The operators that act on the stack alone: what each makes of its
//! operands.

use crate::failure::{arity, Failure};
use crate::integer::{decimal_text, truncated_quotient, Integer};
use crate::text::{byte_count, byte_length, characters, without};
use crate::value::{data, Datum, Value};
use vstd::prelude::*;

verus! {

/// Whether `c` is one of the characters that program text may hold between
/// tokens.
pub open spec fn is_blank(c: char) -> bool {
    c == ' ' || c == '\n' || c == '\t' || c == '\r'
}

/// What `+` makes of `a` and `b`: the sum of two numbers; the text of two
/// texts, or of a text and the decimal text of a number, one after the other;
/// the items of two lists one after the other; a list with anything else added
/// at the end where the list comes first, at the front where it comes second.
pub open spec fn joined(a: Datum, b: Datum) -> Datum {
    match (a, b) {
        (Datum::Text(x), Datum::Text(y)) => Datum::Text(x + y),
        (Datum::Number(x), Datum::Text(y)) => Datum::Text(decimal_text(x) + y),
        (Datum::Text(x), Datum::Number(y)) => Datum::Text(x + decimal_text(y)),
        (Datum::Number(x), Datum::Number(y)) => Datum::Number(x + y),
        (Datum::List(x), Datum::List(y)) => Datum::List(x + y),
        (Datum::List(x), y) => Datum::List(x.push(y)),
        (x, Datum::List(y)) => Datum::List(seq![x] + y),
    }
}

/// The position that `index` names in a collection of length `length`: a
/// negative index counts from the length.
pub open spec fn position(index: int, length: nat) -> int {
    if index < 0 {
        length + index
    } else {
        index
    }
}

/// What `@` makes of `collection` and `index`: the collection without the
/// element at the position that the index names, and that element (of a text,
/// the text of that one character). The length from which a negative index
/// counts is that of `:`.
pub open spec fn removed(collection: Datum, index: Datum) -> Result<Seq<Datum>, Failure> {
    match (collection, index) {
        (Datum::List(items), Datum::Number(i)) => {
            let at = position(i, items.len());
            if 0 <= at < items.len() {
                Ok(seq![Datum::List(items.remove(at)), items[at]])
            } else {
                Err(Failure::IndexOutOfBounds)
            }
        },
        (Datum::Text(text), Datum::Number(i)) => {
            let at = position(i, byte_length(text));
            if 0 <= at < text.len() {
                Ok(seq![Datum::Text(text.remove(at)), Datum::Text(seq![text[at]])])
            } else {
                Err(Failure::IndexOutOfBounds)
            }
        },
        _ => Err(Failure::WrongOperands('@')),
    }
}

/// What `:` makes of `collection`: the collection itself and its length, the
/// number of items of a list, the number of bytes of a text.
pub open spec fn measured(collection: Datum) -> Result<Seq<Datum>, Failure> {
    match collection {
        Datum::List(items) => Ok(seq![collection, Datum::Number(items.len() as int)]),
        Datum::Text(text) => Ok(seq![collection, Datum::Number(byte_length(text) as int)]),
        Datum::Number(_) => Err(Failure::WrongOperands(':')),
    }
}

/// What an operator that acts on the stack alone makes of its operands,
/// which are as many as its arity says, in the order in which they were
/// pushed: the values that take their place, or the failure.
///
/// `-`, `*` and `/` are the arithmetic of two numbers; `*` on a text and a
/// number leaves the text as it is, whatever the number. `$` swaps two
/// values, `%` doubles one, `;` drops one, `=` compares two, `[` makes an
/// empty list, and a blank does nothing. Any other character fails. The
/// operators that need more than the stack, `Z`, `!`, `#` and `?`, are not
/// among these.
pub open spec fn results(operator: char, operands: Seq<Datum>) -> Result<Seq<Datum>, Failure> {
    if operator == '+' {
        Ok(seq![joined(operands[0], operands[1])])
    } else if operator == '-' {
        match (operands[0], operands[1]) {
            (Datum::Number(a), Datum::Number(b)) => Ok(seq![Datum::Number(a - b)]),
            _ => Err(Failure::WrongOperands('-')),
        }
    } else if operator == '*' {
        match (operands[0], operands[1]) {
            (Datum::Text(text), Datum::Number(_)) => Ok(seq![Datum::Text(text)]),
            (Datum::Number(a), Datum::Number(b)) => Ok(seq![Datum::Number(a * b)]),
            _ => Err(Failure::WrongOperands('*')),
        }
    } else if operator == '/' {
        match (operands[0], operands[1]) {
            (Datum::Number(a), Datum::Number(b)) => if b == 0 {
                Err(Failure::DivisionByZero)
            } else {
                Ok(seq![Datum::Number(truncated_quotient(a, b))])
            },
            _ => Err(Failure::WrongOperands('/')),
        }
    } else if operator == '@' {
        removed(operands[0], operands[1])
    } else if operator == '$' {
        Ok(seq![operands[1], operands[0]])
    } else if operator == '=' {
        Ok(
            seq![Datum::Number(
                if operands[0] == operands[1] {
                    1
                } else {
                    0
                },
            )],
        )
    } else if operator == '%' {
        Ok(seq![operands[0], operands[0]])
    } else if operator == ';' {
        Ok(Seq::empty())
    } else if operator == ':' {
        measured(operands[0])
    } else if operator == '[' {
        Ok(seq![Datum::List(Seq::empty())])
    } else if is_blank(operator) {
        Ok(Seq::empty())
    } else {
        Err(Failure::UnexpectedCharacter(operator))
    }
}

/// What becomes of a stack: the stack afterwards, and the failure if there
/// was one.
pub struct Effect {
    pub stack: Seq<Datum>,
    pub failure: Option<Failure>,
}

/// What an operator that acts on the stack alone makes of `stack`. Without
/// enough operands it fails and leaves the stack as it was. Else it takes its
/// operands off the top; where it fails on them, they are gone.
pub open spec fn apply(operator: char, stack: Seq<Datum>) -> Effect {
    let needed = arity(operator);
    if stack.len() < needed {
        Effect { stack, failure: Some(Failure::MissingOperands(operator)) }
    } else {
        let kept = stack.take(stack.len() - needed);
        match results(operator, stack.skip(stack.len() - needed)) {
            Ok(values) => Effect { stack: kept + values, failure: None },
            Err(failure) => Effect { stack: kept, failure: Some(failure) },
        }
    }
}

/// What `+` makes of the two values.
pub fn join(a: Value, b: Value) -> (result: Value)
    ensures
        result@ == joined(a@, b@),
{
    match a {
        Value::String(mut x) => match b {
            Value::String(y) => {
                x.append(y.as_str());
                Value::String(x)
            },
            Value::Integer(y) => {
                let digits = y.decimal();
                x.append(digits.as_str());
                Value::String(x)
            },
            Value::Array(mut y) => {
                proof {
                    Value::lemma_array_view(y);
                }
                let ghost before = y@;
                y.insert(0, Value::String(x));
                proof {
                    Value::lemma_array_view(y);
                    assert(data(y@) =~= seq![a@] + data(before));
                }
                Value::Array(y)
            },
        },
        Value::Integer(x) => match b {
            Value::String(y) => {
                let mut text = x.decimal();
                text.append(y.as_str());
                Value::String(text)
            },
            Value::Integer(y) => Value::Integer(x.sum(&y)),
            Value::Array(mut y) => {
                proof {
                    Value::lemma_array_view(y);
                }
                let ghost before = y@;
                y.insert(0, Value::Integer(x));
                proof {
                    Value::lemma_array_view(y);
                    assert(data(y@) =~= seq![a@] + data(before));
                }
                Value::Array(y)
            },
        },
        Value::Array(mut x) => {
            proof {
                Value::lemma_array_view(x);
            }
            let ghost before = x@;
            match b {
                Value::Array(mut y) => {
                    proof {
                        Value::lemma_array_view(y);
                    }
                    let ghost added = y@;
                    x.append(&mut y);
                    proof {
                        Value::lemma_array_view(x);
                        assert(data(x@) =~= data(before) + data(added));
                    }
                    Value::Array(x)
                },
                other => {
                    let ghost datum = other@;
                    x.push(other);
                    proof {
                        Value::lemma_array_view(x);
                        assert(data(x@) =~= data(before).push(datum));
                    }
                    Value::Array(x)
                },
            }
        },
    }
}

/// What `@` makes of the two values.
pub fn remove(collection: Value, index: Value) -> (result: Result<Vec<Value>, Failure>)
    ensures
        match removed(collection@, index@) {
            Ok(values) => result is Ok && data(result->Ok_0@) == values,
            Err(failure) => result == Err::<Vec<Value>, Failure>(failure),
        },
{
    let zero = Integer::zero();
    match index {
        Value::Integer(i) => match collection {
            Value::Array(mut items) => {
                proof {
                    Value::lemma_array_view(items);
                }
                let ghost before = items@;
                let length = items.len();
                let at = if i.less_than(&zero) {
                    Integer::from_usize(length).sum(&i)
                } else {
                    i
                };
                match at.to_index() {
                    Some(place) => {
                        if place < length {
                            let item = items.remove(place);
                            let mut values: Vec<Value> = Vec::new();
                            proof {
                                Value::lemma_array_view(items);
                                assert(data(items@) =~= data(before).remove(place as int));
                            }
                            values.push(Value::Array(items));
                            values.push(item);
                            assert(data(values@) =~= removed(collection@, index@)->Ok_0);
                            Ok(values)
                        } else {
                            Err(Failure::IndexOutOfBounds)
                        }
                    },
                    None => Err(Failure::IndexOutOfBounds),
                }
            },
            Value::String(text) => {
                let chars = characters(text.as_str());
                let length = byte_count(&chars);
                let at = if i.less_than(&zero) {
                    Integer::from_u128(length).sum(&i)
                } else {
                    i
                };
                match at.to_index() {
                    Some(place) => {
                        if place < chars.len() {
                            let rest = without(&chars, place);
                            let mut item = String::new();
                            item.push(chars[place]);
                            let mut values: Vec<Value> = Vec::new();
                            values.push(Value::String(rest));
                            values.push(Value::String(item));
                            Ok(values)
                        } else {
                            Err(Failure::IndexOutOfBounds)
                        }
                    },
                    None => Err(Failure::IndexOutOfBounds),
                }
            },
            Value::Integer(_) => Err(Failure::WrongOperands('@')),
        },
        _ => Err(Failure::WrongOperands('@')),
    }
}

/// What `:` makes of the value.
pub fn measure(collection: Value) -> (result: Result<Vec<Value>, Failure>)
    ensures
        match measured(collection@) {
            Ok(values) => result is Ok && data(result->Ok_0@) == values,
            Err(failure) => result == Err::<Vec<Value>, Failure>(failure),
        },
{
    match collection {
        Value::Array(items) => {
            proof {
                Value::lemma_array_view(items);
            }
            let length = Integer::from_usize(items.len());
            let mut values: Vec<Value> = Vec::new();
            values.push(Value::Array(items));
            values.push(Value::Integer(length));
            Ok(values)
        },
        Value::String(text) => {
            let chars = characters(text.as_str());
            let length = Integer::from_u128(byte_count(&chars));
            let mut values: Vec<Value> = Vec::new();
            values.push(Value::String(text));
            values.push(Value::Integer(length));
            Ok(values)
        },
        Value::Integer(_) => Err(Failure::WrongOperands(':')),
    }
}

/// The one value, as the values that take the operands' place.
fn one(value: Value) -> (values: Vec<Value>)
    ensures
        data(values@) == seq![value@],
{
    let mut values: Vec<Value> = Vec::new();
    values.push(value);
    values
}

/// The two values, as the values that take the operands' place.
fn two(first: Value, second: Value) -> (values: Vec<Value>)
    ensures
        data(values@) == seq![first@, second@],
{
    let mut values: Vec<Value> = Vec::new();
    values.push(first);
    values.push(second);
    values
}

/// What an operator that acts on the stack alone makes of its operands.
pub(crate) fn compute(operator: char, operands: Vec<Value>) -> (result: Result<
    Vec<Value>,
    Failure,
>)
    requires
        operands@.len() == arity(operator),
    ensures
        match results(operator, data(operands@)) {
            Ok(values) => result is Ok && data(result->Ok_0@) == values,
            Err(failure) => result == Err::<Vec<Value>, Failure>(failure),
        },
{
    let mut operands = operands;
    if operator == '+' || operator == '-' || operator == '*' || operator == '/' || operator == '@'
        || operator == '$' || operator == '=' {
        let b = operands.pop().unwrap();
        let a = operands.pop().unwrap();
        if operator == '+' {
            Ok(one(join(a, b)))
        } else if operator == '@' {
            remove(a, b)
        } else if operator == '$' {
            Ok(two(b, a))
        } else if operator == '=' {
            if a.equals(&b) {
                Ok(one(Value::Integer(Integer::small(1))))
            } else {
                Ok(one(Value::Integer(Integer::zero())))
            }
        } else {
            match (a, b) {
                (Value::Integer(x), Value::Integer(y)) => {
                    if operator == '-' {
                        Ok(one(Value::Integer(x.difference(&y))))
                    } else if operator == '*' {
                        Ok(one(Value::Integer(x.product(&y))))
                    } else if y.same_value(&Integer::zero()) {
                        Err(Failure::DivisionByZero)
                    } else {
                        Ok(one(Value::Integer(x.quotient(&y))))
                    }
                },
                (Value::String(text), Value::Integer(_)) => {
                    if operator == '*' {
                        Ok(one(Value::String(text)))
                    } else {
                        Err(Failure::WrongOperands(operator))
                    }
                },
                _ => Err(Failure::WrongOperands(operator)),
            }
        }
    } else if operator == '%' {
        let a = operands.pop().unwrap();
        let copy = a.clone();
        Ok(two(a, copy))
    } else if operator == ';' {
        let _ = operands.pop();
        Ok(operands)
    } else if operator == ':' {
        let a = operands.pop().unwrap();
        measure(a)
    } else if operator == '[' {
        let items: Vec<Value> = Vec::new();
        proof {
            Value::lemma_array_view(items);
            assert(data(items@) =~= Seq::<Datum>::empty());
        }
        Ok(one(Value::Array(items)))
    } else if operator == ' ' || operator == '\n' || operator == '\t' || operator == '\r' {
        Ok(operands)
    } else {
        Err(Failure::UnexpectedCharacter(operator))
    }
}

} // verus!
