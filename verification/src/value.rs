//! The values of the language and their canonical text.

use crate::integer::{decimal_text, Integer};
use vstd::prelude::*;

verus! {

/// What a [`Value`] stands for: a text, a number or a list of such.
///
/// Two values of the language are equal when these are: a number is never
/// equal to the text of its digits.
pub enum Datum {
    Text(Seq<char>),
    Number(int),
    List(Seq<Datum>),
}

/// A value of the language.
#[derive(Debug)]
pub enum Value {
    String(String),
    Integer(Integer),
    Array(Vec<Value>),
}

impl View for Value {
    type V = Datum;

    open spec fn view(&self) -> Datum
        decreases self,
    {
        match self {
            Value::String(text) => Datum::Text(text@),
            Value::Integer(number) => Datum::Number(number@),
            Value::Array(items) => Datum::List(
                Seq::new(
                    items@.len(),
                    |i: int|
                        if 0 <= i < items@.len() {
                            items@[i].view()
                        } else {
                            Datum::List(Seq::empty())
                        },
                ),
            ),
        }
    }
}

/// What each value of `values` stands for.
pub open spec fn data(values: Seq<Value>) -> Seq<Datum> {
    Seq::new(values.len(), |i: int| values[i]@)
}

/// The canonical text of a datum: a text between double quotes, with nothing
/// escaped; a number in decimal; a list between square brackets, its items
/// separated by single spaces.
pub open spec fn canonical_text(datum: Datum) -> Seq<char>
    decreases datum, 0nat,
{
    match datum {
        Datum::Text(text) => seq!['"'] + text + seq!['"'],
        Datum::Number(number) => decimal_text(number),
        Datum::List(items) => seq!['['] + canonical_items(items, items.len()) + seq![']'],
    }
}

/// The canonical texts of the first `count` items, separated by single
/// spaces.
pub open spec fn canonical_items(items: Seq<Datum>, count: nat) -> Seq<char>
    decreases items, count,
{
    if count == 0 || count > items.len() {
        Seq::empty()
    } else if count == 1 {
        canonical_text(items[0])
    } else {
        canonical_items(items, (count - 1) as nat) + seq![' '] + canonical_text(items[count - 1])
    }
}

impl Value {
    /// The view of an array is the list of the views of its items.
    pub proof fn lemma_array_view(items: Vec<Value>)
        ensures
            Value::Array(items)@ == Datum::List(data(items@)),
    {
        assert(Value::Array(items)@->List_0 =~= data(items@));
    }

    /// An item of an array is smaller than the array, which is why a function
    /// that calls itself on the items comes to an end.
    proof fn lemma_item_is_smaller(self, items: Vec<Value>, at: int)
        requires
            self == Value::Array(items),
            0 <= at < items@.len(),
        ensures
            decreases_to!(self => items@[at]),
    {
        broadcast use vstd::std_specs::vec::group_vec_axioms;

        assert(decreases_to!(self => self->Array_0));
        assert(decreases_to!(items => items[at]));
    }

    /// The canonical text of the value.
    pub fn render(&self) -> (text: String)
        ensures
            text@ == canonical_text(self@),
        decreases self,
    {
        match self {
            Value::String(content) => {
                let mut text = String::new();
                text.push('"');
                text.append(content.as_str());
                text.push('"');
                text
            },
            Value::Integer(number) => number.decimal(),
            Value::Array(items) => {
                proof {
                    Value::lemma_array_view(*items);
                }
                let mut text = String::new();
                text.push('[');
                let mut at: usize = 0;
                while at < items.len()
                    invariant
                        at <= items@.len(),
                        *self == Value::Array(*items),
                        text@ == seq!['['] + canonical_items(data(items@), at as nat),
                    decreases items.len() - at,
                {
                    proof {
                        self.lemma_item_is_smaller(*items, at as int);
                    }
                    let item = items[at].render();
                    if at > 0 {
                        text.push(' ');
                    }
                    text.append(item.as_str());
                    at += 1;
                }
                text.push(']');
                text
            },
        }
    }

    /// Whether the two values are equal: of the same kind, with equal text,
    /// equal number, or equal items in the same order.
    pub fn equals(&self, other: &Value) -> (equal: bool)
        ensures
            equal == (self@ == other@),
        decreases self,
    {
        match (self, other) {
            (Value::String(a), Value::String(b)) => {
                let equal = *a == *b;
                equal
            },
            (Value::Integer(a), Value::Integer(b)) => a.same_value(b),
            (Value::Array(a), Value::Array(b)) => {
                proof {
                    Value::lemma_array_view(*a);
                    Value::lemma_array_view(*b);
                }
                if a.len() != b.len() {
                    assert(data(a@).len() != data(b@).len());
                    return false;
                }
                let mut at: usize = 0;
                while at < a.len()
                    invariant
                        at <= a@.len(),
                        a@.len() == b@.len(),
                        *self == Value::Array(*a),
                        self@ == Datum::List(data(a@)),
                        other@ == Datum::List(data(b@)),
                        forall|i: int| 0 <= i < at ==> a@[i]@ == b@[i]@,
                    decreases a.len() - at,
                {
                    proof {
                        self.lemma_item_is_smaller(*a, at as int);
                    }
                    if !a[at].equals(&b[at]) {
                        assert(data(a@)[at as int] != data(b@)[at as int]);
                        return false;
                    }
                    at += 1;
                }
                assert(data(a@) =~= data(b@));
                true
            },
            _ => false,
        }
    }
}

impl Clone for Value {
    fn clone(&self) -> (copy: Value)
        ensures
            copy@ == self@,
        decreases self,
    {
        match self {
            Value::String(text) => Value::String(text.clone()),
            Value::Integer(number) => Value::Integer(number.clone()),
            Value::Array(items) => {
                let mut copies: Vec<Value> = Vec::new();
                let mut at: usize = 0;
                while at < items.len()
                    invariant
                        at <= items@.len(),
                        *self == Value::Array(*items),
                        copies@.len() == at,
                        forall|i: int| 0 <= i < at ==> copies@[i]@ == items@[i]@,
                    decreases items.len() - at,
                {
                    proof {
                        self.lemma_item_is_smaller(*items, at as int);
                    }
                    let copy = items[at].clone();
                    copies.push(copy);
                    at += 1;
                }
                proof {
                    Value::lemma_array_view(*items);
                    Value::lemma_array_view(copies);
                    assert(data(copies@) =~= data(items@));
                }
                Value::Array(copies)
            },
        }
    }
}

} // verus!
