//! Tokens: literals and single-character operators, read off a buffer.

use crate::buffer::Buffer;
use crate::integer::Integer;
use crate::value::{Datum, Value};
use vstd::prelude::*;

verus! {

/// What a [`Token`] stands for.
pub enum Lexeme {
    /// A literal, with the datum it denotes.
    Literal(Datum),
    /// Any character that starts no literal.
    Operator(char),
}

/// One token of program text.
#[derive(Debug)]
pub enum Token {
    /// A literal, with its value.
    Literal(Value),
    /// Any character that starts no literal.
    Operator(char),
}

impl View for Token {
    type V = Lexeme;

    open spec fn view(&self) -> Lexeme {
        match self {
            Token::Literal(value) => Lexeme::Literal(value@),
            Token::Operator(c) => Lexeme::Operator(*c),
        }
    }
}

/// Whether `c` is one of the ten ASCII digits.
pub open spec fn is_digit(c: char) -> bool {
    '0' <= c && c <= '9'
}

/// The number that the digit `c` stands for.
pub open spec fn digit_value(c: char) -> nat {
    (c as int - '0' as int) as nat
}

/// The digits that `input` starts with, as many as there are.
pub open spec fn leading_digits(input: Seq<char>) -> Seq<char>
    decreases input.len(),
{
    if input.len() > 0 && is_digit(input[0]) {
        seq![input[0]] + leading_digits(input.drop_first())
    } else {
        Seq::empty()
    }
}

/// What follows the digits that `input` starts with.
pub open spec fn after_digits(input: Seq<char>) -> Seq<char>
    decreases input.len(),
{
    if input.len() > 0 && is_digit(input[0]) {
        after_digits(input.drop_first())
    } else {
        input
    }
}

/// The number that `digits` spell in base 10, most significant digit first.
pub open spec fn decimal_value(digits: Seq<char>) -> nat
    decreases digits.len(),
{
    if digits.len() == 0 {
        0
    } else {
        10 * decimal_value(digits.drop_last()) + digit_value(digits.last())
    }
}

/// The character that `c` stands for after a backslash.
pub open spec fn unescaped(c: char) -> char {
    if c == 'n' {
        '\n'
    } else if c == 'r' {
        '\r'
    } else if c == 't' {
        '\t'
    } else {
        c
    }
}

/// The text of a quoted literal, `input` being what follows its opening
/// quote: the characters up to the first quote that no backslash precedes,
/// each backslash taken with the character after it. Without such a quote
/// the literal runs to the end of the input.
pub open spec fn quoted_text(input: Seq<char>) -> Seq<char>
    decreases input.len(),
{
    if input.len() == 0 || input[0] == '"' {
        Seq::empty()
    } else if input[0] == '\\' {
        if input.len() == 1 {
            Seq::empty()
        } else {
            seq![unescaped(input[1])] + quoted_text(input.skip(2))
        }
    } else {
        seq![input[0]] + quoted_text(input.drop_first())
    }
}

/// What follows a quoted literal, `input` being what follows its opening
/// quote.
pub open spec fn after_quoted(input: Seq<char>) -> Seq<char>
    decreases input.len(),
{
    if input.len() == 0 {
        input
    } else if input[0] == '"' {
        input.drop_first()
    } else if input[0] == '\\' {
        if input.len() == 1 {
            Seq::empty()
        } else {
            after_quoted(input.skip(2))
        }
    } else {
        after_quoted(input.drop_first())
    }
}

/// The text of a brace-quoted literal, `input` being what follows a brace
/// inside it with `open` braces open: the characters up to the closing brace
/// that matches the first of them. Nothing is escaped. Without that brace
/// the literal runs to the end of the input.
pub open spec fn braced_text(input: Seq<char>, open: nat) -> Seq<char>
    decreases input.len(),
{
    if input.len() == 0 {
        Seq::empty()
    } else if input[0] == '}' {
        if open <= 1 {
            Seq::empty()
        } else {
            seq!['}'] + braced_text(input.drop_first(), (open - 1) as nat)
        }
    } else if input[0] == '{' {
        seq!['{'] + braced_text(input.drop_first(), open + 1)
    } else {
        seq![input[0]] + braced_text(input.drop_first(), open)
    }
}

/// What follows a brace-quoted literal, `input` being what follows a brace
/// inside it with `open` braces open.
pub open spec fn after_braced(input: Seq<char>, open: nat) -> Seq<char>
    decreases input.len(),
{
    if input.len() == 0 {
        input
    } else if input[0] == '}' {
        if open <= 1 {
            input.drop_first()
        } else {
            after_braced(input.drop_first(), (open - 1) as nat)
        }
    } else if input[0] == '{' {
        after_braced(input.drop_first(), open + 1)
    } else {
        after_braced(input.drop_first(), open)
    }
}

/// The first token of `input`, which is not empty.
pub open spec fn first_token(input: Seq<char>) -> Lexeme {
    let rest = input.drop_first();
    if input[0] == '"' {
        Lexeme::Literal(Datum::Text(quoted_text(rest)))
    } else if input[0] == '{' {
        Lexeme::Literal(Datum::Text(braced_text(rest, 1)))
    } else if is_digit(input[0]) {
        Lexeme::Literal(Datum::Number(decimal_value(leading_digits(input)) as int))
    } else {
        Lexeme::Operator(input[0])
    }
}

/// What follows the first token of `input`, which is not empty.
pub open spec fn after_token(input: Seq<char>) -> Seq<char> {
    let rest = input.drop_first();
    if input[0] == '"' {
        after_quoted(rest)
    } else if input[0] == '{' {
        after_braced(rest, 1)
    } else if is_digit(input[0]) {
        after_digits(rest)
    } else {
        rest
    }
}

/// What follows a quoted literal is no longer than what the literal started
/// in.
pub proof fn lemma_after_quoted_length(input: Seq<char>)
    ensures
        after_quoted(input).len() <= input.len(),
    decreases input.len(),
{
    if input.len() == 0 || input[0] == '"' {
    } else if input[0] == '\\' {
        if input.len() > 1 {
            lemma_after_quoted_length(input.skip(2));
        }
    } else {
        lemma_after_quoted_length(input.drop_first());
    }
}

/// What follows a brace-quoted literal is no longer than what the literal
/// started in.
pub proof fn lemma_after_braced_length(input: Seq<char>, open: nat)
    ensures
        after_braced(input, open).len() <= input.len(),
    decreases input.len(),
{
    if input.len() == 0 {
    } else if input[0] == '}' {
        if open > 1 {
            lemma_after_braced_length(input.drop_first(), (open - 1) as nat);
        }
    } else if input[0] == '{' {
        lemma_after_braced_length(input.drop_first(), open + 1);
    } else {
        lemma_after_braced_length(input.drop_first(), open);
    }
}

/// What follows a run of digits is no longer than what the run started in.
pub proof fn lemma_after_digits_length(input: Seq<char>)
    ensures
        after_digits(input).len() <= input.len(),
    decreases input.len(),
{
    if input.len() > 0 && is_digit(input[0]) {
        lemma_after_digits_length(input.drop_first());
    }
}

/// Every token takes at least one character.
pub proof fn lemma_after_token_shorter(input: Seq<char>)
    requires
        input.len() > 0,
    ensures
        after_token(input).len() < input.len(),
{
    let rest = input.drop_first();
    lemma_after_quoted_length(rest);
    lemma_after_braced_length(rest, 1);
    lemma_after_digits_length(rest);
}

/// Reads a quoted literal whose opening quote was read already.
pub fn read_quoted(buffer: &mut Buffer) -> (text: String)
    ensures
        text@ == quoted_text(old(buffer)@),
        final(buffer)@ == after_quoted(old(buffer)@),
{
    let ghost input = buffer@;
    let mut text = String::new();
    loop
        invariant
            input == old(buffer)@,
            text@ + quoted_text(buffer@) == quoted_text(input),
            after_quoted(buffer@) == after_quoted(input),
        decreases buffer@.len(),
    {
        let ghost before = buffer@;
        match buffer.next() {
            None => {
                return text;
            },
            Some(c) => {
                if c == '\\' {
                    match buffer.next() {
                        Some(escaped) => {
                            let plain = if escaped == 'n' {
                                '\n'
                            } else if escaped == 'r' {
                                '\r'
                            } else if escaped == 't' {
                                '\t'
                            } else {
                                escaped
                            };
                            text.push(plain);
                            assert(buffer@ =~= before.skip(2));
                        },
                        None => {},
                    }
                } else if c == '"' {
                    return text;
                } else {
                    text.push(c);
                }
            },
        }
    }
}

/// Reads a brace-quoted literal whose opening brace was read already.
pub fn read_braced(buffer: &mut Buffer) -> (text: String)
    ensures
        text@ == braced_text(old(buffer)@, 1),
        final(buffer)@ == after_braced(old(buffer)@, 1),
{
    let ghost input = buffer@;
    let mut text = String::new();
    let mut open: u128 = 1;
    proof {
        buffer.lemma_length_bounded();
    }
    loop
        invariant
            input == old(buffer)@,
            1 <= open,
            open + buffer@.len() <= 1 + input.len(),
            input.len() <= 2 * usize::MAX,
            text@ + braced_text(buffer@, open as nat) == braced_text(input, 1),
            after_braced(buffer@, open as nat) == after_braced(input, 1),
        decreases buffer@.len(),
    {
        match buffer.next() {
            None => {
                return text;
            },
            Some(c) => {
                if c == '}' {
                    if open == 1 {
                        return text;
                    }
                    open = open - 1;
                    text.push(c);
                } else if c == '{' {
                    open = open + 1;
                    text.push(c);
                } else {
                    text.push(c);
                }
            },
        }
    }
}

/// Reads the number whose first digit, `first`, was read already.
pub(crate) fn read_number(first: char, buffer: &mut Buffer) -> (number: Integer)
    requires
        is_digit(first),
    ensures
        number@ == decimal_value(seq![first] + leading_digits(old(buffer)@)),
        final(buffer)@ == after_digits(old(buffer)@),
{
    let ghost input = buffer@;
    let ghost mut seen = seq![first];
    let ten = Integer::small(10);
    let mut number = Integer::small((first as u32 - 48) as u8);
    proof {
        assert(decimal_value(seen.drop_last()) == 0);
    }
    loop
        invariant
            input == old(buffer)@,
            ten@ == 10,
            number@ == decimal_value(seen),
            seen + leading_digits(buffer@) == seq![first] + leading_digits(input),
            after_digits(buffer@) == after_digits(input),
        decreases buffer@.len(),
    {
        match buffer.next() {
            None => {
                return number;
            },
            Some(c) => {
                if c >= '0' && c <= '9' {
                    let digit = Integer::small((c as u32 - 48) as u8);
                    number = number.product(&ten).sum(&digit);
                    proof {
                        let longer = seen.push(c);
                        assert(longer.drop_last() =~= seen);
                        seen = longer;
                    }
                } else {
                    buffer.back(c);
                    return number;
                }
            },
        }
    }
}

/// Reads the next token off the buffer, if anything is left in it.
pub fn next_token(buffer: &mut Buffer) -> (token: Option<Token>)
    ensures
        old(buffer)@.len() == 0 ==> token is None && final(buffer)@ == old(buffer)@,
        old(buffer)@.len() > 0 ==> token is Some && token->0@ == first_token(old(buffer)@)
            && final(buffer)@ == after_token(old(buffer)@),
{
    match buffer.next() {
        None => None,
        Some(c) => {
            if c == '"' {
                Some(Token::Literal(Value::String(read_quoted(buffer))))
            } else if c == '{' {
                Some(Token::Literal(Value::String(read_braced(buffer))))
            } else if c >= '0' && c <= '9' {
                Some(Token::Literal(Value::Integer(read_number(c, buffer))))
            } else {
                Some(Token::Operator(c))
            }
        },
    }
}

} // verus!
