//! Laws of the operators and the literals, each proved of every stack and
//! every operand.

use crate::failure::Failure;
use crate::integer::{decimal_digits, digit_char, truncated_quotient};
use crate::lexer::{
    after_braced, after_digits, after_token, braced_text, decimal_value, first_token, is_digit,
    leading_digits, lemma_after_token_shorter, Lexeme,
};
use crate::operators::{apply, is_blank};
use crate::semantics::{done, execute, nested, repeated, run, unread, Machine, Outcome};
use crate::text::{byte_length, utf8_width};
use crate::value::Datum;
use vstd::prelude::*;
use vstd::utf8::encode_utf8;

verus! {

/// On two numbers, `+` leaves their sum, `-` their difference and `*` their
/// product in their place; `/` leaves their quotient rounded toward zero,
/// and with a divisor of 0 it fails, the two numbers gone.
pub proof fn law_integer_arithmetic(stack: Seq<Datum>, a: int, b: int)
    ensures
        apply('+', stack.push(Datum::Number(a)).push(Datum::Number(b))).stack == stack.push(
            Datum::Number(a + b),
        ),
        apply('+', stack.push(Datum::Number(a)).push(Datum::Number(b))).failure is None,
        apply('-', stack.push(Datum::Number(a)).push(Datum::Number(b))).stack == stack.push(
            Datum::Number(a - b),
        ),
        apply('-', stack.push(Datum::Number(a)).push(Datum::Number(b))).failure is None,
        apply('*', stack.push(Datum::Number(a)).push(Datum::Number(b))).stack == stack.push(
            Datum::Number(a * b),
        ),
        apply('*', stack.push(Datum::Number(a)).push(Datum::Number(b))).failure is None,
        b != 0 ==> apply('/', stack.push(Datum::Number(a)).push(Datum::Number(b))).stack
            == stack.push(Datum::Number(truncated_quotient(a, b))),
        b != 0 ==> apply('/', stack.push(Datum::Number(a)).push(Datum::Number(b))).failure is None,
        apply('/', stack.push(Datum::Number(a)).push(Datum::Number(0))).stack == stack,
        apply('/', stack.push(Datum::Number(a)).push(Datum::Number(0))).failure == Some(
            Failure::DivisionByZero,
        ),
{
}

/// The quotient rounded toward zero leaves a remainder that is smaller in
/// magnitude than the divisor and never of the sign opposite to the
/// dividend's.
pub proof fn law_quotient_rounds_toward_zero(a: int, b: int)
    requires
        b != 0,
    ensures
        ({
            let remainder = a - truncated_quotient(a, b) * b;
            &&& a >= 0 ==> 0 <= remainder
            &&& a <= 0 ==> remainder <= 0
            &&& b > 0 ==> -b < remainder < b
            &&& b < 0 ==> b < remainder < -b
        }),
{
    let x = if a < 0 {
        -a
    } else {
        a
    };
    let y = if b < 0 {
        -b
    } else {
        b
    };
    vstd::arithmetic::div_mod::lemma_fundamental_div_mod(x, y);
    vstd::arithmetic::div_mod::lemma_mod_bound(x, y);
    let q = x / y;
    assert((-q) * b == -(q * b)) by (nonlinear_arith);
    assert(q * (-y) == -(q * y)) by (nonlinear_arith);
}

/// `+` on two texts leaves the one followed by the other.
pub proof fn law_texts_join(stack: Seq<Datum>, a: Seq<char>, b: Seq<char>)
    ensures
        apply('+', stack.push(Datum::Text(a)).push(Datum::Text(b))).stack == stack.push(
            Datum::Text(a + b),
        ),
        apply('+', stack.push(Datum::Text(a)).push(Datum::Text(b))).failure is None,
{
}

/// `%` leaves the top value twice.
pub proof fn law_duplicate(stack: Seq<Datum>, value: Datum)
    ensures
        apply('%', stack.push(value)).stack == stack.push(value).push(value),
        apply('%', stack.push(value)).failure is None,
{
}

/// `$` is its own inverse: applied twice to a stack of two values or more,
/// it leaves the stack as it was.
pub proof fn law_swap_twice(stack: Seq<Datum>)
    requires
        stack.len() >= 2,
    ensures
        apply('$', stack).failure is None,
        apply('$', apply('$', stack).stack).failure is None,
        apply('$', apply('$', stack).stack).stack == stack,
{
}

/// `:` leaves its operand as it was, under the operand's length.
pub proof fn law_length_keeps_operand(stack: Seq<Datum>, value: Datum)
    requires
        !(value is Number),
    ensures
        apply(':', stack.push(value)).failure is None,
        apply(':', stack.push(value)).stack.drop_last() == stack.push(value),
        value matches Datum::Text(text) ==> apply(':', stack.push(value)).stack.last()
            == Datum::Number(byte_length(text) as int),
        value matches Datum::List(items) ==> apply(':', stack.push(value)).stack.last()
            == Datum::Number(items.len() as int),
{
}

/// The length of a text of ASCII characters is the number of its
/// characters.
pub proof fn law_ascii_length(text: Seq<char>)
    requires
        forall|i: int| 0 <= i < text.len() ==> (#[trigger] text[i] as u32) < 0x80,
    ensures
        byte_length(text) == text.len(),
    decreases text.len(),
{
    if text.len() > 0 {
        law_ascii_length(text.drop_last());
    }
}

/// One more character makes the UTF-8 encoding longer by the width of that
/// character.
proof fn lemma_encoding_of_push(text: Seq<char>, c: char)
    ensures
        encode_utf8(text.push(c)).len() == encode_utf8(text).len() + utf8_width(c),
    decreases text.len(),
{
    let longer = text.push(c);
    if text.len() == 0 {
        assert(encode_utf8(longer.drop_first()).len() == 0);
    } else {
        lemma_encoding_of_push(text.drop_first(), c);
        assert(longer.drop_first() =~= text.drop_first().push(c));
    }
}

/// The length of a text is the length of its UTF-8 encoding.
pub proof fn law_length_is_encoded_length(text: Seq<char>)
    ensures
        byte_length(text) == encode_utf8(text).len(),
    decreases text.len(),
{
    if text.len() > 0 {
        law_length_is_encoded_length(text.drop_last());
        lemma_encoding_of_push(text.drop_last(), text.last());
        assert(text.drop_last().push(text.last()) =~= text);
    }
}

/// `=` is reflexive: on a value and itself it leaves 1.
pub proof fn law_equality_reflexive(stack: Seq<Datum>, value: Datum)
    ensures
        apply('=', stack.push(value).push(value)).stack == stack.push(Datum::Number(1)),
        apply('=', stack.push(value).push(value)).failure is None,
{
}

/// `=` tells the kinds apart: on a number and a text it leaves 0, whatever
/// the text holds.
pub proof fn law_equality_tells_kinds_apart(stack: Seq<Datum>, number: int, text: Seq<char>)
    ensures
        apply('=', stack.push(Datum::Number(number)).push(Datum::Text(text))).stack == stack.push(
            Datum::Number(0),
        ),
        apply('=', stack.push(Datum::Text(text)).push(Datum::Number(number))).stack == stack.push(
            Datum::Number(0),
        ),
{
}

/// `@` with the index -1 takes the last item out of a list that is not
/// empty: it leaves the list without that item, and the item on top.
pub proof fn law_remove_last(stack: Seq<Datum>, items: Seq<Datum>)
    requires
        items.len() > 0,
    ensures
        apply('@', stack.push(Datum::List(items)).push(Datum::Number(-1))).stack == stack.push(
            Datum::List(items.drop_last()),
        ).push(items.last()),
        apply('@', stack.push(Datum::List(items)).push(Datum::Number(-1))).failure is None,
{
}

/// Whether `text`, read with `open` braces open, closes all of them but one
/// and none more: each of its closing braces matches a brace that is open,
/// and it ends with one brace open.
pub open spec fn leaves_one_open(text: Seq<char>, open: nat) -> bool
    decreases text.len(),
{
    if text.len() == 0 {
        open == 1
    } else if text[0] == '}' {
        open > 1 && leaves_one_open(text.drop_first(), (open - 1) as nat)
    } else if text[0] == '{' {
        leaves_one_open(text.drop_first(), open + 1)
    } else {
        leaves_one_open(text.drop_first(), open)
    }
}

/// A text that leaves one brace open, then a closing brace, reads as that
/// text, and what comes after the closing brace is left.
pub proof fn law_braced_text(text: Seq<char>, open: nat, rest: Seq<char>)
    requires
        leaves_one_open(text, open),
    ensures
        braced_text(text + seq!['}'] + rest, open) == text,
        after_braced(text + seq!['}'] + rest, open) == rest,
    decreases text.len(),
{
    let input = text + seq!['}'] + rest;
    if text.len() > 0 {
        let tail = text.drop_first();
        assert(input.drop_first() =~= tail + seq!['}'] + rest);
        let inner: nat = if text[0] == '}' {
            (open - 1) as nat
        } else if text[0] == '{' {
            open + 1
        } else {
            open
        };
        law_braced_text(tail, inner, rest);
    }
}

/// A brace-quoted literal gives back the text between its braces: a text in
/// which every brace has its match, between an opening and a closing brace,
/// is one token, the literal of that text with its inner braces kept.
pub proof fn law_brace_literal(text: Seq<char>, rest: Seq<char>)
    requires
        leaves_one_open(text, 1),
    ensures
        first_token(seq!['{'] + text + seq!['}'] + rest) == Lexeme::Literal(Datum::Text(text)),
        after_token(seq!['{'] + text + seq!['}'] + rest) == rest,
{
    let input = seq!['{'] + text + seq!['}'] + rest;
    assert(input.drop_first() =~= text + seq!['}'] + rest);
    law_braced_text(text, 1, rest);
}

/// The decimal digits of a number are digits, and they spell that number.
pub proof fn law_decimal_digits_spell(n: nat)
    ensures
        decimal_digits(n).len() > 0,
        forall|i: int| 0 <= i < decimal_digits(n).len() ==> is_digit(#[trigger] decimal_digits(n)[i]),
        decimal_value(decimal_digits(n)) == n,
    decreases n,
{
    let last = digit_char(n % 10);
    if n < 10 {
        let digits = seq![last];
        assert(decimal_value(digits.drop_last()) == 0);
    } else {
        law_decimal_digits_spell(n / 10);
        let digits = decimal_digits(n / 10).push(last);
        assert(digits.drop_last() =~= decimal_digits(n / 10));
    }
}

/// A run of digits before anything that is no digit is read whole.
pub proof fn law_digits_read_whole(digits: Seq<char>, rest: Seq<char>)
    requires
        forall|i: int| 0 <= i < digits.len() ==> is_digit(#[trigger] digits[i]),
        rest.len() == 0 || !is_digit(rest[0]),
    ensures
        leading_digits(digits + rest) == digits,
        after_digits(digits + rest) == rest,
    decreases digits.len(),
{
    let input = digits + rest;
    if digits.len() > 0 {
        let tail = digits.drop_first();
        assert(input.drop_first() =~= tail + rest);
        law_digits_read_whole(tail, rest);
    }
}

/// The decimal text of a number that is not negative reads back as that
/// number: before anything that is no digit it is one token, the literal of
/// the number.
pub proof fn law_number_literal(n: nat, rest: Seq<char>)
    requires
        rest.len() == 0 || !is_digit(rest[0]),
    ensures
        first_token(decimal_digits(n) + rest) == Lexeme::Literal(Datum::Number(n as int)),
        after_token(decimal_digits(n) + rest) == rest,
{
    let digits = decimal_digits(n);
    law_decimal_digits_spell(n);
    law_digits_read_whole(digits, rest);
    assert forall|i: int| 0 <= i < digits.drop_first().len() implies is_digit(
        #[trigger] digits.drop_first()[i],
    ) by {
    }
    law_digits_read_whole(digits.drop_first(), rest);
}

/// A blank changes nothing: text after a blank means what it means without
/// the blank.
pub proof fn law_blank_is_skipped(blank: char, rest: Seq<char>, machine: Machine, depth: nat)
    requires
        is_blank(blank),
    ensures
        run(seq![blank] + rest, machine, depth) == run(rest, machine, depth),
{
    let input = seq![blank] + rest;
    assert(after_token(input) == rest);
    assert(apply(blank, machine.stack).stack == machine.stack);
    assert(execute(first_token(input), machine, depth) == done(machine));
}

/// A number literal pushes its number: the decimal text of a number that is
/// not negative, before text that starts with no digit, pushes that number,
/// and the text after it goes on from there.
pub proof fn law_number_is_pushed(n: nat, rest: Seq<char>, machine: Machine, depth: nat)
    requires
        rest.len() == 0 || !is_digit(rest[0]),
    ensures
        run(decimal_digits(n) + rest, machine, depth) == run(
            rest,
            machine.push(Datum::Number(n as int)),
            depth,
        ),
{
    let input = decimal_digits(n) + rest;
    law_decimal_digits_spell(n);
    law_number_literal(n, rest);
    assert(execute(first_token(input), machine, depth) == done(
        machine.push(Datum::Number(n as int)),
    ));
}

/// An operator that acts on the stack alone does to the machine what it does
/// to the stack, and prints nothing, however deep evaluations may nest.
pub proof fn law_operator_acts_on_the_stack(operator: char, machine: Machine, depth: nat)
    requires
        operator != 'Z' && operator != '!' && operator != '#' && operator != '?',
    ensures
        execute(Lexeme::Operator(operator), machine, depth) == (Outcome {
            machine: Machine {
                stack: apply(operator, machine.stack).stack,
                printed: machine.printed,
            },
            failure: apply(operator, machine.stack).failure,
        }),
{
}

/// `?` evaluates one of two texts against the same machine: the first where
/// the number on top of them is not 0, the second where it is 0; whatever
/// that evaluation leaves or fails with is what `?` leaves or fails with.
pub proof fn law_condition_selects(
    machine: Machine,
    then: Seq<char>,
    otherwise: Seq<char>,
    condition: int,
    depth: nat,
)
    ensures
        execute(
            Lexeme::Operator('?'),
            machine.push(Datum::Text(then)).push(Datum::Text(otherwise)).push(
                Datum::Number(condition),
            ),
            depth,
        ) == nested(
            if condition == 0 {
                otherwise
            } else {
                then
            },
            machine,
            depth,
        ),
{
    let full = machine.push(Datum::Text(then)).push(Datum::Text(otherwise)).push(
        Datum::Number(condition),
    );
    assert(full.without_top(3).stack =~= machine.stack);
}

/// `!` evaluates the text on top against the same machine, and `#` evaluates
/// the text under the number on top once for each count below that number;
/// whatever the evaluation leaves or fails with is what they leave or fail
/// with.
pub proof fn law_text_is_evaluated(machine: Machine, code: Seq<char>, count: int, depth: nat)
    ensures
        execute(Lexeme::Operator('!'), machine.push(Datum::Text(code)), depth) == nested(
            code,
            machine,
            depth,
        ),
        execute(
            Lexeme::Operator('#'),
            machine.push(Datum::Text(code)).push(Datum::Number(count)),
            depth,
        ) == repeated(code, machine, 0, count, depth),
        count <= 0 ==> repeated(code, machine, 0, count, depth) == done(machine),
{
    let once = machine.push(Datum::Text(code));
    assert(once.without_top(1).stack =~= machine.stack);
    let many = machine.push(Datum::Text(code)).push(Datum::Number(count));
    assert(many.without_top(2).stack =~= machine.stack);
}

/// The first failure ends an evaluation: where a token fails, the text
/// fails as the token does, the machine stays as the token left it, and what
/// follows the token is left unread.
pub proof fn law_failure_ends_evaluation(input: Seq<char>, machine: Machine, depth: nat)
    requires
        input.len() > 0,
        execute(first_token(input), machine, depth).failure is Some,
    ensures
        run(input, machine, depth) == execute(first_token(input), machine, depth),
        unread(input, machine, depth) == after_token(input),
{
}

/// An evaluation that ends well has read all of its text.
pub proof fn law_success_reads_everything(input: Seq<char>, machine: Machine, depth: nat)
    requires
        run(input, machine, depth).failure is None,
    ensures
        unread(input, machine, depth).len() == 0,
    decreases input.len(),
{
    if input.len() > 0 {
        let outcome = execute(first_token(input), machine, depth);
        lemma_after_token_shorter(input);
        law_success_reads_everything(after_token(input), outcome.machine, depth);
    }
}

/// The program text of two numbers that are not negative and an operator of
/// arithmetic, single spaces between them, leaves the result on the stack:
/// for `+` the sum, for `-` the difference, for `*` the product.
pub proof fn law_arithmetic_on_literals(
    a: nat,
    b: nat,
    operator: char,
    machine: Machine,
    depth: nat,
)
    requires
        operator == '+' || operator == '-' || operator == '*',
    ensures
        run(
            decimal_digits(a) + seq![' '] + decimal_digits(b) + seq![' ', operator],
            machine,
            depth,
        ) == done(
            machine.push(
                Datum::Number(
                    if operator == '+' {
                        (a + b) as int
                    } else if operator == '-' {
                        a - b
                    } else {
                        (a * b) as int
                    },
                ),
            ),
        ),
{
    let input = decimal_digits(a) + seq![' '] + decimal_digits(b) + seq![' ', operator];
    let second = seq![' '] + decimal_digits(b) + seq![' ', operator];
    let third = decimal_digits(b) + seq![' ', operator];
    let fourth = seq![' ', operator];
    let last = seq![operator];
    let first_pushed = machine.push(Datum::Number(a as int));
    let both_pushed = first_pushed.push(Datum::Number(b as int));
    assert(input =~= decimal_digits(a) + second);
    law_number_is_pushed(a, second, machine, depth);
    assert(second =~= seq![' '] + third);
    law_blank_is_skipped(' ', third, first_pushed, depth);
    law_number_is_pushed(b, fourth, first_pushed, depth);
    assert(fourth =~= seq![' '] + last);
    law_blank_is_skipped(' ', last, both_pushed, depth);
    law_integer_arithmetic(machine.stack, a as int, b as int);
    let outcome = execute(Lexeme::Operator(operator), both_pushed, depth);
    assert(run(last, both_pushed, depth) == run(after_token(last), outcome.machine, depth));
}

} // verus!
