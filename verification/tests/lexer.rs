use wln::lexer::{next_token, read_braced, read_quoted, Token};
use wln::{Buffer, Value};

fn buffer(text: &str) -> Buffer {
    Buffer::new(text.chars().collect())
}

fn rest(buffer: &mut Buffer) -> String {
    let mut text = String::new();
    while let Some(c) = buffer.next() {
        text.push(c);
    }
    text
}

fn literal(token: Option<Token>) -> String {
    match token {
        Some(Token::Literal(value)) => value.render(),
        other => panic!("no literal: {:?}", other),
    }
}

fn operator(token: Option<Token>) -> char {
    match token {
        Some(Token::Operator(c)) => c,
        other => panic!("no operator: {:?}", other),
    }
}

#[test]
fn no_token_in_an_empty_buffer() {
    let mut input = buffer("");
    assert!(next_token(&mut input).is_none());
    assert!(next_token(&mut input).is_none());
}

#[test]
fn tokens_come_one_by_one() {
    let mut input = buffer("12+\"a b\" {c{d}}\n007x");
    assert_eq!(literal(next_token(&mut input)), "12");
    assert_eq!(operator(next_token(&mut input)), '+');
    assert_eq!(literal(next_token(&mut input)), "\"a b\"");
    assert_eq!(operator(next_token(&mut input)), ' ');
    assert_eq!(literal(next_token(&mut input)), "\"c{d}\"");
    assert_eq!(operator(next_token(&mut input)), '\n');
    assert_eq!(literal(next_token(&mut input)), "7");
    assert_eq!(operator(next_token(&mut input)), 'x');
    assert!(next_token(&mut input).is_none());
}

#[test]
fn number_gives_back_the_character_after_it() {
    let mut input = buffer("42}rest");
    assert_eq!(literal(next_token(&mut input)), "42");
    assert_eq!(rest(&mut input), "}rest");
    let mut input = buffer("42");
    assert_eq!(literal(next_token(&mut input)), "42");
    assert_eq!(rest(&mut input), "");
}

#[test]
fn number_reads_pushed_back_digits() {
    let mut input = buffer("3+");
    input.back('2');
    input.back('1');
    assert_eq!(literal(next_token(&mut input)), "123");
    assert_eq!(rest(&mut input), "+");
}

#[test]
fn number_literal_is_read_in_base_ten() {
    let mut input = buffer("00340282366920938463463374607431768211456 ");
    match next_token(&mut input) {
        Some(Token::Literal(Value::Integer(number))) => {
            assert_eq!(
                Value::Integer(number).render(),
                "340282366920938463463374607431768211456"
            );
        }
        other => panic!("no number: {:?}", other),
    }
    assert_eq!(rest(&mut input), " ");
}

#[test]
fn quoted_text_ends_at_the_quote() {
    let mut input = buffer("ab\"cd\"");
    assert_eq!(read_quoted(&mut input), "ab");
    assert_eq!(rest(&mut input), "cd\"");
}

#[test]
fn quoted_text_decodes_escapes() {
    let mut input = buffer("\\n\\r\\t\\\\\\\"\\a\\{\" tail");
    assert_eq!(read_quoted(&mut input), "\n\r\t\\\"a{");
    assert_eq!(rest(&mut input), " tail");
}

#[test]
fn quoted_text_runs_to_the_end_without_a_quote() {
    let mut input = buffer("abc");
    assert_eq!(read_quoted(&mut input), "abc");
    assert_eq!(rest(&mut input), "");
    let mut input = buffer("abc\\");
    assert_eq!(read_quoted(&mut input), "abc");
    assert_eq!(rest(&mut input), "");
    let mut input = buffer("");
    assert_eq!(read_quoted(&mut input), "");
}

#[test]
fn braced_text_keeps_inner_braces() {
    let mut input = buffer("a{b}c}d}");
    assert_eq!(read_braced(&mut input), "a{b}c");
    assert_eq!(rest(&mut input), "d}");
    let mut input = buffer("{{}}{}}+");
    assert_eq!(read_braced(&mut input), "{{}}{}");
    assert_eq!(rest(&mut input), "+");
    let mut input = buffer("}");
    assert_eq!(read_braced(&mut input), "");
    assert_eq!(rest(&mut input), "");
}

#[test]
fn braced_text_escapes_nothing() {
    let mut input = buffer("a\\n\"\\}b");
    assert_eq!(read_braced(&mut input), "a\\n\"\\");
    assert_eq!(rest(&mut input), "b");
}

#[test]
fn braced_text_runs_to_the_end_without_its_brace() {
    let mut input = buffer("a{b}");
    assert_eq!(read_braced(&mut input), "a{b}");
    assert_eq!(rest(&mut input), "");
    let mut input = buffer("{{{");
    assert_eq!(read_braced(&mut input), "{{{");
}
