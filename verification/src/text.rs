//! Strings as sequences of characters.

use vstd::prelude::*;

verus! {

/// `String::push` of std. The contract claims what its documentation says:
/// the character is appended at the end, and the rest stays.
pub assume_specification[ std::string::String::push ](
    text: &mut std::string::String,
    c: char,
)
    ensures
        final(text)@ == old(text)@.push(c),
;

/// The number of bytes that UTF-8 takes for `c`.
pub open spec fn utf8_width(c: char) -> nat {
    if (c as u32) < 0x80 {
        1
    } else if (c as u32) < 0x800 {
        2
    } else if (c as u32) < 0x1_0000 {
        3
    } else {
        4
    }
}

/// The length of `text` in bytes, encoded as UTF-8. This is the length that
/// the language gives a string; for ASCII text it is the number of
/// characters.
pub open spec fn byte_length(text: Seq<char>) -> nat
    decreases text.len(),
{
    if text.len() == 0 {
        0
    } else {
        byte_length(text.drop_last()) + utf8_width(text.last())
    }
}

/// The length in bytes of the text that `chars` holds.
pub fn byte_count(chars: &Vec<char>) -> (count: u128)
    ensures
        count == byte_length(chars@),
{
    let mut count: u128 = 0;
    let mut at: usize = 0;
    while at < chars.len()
        invariant
            at <= chars@.len(),
            count == byte_length(chars@.take(at as int)),
            count <= 4 * at,
        decreases chars.len() - at,
    {
        let code: u32 = chars[at] as u32;
        let width: u128 = if code < 0x80 {
            1
        } else if code < 0x800 {
            2
        } else if code < 0x1_0000 {
            3
        } else {
            4
        };
        proof {
            assert(chars@.take(at + 1).drop_last() =~= chars@.take(at as int));
        }
        count = count + width;
        at += 1;
    }
    assert(chars@.take(at as int) =~= chars@);
    count
}

/// The characters of `text`, in order.
pub fn characters(text: &str) -> (chars: Vec<char>)
    ensures
        chars@ == text@,
{
    let mut chars: Vec<char> = Vec::new();
    for c in iter: text.chars()
        invariant
            chars@ == iter.history(),
    {
        chars.push(c);
    }
    chars
}

/// The string of the characters of `chars` but the one at `index`.
pub(crate) fn without(chars: &Vec<char>, index: usize) -> (rest: String)
    requires
        index < chars@.len(),
    ensures
        rest@ == chars@.remove(index as int),
{
    let mut rest = String::new();
    let mut at: usize = 0;
    while at < chars.len()
        invariant
            index < chars@.len(),
            at <= chars@.len(),
            at <= index ==> rest@ == chars@.take(at as int),
            at > index ==> rest@ == chars@.remove(index as int).take(at - 1),
        decreases chars.len() - at,
    {
        if at != index {
            rest.push(chars[at]);
        }
        at += 1;
        proof {
            let whole = chars@;
            let removed = whole.remove(index as int);
            if at <= index {
            } else if at == index + 1 {
            } else {
            }
        }
    }
    rest
}

} // verus!
