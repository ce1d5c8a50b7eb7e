//! Arbitrary-precision signed integers.
//!
//! An [`Integer`] holds its value as two's-complement bytes; the arithmetic
//! itself is done by `num`'s `BigInt`.

use num::BigInt;
use num::ToPrimitive;
use vstd::prelude::*;

verus! {

/// The natural number that `bytes` spell in base 256, least significant
/// byte first.
pub open spec fn unsigned_value(bytes: Seq<u8>) -> nat
    decreases bytes.len(),
{
    if bytes.len() == 0 {
        0
    } else {
        bytes[0] as nat + 256 * unsigned_value(bytes.drop_first())
    }
}

/// 256 to the power `exponent`.
pub open spec fn radix_power(exponent: nat) -> nat
    decreases exponent,
{
    if exponent == 0 {
        1
    } else {
        256 * radix_power((exponent - 1) as nat)
    }
}

/// The integer that `bytes` spell in two's complement, least significant
/// byte first: the top bit of the last byte is the sign. No bytes spell 0.
pub open spec fn signed_value(bytes: Seq<u8>) -> int {
    if bytes.len() > 0 && bytes.last() >= 0x80 {
        unsigned_value(bytes) - radix_power(bytes.len())
    } else {
        unsigned_value(bytes) as int
    }
}

/// Division that rounds toward zero; meant for `divisor != 0`.
pub open spec fn truncated_quotient(dividend: int, divisor: int) -> int {
    let magnitude = (if dividend < 0 {
        -dividend
    } else {
        dividend
    }) / (if divisor < 0 {
        -divisor
    } else {
        divisor
    });
    if (dividend < 0) != (divisor < 0) {
        -magnitude
    } else {
        magnitude
    }
}

/// The character of the decimal digit `digit`, for `digit < 10`.
pub open spec fn digit_char(digit: nat) -> char {
    if digit == 0 {
        '0'
    } else if digit == 1 {
        '1'
    } else if digit == 2 {
        '2'
    } else if digit == 3 {
        '3'
    } else if digit == 4 {
        '4'
    } else if digit == 5 {
        '5'
    } else if digit == 6 {
        '6'
    } else if digit == 7 {
        '7'
    } else if digit == 8 {
        '8'
    } else {
        '9'
    }
}

/// The decimal digits of `n`, most significant first, without leading zeros
/// (`0` itself is one digit).
pub open spec fn decimal_digits(n: nat) -> Seq<char>
    decreases n,
{
    if n < 10 {
        seq![digit_char(n)]
    } else {
        decimal_digits(n / 10).push(digit_char(n % 10))
    }
}

/// The decimal text of `i`: its digits, after a `-` if it is negative.
pub open spec fn decimal_text(i: int) -> Seq<char> {
    if i < 0 {
        seq!['-'] + decimal_digits((-i) as nat)
    } else {
        decimal_digits(i as nat)
    }
}

/// Appending a byte adds it at the next power of 256.
pub proof fn lemma_unsigned_value_push(bytes: Seq<u8>, byte: u8)
    ensures
        unsigned_value(bytes.push(byte)) == unsigned_value(bytes) + byte * radix_power(
            bytes.len(),
        ),
    decreases bytes.len(),
{
    let longer = bytes.push(byte);
    if bytes.len() == 0 {
        assert(unsigned_value(longer.drop_first()) == 0);
        assert(radix_power(0) == 1);
    } else {
        let tail = bytes.drop_first();
        let weight = radix_power(tail.len()) as int;
        lemma_unsigned_value_push(tail, byte);
        assert(longer.drop_first() =~= tail.push(byte));
        assert(256 * (unsigned_value(tail) + byte * weight) == 256 * unsigned_value(tail) + byte
            * (256 * weight)) by (nonlinear_arith);
    }
}

/// An arbitrary-precision signed integer.
///
/// The view is the value, a mathematical integer. The value is held as its
/// bytes in two's complement, least significant first; every sequence of
/// bytes spells a value, and one value may be spelled by several.
#[derive(Debug)]
pub struct Integer {
    bytes: Vec<u8>,
}

impl View for Integer {
    type V = int;

    closed spec fn view(&self) -> int {
        signed_value(self.bytes@)
    }
}

impl Clone for Integer {
    fn clone(&self) -> (copy: Integer)
        ensures
            copy@ == self@,
    {
        let copy = Integer { bytes: self.bytes.clone() };
        copy
    }
}

impl Integer {
    /// The integer 0.
    pub fn zero() -> (zero: Integer)
        ensures
            zero@ == 0,
    {
        Integer { bytes: Vec::new() }
    }

    /// The integer `digit`, for a byte below 128.
    pub(crate) fn small(digit: u8) -> (value: Integer)
        requires
            digit < 0x80,
        ensures
            value@ == digit,
    {
        let mut bytes: Vec<u8> = Vec::new();
        bytes.push(digit);
        proof {
            lemma_unsigned_value_push(Seq::<u8>::empty(), digit);
            assert(digit * radix_power(0) == digit) by (nonlinear_arith)
                requires
                    radix_power(0) == 1,
            ;
        }
        Integer { bytes }
    }

    /// The integer `n`.
    pub fn from_usize(n: usize) -> (value: Integer)
        ensures
            value@ == n,
    {
        Integer::from_u128(n as u128)
    }

    /// The integer `n`.
    pub fn from_u128(n: u128) -> (value: Integer)
        ensures
            value@ == n,
    {
        let mut bytes: Vec<u8> = Vec::new();
        let mut rest: u128 = n;
        proof {
            assert(radix_power(0) == 1);
            assert(unsigned_value(bytes@) == 0);
        }
        while rest > 0
            invariant
                unsigned_value(bytes@) + rest * radix_power(bytes@.len()) == n,
            decreases rest,
        {
            let byte: u8 = (rest % 256) as u8;
            proof {
                let weight = radix_power(bytes@.len());
                lemma_unsigned_value_push(bytes@, byte);
                assert((rest % 256) * weight + (rest / 256) * (256 * weight) == rest * weight)
                    by (nonlinear_arith)
                    requires
                        rest == 256 * (rest / 256) + rest % 256,
                ;
            }
            bytes.push(byte);
            rest = rest / 256;
        }
        proof {
            lemma_unsigned_value_push(bytes@, 0);
        }
        bytes.push(0);
        Integer { bytes }
    }

    /// The sum of the two values, by `num`: both go to a `BigInt` through
    /// `BigInt::from_signed_bytes_le`, `+` of `BigInt` adds them, and the
    /// result comes back through `BigInt::to_signed_bytes_le`. The contract
    /// claims that the two conversions keep the value that the bytes spell in
    /// two's complement, and that `+` gives the mathematical sum.
    #[verifier::external_body]
    pub(crate) fn sum(&self, other: &Integer) -> (result: Integer)
        ensures
            result@ == self@ + other@,
    {
        let big = BigInt::from_signed_bytes_le(&self.bytes) + BigInt::from_signed_bytes_le(
            &other.bytes,
        );
        Integer { bytes: big.to_signed_bytes_le() }
    }

    /// The difference of the two values, by `num`: both go to a `BigInt`
    /// through `BigInt::from_signed_bytes_le`, `-` of `BigInt` subtracts, and
    /// the result comes back through `BigInt::to_signed_bytes_le`. The
    /// contract claims that the conversions keep the value, and that `-`
    /// gives the mathematical difference.
    #[verifier::external_body]
    pub(crate) fn difference(&self, other: &Integer) -> (result: Integer)
        ensures
            result@ == self@ - other@,
    {
        let big = BigInt::from_signed_bytes_le(&self.bytes) - BigInt::from_signed_bytes_le(
            &other.bytes,
        );
        Integer { bytes: big.to_signed_bytes_le() }
    }

    /// The product of the two values, by `num`: both go to a `BigInt`
    /// through `BigInt::from_signed_bytes_le`, `*` of `BigInt` multiplies,
    /// and the result comes back through `BigInt::to_signed_bytes_le`. The
    /// contract claims that the conversions keep the value, and that `*`
    /// gives the mathematical product.
    #[verifier::external_body]
    pub(crate) fn product(&self, other: &Integer) -> (result: Integer)
        ensures
            result@ == self@ * other@,
    {
        let big = BigInt::from_signed_bytes_le(&self.bytes) * BigInt::from_signed_bytes_le(
            &other.bytes,
        );
        Integer { bytes: big.to_signed_bytes_le() }
    }

    /// The quotient of the two values, by `num`: both go to a `BigInt`
    /// through `BigInt::from_signed_bytes_le`, `/` of `BigInt` divides, and
    /// the result comes back through `BigInt::to_signed_bytes_le`. `/` panics
    /// on a divisor of 0, which the contract leaves out. It claims that the
    /// conversions keep the value, and that `/` gives the quotient rounded
    /// toward zero.
    #[verifier::external_body]
    pub(crate) fn quotient(&self, divisor: &Integer) -> (result: Integer)
        requires
            divisor@ != 0,
        ensures
            result@ == truncated_quotient(self@, divisor@),
    {
        let big = BigInt::from_signed_bytes_le(&self.bytes) / BigInt::from_signed_bytes_le(
            &divisor.bytes,
        );
        Integer { bytes: big.to_signed_bytes_le() }
    }

    /// Whether the first value is below the second, by `num`: both go to a
    /// `BigInt` through `BigInt::from_signed_bytes_le`, and `<` of `BigInt`
    /// compares them. The contract claims that the conversion keeps the
    /// value, and that `<` orders as the mathematical integers are ordered.
    #[verifier::external_body]
    pub(crate) fn less_than(&self, other: &Integer) -> (less: bool)
        ensures
            less == (self@ < other@),
    {
        BigInt::from_signed_bytes_le(&self.bytes) < BigInt::from_signed_bytes_le(&other.bytes)
    }

    /// Whether the two values are equal, by `num`: both go to a `BigInt`
    /// through `BigInt::from_signed_bytes_le`, and `==` of `BigInt` compares
    /// them. The contract claims that the conversion keeps the value, and
    /// that `==` holds exactly of equal integers, whatever bytes spelled
    /// them.
    #[verifier::external_body]
    pub(crate) fn same_value(&self, other: &Integer) -> (same: bool)
        ensures
            same == (self@ == other@),
    {
        BigInt::from_signed_bytes_le(&self.bytes) == BigInt::from_signed_bytes_le(&other.bytes)
    }

    /// The value as a `usize`, by `num`: it goes to a `BigInt` through
    /// `BigInt::from_signed_bytes_le`, and `ToPrimitive::to_usize` converts
    /// it. The contract claims that the conversion keeps the value, and that
    /// `to_usize` returns it where a `usize` can hold it, and `None` where it
    /// is negative or too large.
    #[verifier::external_body]
    pub(crate) fn to_index(&self) -> (index: Option<usize>)
        ensures
            index == (if 0 <= self@ <= usize::MAX {
                Some(self@ as usize)
            } else {
                None
            }),
    {
        BigInt::from_signed_bytes_le(&self.bytes).to_usize()
    }

    /// The decimal text of the value, by `num`: it goes to a `BigInt`
    /// through `BigInt::from_signed_bytes_le`, and `to_string` formats it as
    /// `BigInt` displays it. The contract claims that the conversion keeps
    /// the value, and that the text is the decimal digits without leading
    /// zeros, after a `-` for a negative value.
    #[verifier::external_body]
    pub(crate) fn decimal(&self) -> (text: String)
        ensures
            text@ == decimal_text(self@),
    {
        BigInt::from_signed_bytes_le(&self.bytes).to_string()
    }
}

} // verus!
