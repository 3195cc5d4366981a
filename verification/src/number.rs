//! Number tokens: the forms that are accepted, and the value that each
//! stands for. A token is read byte by byte: `0`, or `0` and a radix letter
//! (`b`, `o`, `d` or `x`, in either case) followed by at least one digit of
//! that radix.

use crate::general::{Error, ValidationError};
use vstd::prelude::*;
use vstd::string::{StringExecFns, StringSliceAdditionalSpecFns};

verus! {

/// The start of the message for a token that cannot be decoded; the token follows.
pub const CANNOT_DECODE: &'static str = "Error: Cannot decode number ";

/// The end of a message that names something.
pub const FULL_STOP: &'static str = ".";

/// What a byte is worth as a digit: 0 to 9 for `0` to `9`, 10 to 15 for `a`
/// to `f` in either case, and 16, which is a digit of no radix, for any
/// other byte.
pub open spec fn spec_digit_value(byte: u8) -> nat {
    if 0x30 <= byte <= 0x39 {
        (byte - 0x30) as nat
    } else if 0x61 <= byte <= 0x66 {
        (byte - 0x61 + 10) as nat
    } else if 0x41 <= byte <= 0x46 {
        (byte - 0x41 + 10) as nat
    } else {
        16
    }
}

/// What a byte is worth as a digit.
pub fn digit_value(byte: u8) -> (value: u8)
    ensures
        value == spec_digit_value(byte),
{
    if 0x30 <= byte && byte <= 0x39 {
        byte - 0x30
    } else if 0x61 <= byte && byte <= 0x66 {
        byte - 0x61 + 10
    } else if 0x41 <= byte && byte <= 0x46 {
        byte - 0x41 + 10
    } else {
        16
    }
}

/// The radix that a prefix letter stands for.
pub open spec fn spec_radix_of(letter: u8) -> Option<nat> {
    if letter == 0x62 || letter == 0x42 {
        Some(2)
    } else if letter == 0x6f || letter == 0x4f {
        Some(8)
    } else if letter == 0x64 || letter == 0x44 {
        Some(10)
    } else if letter == 0x78 || letter == 0x58 {
        Some(16)
    } else {
        None
    }
}

/// The radix that a prefix letter stands for: `b` 2, `o` 8, `d` 10, `x` 16,
/// in either case.
pub fn radix_of(letter: u8) -> (radix: Option<u8>)
    ensures
        match radix {
            Some(radix) => spec_radix_of(letter) == Some(radix as nat),
            None => spec_radix_of(letter) is None,
        },
{
    if letter == 0x62 || letter == 0x42 {
        Some(2)
    } else if letter == 0x6f || letter == 0x4f {
        Some(8)
    } else if letter == 0x64 || letter == 0x44 {
        Some(10)
    } else if letter == 0x78 || letter == 0x58 {
        Some(16)
    } else {
        None
    }
}

/// Whether a token is longer than its prefix and holds, after the two bytes
/// of the prefix, only digits of `radix`.
pub open spec fn digits_follow(token: Seq<u8>, radix: nat) -> bool {
    &&& token.len() > 2
    &&& forall|i: int| 2 <= i < token.len() ==> spec_digit_value(#[trigger] token[i]) < radix
}

/// The value of a row of digits in a radix, the first digit weighing most.
pub open spec fn digits_value(digits: Seq<u8>, radix: nat) -> nat
    decreases digits.len(),
{
    if digits.len() == 0 {
        0
    } else {
        digits_value(digits.drop_last(), radix) * radix + spec_digit_value(digits.last())
    }
}

/// The value that a number token stands for, where it is of an accepted
/// form: 0 for the bare token `0`; for `0`, a radix letter and digits of
/// that radix, the value of the digits.
pub open spec fn number_value(token: Seq<u8>) -> Option<nat> {
    if token.len() == 1 && token[0] == 0x30 {
        Some(0)
    } else if token.len() > 2 && token[0] == 0x30 && spec_radix_of(token[1]) is Some
        && digits_follow(token, spec_radix_of(token[1])->0) {
        Some(digits_value(token.skip(2), spec_radix_of(token[1])->0))
    } else {
        None
    }
}

/// The message of the error for a token that cannot be decoded.
pub open spec fn cannot_decode_message(token: Seq<char>) -> Seq<char> {
    CANNOT_DECODE@ + token + FULL_STOP@
}

/// A row of digits is worth at least as much as any row that it begins with.
pub proof fn lemma_digits_value_grows(digits: Seq<u8>, radix: nat, length: int)
    requires
        radix >= 1,
        0 <= length <= digits.len(),
    ensures
        digits_value(digits.take(length), radix) <= digits_value(digits, radix),
    decreases digits.len(),
{
    if length == digits.len() {
        assert(digits.take(length) =~= digits);
    } else {
        let shorter = digits.drop_last();
        lemma_digits_value_grows(shorter, radix, length);
        assert(shorter.take(length) =~= digits.take(length));
        assert(digits_value(shorter, radix) * radix >= digits_value(shorter, radix))
            by (nonlinear_arith)
            requires
                radix >= 1,
        ;
    }
}

/// The error for a token that cannot be decoded.
fn cannot_decode(token: &str) -> (error: Error)
    ensures
        error.is_compile(cannot_decode_message(token@)),
{
    let mut message = String::from_str(CANNOT_DECODE);
    message.append(token);
    message.append(FULL_STOP);
    Error::CompileError(message)
}

/// Decodes a number token. It fails for a token that is of no accepted
/// form, and for one whose value does not fit.
pub fn decode_number(token: &str) -> (result: Result<i64, Error>)
    ensures
        match number_value(token.spec_bytes()) {
            Some(value) if value <= i64::MAX => result == Ok::<i64, Error>(value as i64),
            _ => result matches Err(error) && error.is_compile(cannot_decode_message(token@)),
        },
{
    let bytes = token.as_bytes();
    let length = bytes.len();
    if length == 1 && bytes[0] == 0x30 {
        return Ok(0);
    }
    if length <= 2 || bytes[0] != 0x30 {
        return Err(cannot_decode(token));
    }
    let radix = match radix_of(bytes[1]) {
        Some(radix) => radix,
        None => {
            return Err(cannot_decode(token));
        },
    };
    let ghost digits = bytes@.skip(2);
    let mut value: i64 = 0;
    let mut i: usize = 2;
    while i < length
        invariant
            2 <= i <= length,
            length == bytes@.len(),
            bytes@ == token.spec_bytes(),
            digits == bytes@.skip(2),
            spec_radix_of(bytes@[1]) == Some(radix as nat),
            2 <= radix <= 16,
            forall|j: int| 2 <= j < i ==> spec_digit_value(#[trigger] bytes@[j]) < radix,
            0 <= value,
            value == digits_value(digits.take(i - 2), radix as nat),
        decreases length - i,
    {
        let digit = digit_value(bytes[i]);
        if digit >= radix {
            return Err(cannot_decode(token));
        }
        assert(digits.take(i - 1).drop_last() =~= digits.take(i - 2));
        assert(digits.take(i - 1).last() == bytes@[i as int]);
        proof {
            lemma_digits_value_grows(digits, radix as nat, i - 1);
        }
        let scaled = match value.checked_mul(radix as i64) {
            Some(scaled) => scaled,
            None => {
                return Err(cannot_decode(token));
            },
        };
        value = match scaled.checked_add(digit as i64) {
            Some(sum) => sum,
            None => {
                return Err(cannot_decode(token));
            },
        };
        i += 1;
    }
    assert(digits.take(length - 2) =~= digits);
    Ok(value)
}

/// An invalid-format error that carries the token.
fn invalid_number(number: &str) -> (error: ValidationError)
    ensures
        error matches ValidationError::InvalidNumberFormat(text) && text@ == number@,
{
    ValidationError::InvalidNumberFormat(number.to_owned())
}

/// Whether `result` refuses `number` as ill-formed.
pub open spec fn refuses_number(result: Result<(), ValidationError>, number: Seq<char>) -> bool {
    result matches Err(ValidationError::InvalidNumberFormat(text)) && text@ == number
}

/// Checks that a token holds, after the two bytes of its prefix, at least
/// one digit, and only digits of `radix`.
fn validate_digits(number: &str, radix: u8) -> (result: Result<(), ValidationError>)
    ensures
        digits_follow(number.spec_bytes(), radix as nat) ==> result is Ok,
        !digits_follow(number.spec_bytes(), radix as nat) ==> refuses_number(result, number@),
{
    let bytes = number.as_bytes();
    let length = bytes.len();
    if length <= 2 {
        return Err(invalid_number(number));
    }
    let mut i: usize = 2;
    while i < length
        invariant
            2 <= i <= length,
            length == bytes@.len(),
            bytes@ == number.spec_bytes(),
            forall|j: int| 2 <= j < i ==> spec_digit_value(#[trigger] bytes@[j]) < radix,
        decreases length - i,
    {
        if digit_value(bytes[i]) >= radix {
            return Err(invalid_number(number));
        }
        i += 1;
    }
    Ok(())
}

/// Accepts a token that holds binary digits after its prefix.
pub fn validate_binary_number(number: &str) -> (result: Result<(), ValidationError>)
    ensures
        digits_follow(number.spec_bytes(), 2) ==> result is Ok,
        !digits_follow(number.spec_bytes(), 2) ==> refuses_number(result, number@),
{
    validate_digits(number, 2)
}

/// Accepts a token that holds octal digits after its prefix.
pub fn validate_octal_number(number: &str) -> (result: Result<(), ValidationError>)
    ensures
        digits_follow(number.spec_bytes(), 8) ==> result is Ok,
        !digits_follow(number.spec_bytes(), 8) ==> refuses_number(result, number@),
{
    validate_digits(number, 8)
}

/// Accepts a token that holds decimal digits after its prefix.
pub fn validate_decimal_number(number: &str) -> (result: Result<(), ValidationError>)
    ensures
        digits_follow(number.spec_bytes(), 10) ==> result is Ok,
        !digits_follow(number.spec_bytes(), 10) ==> refuses_number(result, number@),
{
    validate_digits(number, 10)
}

/// Accepts a token that holds hexadecimal digits after its prefix.
pub fn validate_hex_number(number: &str) -> (result: Result<(), ValidationError>)
    ensures
        digits_follow(number.spec_bytes(), 16) ==> result is Ok,
        !digits_follow(number.spec_bytes(), 16) ==> refuses_number(result, number@),
{
    validate_digits(number, 16)
}

} // verus!
