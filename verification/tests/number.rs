use mage_rs::{
    decode_number, validate_binary_number, validate_decimal_number, validate_hex_number,
    validate_octal_number, Error, ValidationError,
};

fn cannot_decode(token: &str) -> Result<i64, Error> {
    Err(Error::CompileError(format!("Error: Cannot decode number {}.", token)))
}

fn invalid(token: &str) -> Result<(), ValidationError> {
    Err(ValidationError::InvalidNumberFormat(token.to_string()))
}

#[test]
fn bare_zero_decodes_to_zero() {
    assert_eq!(decode_number("0"), Ok(0));
}

#[test]
fn each_radix_decodes() {
    assert_eq!(decode_number("0b1010"), Ok(10));
    assert_eq!(decode_number("0o17"), Ok(15));
    assert_eq!(decode_number("0d42"), Ok(42));
    assert_eq!(decode_number("0xFF"), Ok(255));
    assert_eq!(decode_number("0d10"), Ok(10));
    assert_eq!(decode_number("0d0"), Ok(0));
    assert_eq!(decode_number("0x0000"), Ok(0));
    assert_eq!(decode_number("0xdeadBEEF"), Ok(0xdead_beef));
}

#[test]
fn prefix_letter_may_be_upper_case() {
    assert_eq!(decode_number("0B1010"), Ok(10));
    assert_eq!(decode_number("0O17"), Ok(15));
    assert_eq!(decode_number("0D42"), Ok(42));
    assert_eq!(decode_number("0Xff"), Ok(255));
}

#[test]
fn tokens_of_no_accepted_form_are_refused() {
    for token in [
        "", "1", "42", "00", "0b", "0o", "0d", "0x", "0b2", "0o8", "0d1a", "0xg", "0z12", "b101",
        "0b 1", "-0d1", "0d-1", "0d+1", "0é1", "é",
    ] {
        assert_eq!(decode_number(token), cannot_decode(token), "{:?}", token);
    }
}

#[test]
fn largest_value_fits_and_the_next_does_not() {
    assert_eq!(decode_number("0x7fffffffffffffff"), Ok(i64::MAX));
    assert_eq!(decode_number("0d9223372036854775807"), Ok(i64::MAX));
    assert_eq!(decode_number("0x8000000000000000"), cannot_decode("0x8000000000000000"));
    assert_eq!(decode_number("0d9223372036854775808"), cannot_decode("0d9223372036854775808"));
    assert_eq!(
        decode_number("0d99999999999999999999999999"),
        cannot_decode("0d99999999999999999999999999")
    );
    assert_eq!(
        decode_number("0b111111111111111111111111111111111111111111111111111111111111111"),
        Ok(i64::MAX)
    );
}

#[test]
fn binary_digits_are_validated() {
    assert_eq!(validate_binary_number("0b1010"), Ok(()));
    assert_eq!(validate_binary_number("0B0"), Ok(()));
    assert_eq!(validate_binary_number("0b"), invalid("0b"));
    assert_eq!(validate_binary_number("0b102"), invalid("0b102"));
    assert_eq!(validate_binary_number(""), invalid(""));
}

#[test]
fn octal_digits_are_validated() {
    assert_eq!(validate_octal_number("0o17"), Ok(()));
    assert_eq!(validate_octal_number("0o"), invalid("0o"));
    assert_eq!(validate_octal_number("0o18"), invalid("0o18"));
}

#[test]
fn decimal_digits_are_validated() {
    assert_eq!(validate_decimal_number("0d42"), Ok(()));
    assert_eq!(validate_decimal_number("0d"), invalid("0d"));
    assert_eq!(validate_decimal_number("0d4a"), invalid("0d4a"));
}

#[test]
fn hexadecimal_digits_are_validated() {
    assert_eq!(validate_hex_number("0xFf09"), Ok(()));
    assert_eq!(validate_hex_number("0x"), invalid("0x"));
    assert_eq!(validate_hex_number("0xfg"), invalid("0xfg"));
    assert_eq!(validate_hex_number("0xfé"), invalid("0xfé"));
}
