//! Colours as they are written in options: `#rrggbb` or `0xrrggbb`.

use vstd::prelude::*;
use vstd::string::{StrSliceExecFns, StringExecFns};
use vstd::utf8::{encode_utf8, is_ascii_chars, is_ascii_chars_encode_utf8};
use std::num::ParseIntError;
use crate::config::ConfigError;

verus! {

/// The error of the standard library's integer parsing.
#[verifier::external_type_specification]
#[verifier::external_body]
pub struct ExParseIntError(ParseIntError);

/// Why a text is not a colour.
#[derive(Debug)]
pub enum Error {
    /// The digits do not take six bytes.
    InvalidLength,
    /// The text starts neither with `#` nor with `0x`.
    InvalidPrefix,
    /// The digits are no hexadecimal number.
    ParseInt(ParseIntError),
}

/// The text of the standard library for an error of its integer parsing:
/// what `to_string` gives. Nothing is claimed of the text.
#[verifier::external_body]
fn parse_error_text(err: &ParseIntError) -> (text: String) {
    err.to_string()
}

impl Error {
    /// What the user is told of the error. For `ParseInt` the text ends
    /// with what the standard library says of its error.
    pub fn message(&self) -> (out: String)
        ensures
            self is InvalidLength ==> out@ == "invalid length, color must have exactly 6 digits"@,
            self is InvalidPrefix ==> out@
                == "invalid color prefix, must start with '#' or '0x'"@,
            self is ParseInt ==> exists|detail: Seq<char>| out@ == "parse error: "@ + detail,
    {
        match self {
            Error::InvalidLength => String::from_str(
                "invalid length, color must have exactly 6 digits",
            ),
            Error::InvalidPrefix => String::from_str(
                "invalid color prefix, must start with '#' or '0x'",
            ),
            Error::ParseInt(err) => {
                let detail = parse_error_text(err);
                let mut out = String::from_str("parse error: ");
                out.append(detail.as_str());
                out
            },
        }
    }
}

/// `c` is one of `0-9`, `a-f`, `A-F`.
pub open spec fn is_hex_digit(c: char) -> bool {
    ||| '0' <= c <= '9'
    ||| 'a' <= c <= 'f'
    ||| 'A' <= c <= 'F'
}

/// The value of a hexadecimal digit.
pub open spec fn hex_digit_value(c: char) -> int {
    if '0' <= c <= '9' {
        c as int - '0' as int
    } else if 'a' <= c <= 'f' {
        c as int - 'a' as int + 10
    } else {
        c as int - 'A' as int + 10
    }
}

/// The number that the hexadecimal digits write, the first digit being the
/// most significant.
pub open spec fn hex_value(digits: Seq<char>) -> int
    decreases digits.len(),
{
    if digits.len() == 0 {
        0
    } else {
        16 * hex_value(digits.drop_last()) + hex_digit_value(digits.last())
    }
}

/// The text without a plus sign at its start.
pub open spec fn unsigned(text: Seq<char>) -> Seq<char> {
    if text.len() > 0 && text[0] == '+' {
        text.skip(1)
    } else {
        text
    }
}

/// The text writes a hexadecimal number that fits 32 bits: a plus sign or
/// none, then at least one digit and nothing but digits.
pub open spec fn is_hex_number(text: Seq<char>) -> bool {
    let digits = unsigned(text);
    &&& digits.len() > 0
    &&& forall|i: int| 0 <= i < digits.len() ==> is_hex_digit(#[trigger] digits[i])
    &&& hex_value(digits) <= u32::MAX
}

/// `u32::from_str_radix` of the standard library, for radix 16: the text
/// is parsed if and only if it is a plus sign or none followed by one or
/// more of the digits `0-9`, `a-f`, `A-F` whose value fits 32 bits, and
/// the result is that value.
pub assume_specification[ <u32>::from_str_radix ](src: &str, radix: u32) -> (out: Result<
    u32,
    ParseIntError,
>)
    requires
        radix == 16,
    ensures
        out is Ok <==> is_hex_number(src@),
        out is Ok ==> out->Ok_0 == hex_value(unsigned(src@)),
;

/// The text after the prefix `0x` or `#`, if it has one of them.
pub open spec fn after_prefix(text: Seq<char>) -> Option<Seq<char>> {
    if text.len() >= 2 && text[0] == '0' && text[1] == 'x' {
        Some(text.skip(2))
    } else if text.len() >= 1 && text[0] == '#' {
        Some(text.skip(1))
    } else {
        None
    }
}

/// Number of bytes that the text takes in UTF-8.
pub open spec fn byte_len(text: Seq<char>) -> nat {
    encode_utf8(text).len()
}

/// A hexadecimal number takes one byte for each of its characters: where
/// it takes six bytes, it has six characters, the sign counted.
pub proof fn hex_number_takes_a_byte_each(text: Seq<char>)
    requires
        is_hex_number(text),
    ensures
        byte_len(text) == text.len(),
{
    let digits = unsigned(text);
    assert forall|i: int| 0 <= i < text.len() implies '\0' <= #[trigger] text[i] <= '\u{7f}' by {
        if text[0] == '+' {
            if i > 0 {
                assert(is_hex_digit(digits[i - 1]));
            }
        } else {
            assert(is_hex_digit(digits[i]));
        }
    }
    assert(is_ascii_chars(text));
    is_ascii_chars_encode_utf8(text);
}

/// A number of six hexadecimal digits is below two to the power of 24: a
/// colour parsed from six digits has an empty alpha channel.
pub proof fn six_digits_leave_alpha_empty(digits: Seq<char>)
    requires
        digits.len() <= 6,
        forall|i: int| 0 <= i < digits.len() ==> is_hex_digit(#[trigger] digits[i]),
    ensures
        0 <= hex_value(digits) < 0x100_0000,
{
    lemma_hex_value_bound(digits);
}

/// The value of `n` hexadecimal digits is below 16 to the power of `n`,
/// given for up to six digits.
proof fn lemma_hex_value_bound(digits: Seq<char>)
    requires
        digits.len() <= 6,
        forall|i: int| 0 <= i < digits.len() ==> is_hex_digit(#[trigger] digits[i]),
    ensures
        digits.len() == 0 ==> hex_value(digits) == 0,
        digits.len() == 1 ==> 0 <= hex_value(digits) < 0x10,
        digits.len() == 2 ==> 0 <= hex_value(digits) < 0x100,
        digits.len() == 3 ==> 0 <= hex_value(digits) < 0x1000,
        digits.len() == 4 ==> 0 <= hex_value(digits) < 0x1_0000,
        digits.len() == 5 ==> 0 <= hex_value(digits) < 0x10_0000,
        digits.len() == 6 ==> 0 <= hex_value(digits) < 0x100_0000,
    decreases digits.len(),
{
    if digits.len() > 0 {
        let head = digits.drop_last();
        assert forall|i: int| 0 <= i < head.len() implies is_hex_digit(#[trigger] head[i]) by {
            assert(head[i] == digits[i]);
        }
        lemma_hex_value_bound(head);
        assert(is_hex_digit(digits[digits.len() - 1]));
        assert(0 <= hex_digit_value(digits.last()) < 16);
    }
}

/// Parses a colour written as `#rrggbb` or `0xrrggbb`.
///
/// The text must start with `0x` or `#`, else the error is
/// `InvalidPrefix`. What follows must take six bytes, else the error is
/// `InvalidLength`; and it must be a hexadecimal number, else the error is
/// `ParseInt`. The result is the value of that number.
pub fn from_str(s: &str) -> (out: Result<u32, ConfigError>)
    ensures
        match after_prefix(s@) {
            None => out matches Err(ConfigError::Color(Error::InvalidPrefix)),
            Some(digits) => if byte_len(digits) != 6 {
                out matches Err(ConfigError::Color(Error::InvalidLength))
            } else if !is_hex_number(digits) {
                out matches Err(ConfigError::Color(Error::ParseInt(_)))
            } else {
                out matches Ok(color) && color == hex_value(unsigned(digits))
            },
        },
{
    let len = s.unicode_len();
    let digits = if len >= 2 && s.get_char(0) == '0' && s.get_char(1) == 'x' {
        s.substring_char(2, len)
    } else if len >= 1 && s.get_char(0) == '#' {
        s.substring_char(1, len)
    } else {
        return Err(ConfigError::Color(Error::InvalidPrefix));
    };
    assert(digits@ =~= after_prefix(s@)->0);
    if digits.as_bytes().len() != 6 {
        return Err(ConfigError::Color(Error::InvalidLength));
    }
    match u32::from_str_radix(digits, 16) {
        Ok(number) => Ok(number),
        Err(err) => Err(ConfigError::Color(Error::ParseInt(err))),
    }
}

} // verus!
