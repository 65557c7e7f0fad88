use waylock::config::color::{from_str, Error};
use waylock::config::ConfigError;

#[test]
fn no_prefix_6_digit() {
    assert!(matches!(from_str("01abEF"), Err(ConfigError::Color(Error::InvalidPrefix))));
}

#[test]
fn binary_prefix_6_digit() {
    assert!(matches!(from_str("0b01abEF"), Err(ConfigError::Color(Error::InvalidPrefix))));
}

#[test]
fn alphabetic_prefix_6_digit() {
    assert!(matches!(from_str("a01abEF"), Err(ConfigError::Color(Error::InvalidPrefix))));
}

#[test]
fn octothorpe_6_digit() {
    assert!(matches!(from_str("#01abEF"), Ok(_)));
}

#[test]
fn octothorpe_short() {
    assert!(matches!(from_str("#01234"), Err(ConfigError::Color(Error::InvalidLength))));
}

#[test]
fn octothorpe_long() {
    assert!(matches!(from_str("#01234567"), Err(ConfigError::Color(Error::InvalidLength))));
}

#[test]
fn octothorpe_invalid_digit() {
    assert!(matches!(from_str("#012z45"), Err(ConfigError::Color(Error::ParseInt(_)))));
}

#[test]
fn hex_6_digit() {
    assert!(matches!(from_str("0x01abEF"), Ok(_)));
}

#[test]
fn hex_short() {
    assert!(matches!(from_str("0x01234"), Err(ConfigError::Color(Error::InvalidLength))));
}

#[test]
fn hex_long() {
    assert!(matches!(from_str("0x01234567"), Err(ConfigError::Color(Error::InvalidLength))));
}

#[test]
fn hex_invalid_digit() {
    assert!(matches!(from_str("0x012z45"), Err(ConfigError::Color(Error::ParseInt(_)))));
}

#[test]
fn value_of_six_digits() {
    assert_eq!(from_str("#01abEF").unwrap(), 0x01abef);
    assert_eq!(from_str("0xffffff").unwrap(), 0xffffff);
    assert_eq!(from_str("#000000").unwrap(), 0);
}

#[test]
fn plus_sign_counts_as_one_of_the_six() {
    assert_eq!(from_str("#+12345").unwrap(), 0x12345);
    assert!(matches!(from_str("#-12345"), Err(ConfigError::Color(Error::ParseInt(_)))));
}

#[test]
fn length_is_counted_in_bytes() {
    assert!(matches!(from_str("#\u{e9}1234"), Err(ConfigError::Color(Error::ParseInt(_)))));
    assert!(matches!(from_str("#\u{e9}12345"), Err(ConfigError::Color(Error::InvalidLength))));
}

#[test]
fn empty_text_has_no_prefix() {
    assert!(matches!(from_str(""), Err(ConfigError::Color(Error::InvalidPrefix))));
    assert!(matches!(from_str("0"), Err(ConfigError::Color(Error::InvalidPrefix))));
    assert!(matches!(from_str("#"), Err(ConfigError::Color(Error::InvalidLength))));
}

#[test]
fn digits_are_plain_hexadecimal() {
    for text in ["#++1234", "#00000+", "# 12345", "#12_345", "#0x1234", "#12345g", "#12345G"] {
        assert!(
            matches!(from_str(text), Err(ConfigError::Color(Error::ParseInt(_)))),
            "{}",
            text
        );
    }
    assert_eq!(from_str("#ABCDEF").unwrap(), 0xabcdef);
    assert_eq!(from_str("#abcdef").unwrap(), 0xabcdef);
    assert_eq!(from_str("0x+00001").unwrap(), 1);
}

#[test]
fn prefix_is_taken_once() {
    assert!(matches!(from_str("0X01abEF"), Err(ConfigError::Color(Error::InvalidPrefix))));
    assert!(matches!(from_str("##01abE"), Err(ConfigError::Color(Error::ParseInt(_)))));
    assert!(matches!(from_str("0x#1abEF"), Err(ConfigError::Color(Error::ParseInt(_)))));
    assert!(matches!(from_str("0x"), Err(ConfigError::Color(Error::InvalidLength))));
}

#[test]
fn parsed_colour_has_no_alpha() {
    for text in ["#ffffff", "0xffffff", "#+fffff", "#000000"] {
        assert!(from_str(text).unwrap() < 0x100_0000);
    }
}
