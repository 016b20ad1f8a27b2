use habibi_coin::config::{listen_port, parse_port, ConfigError, DEFAULT_PORT};

#[test]
fn no_setting_means_the_default_port() {
    assert_eq!(DEFAULT_PORT, 3000);
    assert_eq!(listen_port(None), Ok(3000));
}

#[test]
fn a_setting_names_the_port() {
    assert_eq!(listen_port(Some("8080")), Ok(8080));
    assert_eq!(listen_port(Some("3000")), Ok(3000));
    assert_eq!(listen_port(Some("0")), Ok(0));
    assert_eq!(listen_port(Some("65535")), Ok(65535));
}

#[test]
fn a_plus_sign_and_leading_zeros_are_read() {
    assert_eq!(parse_port("+80"), Ok(80));
    assert_eq!(parse_port("000080"), Ok(80));
    assert_eq!(parse_port("+0000000000000000000000000000065535"), Ok(65535));
}

#[test]
fn a_setting_that_is_no_number_is_refused() {
    for text in ["", "+", "-1", "-0", "++1", "abc", "80a", "a80", " 80", "80 ", "8 0", "8_0", "0x50", "80.0", "+-1", "1+", "٣٠٠٠"] {
        assert_eq!(parse_port(text), Err(ConfigError::NotANumber), "{text:?}");
        assert_eq!(listen_port(Some(text)), Err(ConfigError::NotANumber), "{text:?}");
    }
}

#[test]
fn a_number_above_every_port_is_refused() {
    for text in ["65536", "70000", "100000", "+65536", "4294967296", "99999999999999999999999999999999999999999"] {
        assert_eq!(parse_port(text), Err(ConfigError::OutOfRange), "{text:?}");
    }
}

#[test]
fn digits_followed_by_something_else_are_no_number_however_large() {
    assert_eq!(parse_port("99999999x"), Err(ConfigError::NotANumber));
}

#[test]
fn parse_port_accepts_what_the_standard_parser_accepts() {
    for text in ["0", "1", "80", "+80", "0080", "65535", "65536", "", "+", "-1", "x", "1 ", "99999", "12a"] {
        assert_eq!(parse_port(text).ok(), text.parse::<u16>().ok(), "{text:?}");
    }
}
