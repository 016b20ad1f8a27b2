//! The service's one setting: the port it listens on.

use vstd::prelude::*;
use crate::decimal::{all_digits, digit_value, number_of};
use crate::text::chars_of;

verus! {

/// The port that is used where none is set.
pub const DEFAULT_PORT: u16 = 3000;

/// Why a port setting was refused.
#[derive(Clone, Copy, Debug, PartialEq, Eq, Structural)]
pub enum ConfigError {
    /// The setting is not a whole number written in decimal digits.
    NotANumber,
    /// The setting is a number, but greater than any port.
    OutOfRange,
}

/// The text without the plus sign that may stand in front of a number.
pub open spec fn without_sign(text: Seq<char>) -> Seq<char> {
    if text.len() > 0 && text[0] == '+' {
        text.skip(1)
    } else {
        text
    }
}

/// The port that a setting names: a whole number of at most 65535, written
/// in decimal digits, with or without a plus sign in front and with nothing
/// else around it.
pub open spec fn port_of(text: Seq<char>) -> Result<u16, ConfigError> {
    let digits = without_sign(text);
    if !all_digits(digits) {
        Err(ConfigError::NotANumber)
    } else if number_of(digits) > u16::MAX {
        Err(ConfigError::OutOfRange)
    } else {
        Ok(number_of(digits) as u16)
    }
}

/// The port to listen on, given the setting if there is one.
pub open spec fn listen_port_of(setting: Option<Seq<char>>) -> Result<u16, ConfigError> {
    match setting {
        Some(text) => port_of(text),
        None => Ok(DEFAULT_PORT),
    }
}

/// The value of a decimal digit, if the character is one.
fn value_of_digit(c: char) -> (value: Option<u32>)
    ensures
        value is Some <==> digit_value(c) is Some,
        value matches Some(v) ==> digit_value(c) == Some(v as nat) && v < 10,
{
    if c == '0' {
        Some(0)
    } else if c == '1' {
        Some(1)
    } else if c == '2' {
        Some(2)
    } else if c == '3' {
        Some(3)
    } else if c == '4' {
        Some(4)
    } else if c == '5' {
        Some(5)
    } else if c == '6' {
        Some(6)
    } else if c == '7' {
        Some(7)
    } else if c == '8' {
        Some(8)
    } else if c == '9' {
        Some(9)
    } else {
        None
    }
}

/// Reads a port setting.
pub fn parse_port(text: &str) -> (port: Result<u16, ConfigError>)
    ensures
        port == port_of(text@),
{
    let chars: Vec<char> = chars_of(text);
    let n: usize = chars.len();
    let start: usize = if n > 0 && chars[0] == '+' {
        1
    } else {
        0
    };
    let ghost digits = without_sign(text@);
    assert(digits == chars@.skip(start as int));
    if start == n {
        return Err(ConfigError::NotANumber);
    }
    let mut at: usize = start;
    let mut value: u32 = 0;
    let mut too_large: bool = false;
    assert(digits.take(0) =~= Seq::<char>::empty());
    while at < n
        invariant
            start <= at <= n,
            n == chars.len(),
            digits == chars@.skip(start as int),
            digits == without_sign(text@),
            forall|k: int| 0 <= k < at - start ==> digit_value(#[trigger] digits[k]) is Some,
            !too_large ==> value == number_of(digits.take(at - start)) && value <= u16::MAX,
            too_large ==> number_of(digits.take(at - start)) > u16::MAX,
        decreases n - at,
    {
        let ghost read = digits.take(at - start);
        let ghost longer = digits.take(at - start + 1);
        assert(longer.drop_last() =~= read);
        assert(longer.last() == digits[at - start]);
        assert(digits[at - start] == chars[at as int]);
        match value_of_digit(chars[at]) {
            None => {
                assert(digit_value(digits[at - start]) is None);
                return Err(ConfigError::NotANumber);
            },
            Some(d) => {
                if !too_large {
                    let next: u32 = value * 10 + d;
                    if next > 65535 {
                        too_large = true;
                    } else {
                        value = next;
                    }
                }
            },
        }
        at = at + 1;
    }
    assert(digits.take(n - start) =~= digits);
    if too_large {
        Err(ConfigError::OutOfRange)
    } else {
        Ok(value as u16)
    }
}

/// The port to listen on: the one that the setting names, or the default
/// port where nothing is set. A setting that names no port is an error.
pub fn listen_port(setting: Option<&str>) -> (port: Result<u16, ConfigError>)
    ensures
        port == listen_port_of(
            match setting {
                Some(text) => Some(text@),
                None => None,
            },
        ),
{
    match setting {
        Some(text) => parse_port(text),
        None => Ok(DEFAULT_PORT),
    }
}

} // verus!
