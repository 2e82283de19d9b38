use vstd::prelude::*;

use crate::hex::{hex_char, write_hex_digit};

verus! {

/// Errors reported by the device or raised while encoding and decoding messages.
#[derive(Debug, Clone, Copy, PartialEq, Eq, Structural)]
pub enum RolandError {
    /// The device could not parse the command it received.
    SyntaxError,
    /// The command is not valid under the device's current settings.
    Invalid,
    /// A parameter lies outside its permitted range.
    OutOfRange,
    /// A command arrived without its leading STX byte (serial link only).
    NoStx,
    /// An error code that has no name of its own.
    UnknownError(u8),
    /// An address is not six hexadecimal digits.
    InvalidAddress,
    /// A value is not well formed.
    InvalidValue,
    /// A response does not follow the message grammar.
    InvalidResponse,
}

/// A number in decimal, without leading zeros.
pub open spec fn decimal_text(n: nat) -> Seq<char>
    decreases n,
{
    if n < 10 {
        seq![hex_char(n as int)]
    } else {
        decimal_text(n / 10).push(hex_char((n % 10) as int))
    }
}

impl RolandError {
    /// A sentence that describes the error.
    pub open spec fn spec_message(self) -> Seq<char> {
        match self {
            RolandError::SyntaxError => "Syntax error in received command"@,
            RolandError::Invalid => "Invalid command due to other settings"@,
            RolandError::OutOfRange => "Parameter out of range"@,
            RolandError::NoStx => "Missing STX at command start"@,
            RolandError::UnknownError(code) => "Unknown error code: "@ + decimal_text(code as nat),
            RolandError::InvalidAddress => "Invalid address format"@,
            RolandError::InvalidValue => "Invalid value format"@,
            RolandError::InvalidResponse => "Invalid response format"@,
        }
    }

    /// A sentence that describes the error.
    pub fn message(&self) -> (r: String)
        ensures
            r@ == self.spec_message(),
    {
        match self {
            RolandError::SyntaxError => String::from_str("Syntax error in received command"),
            RolandError::Invalid => String::from_str("Invalid command due to other settings"),
            RolandError::OutOfRange => String::from_str("Parameter out of range"),
            RolandError::NoStx => String::from_str("Missing STX at command start"),
            RolandError::UnknownError(code) => {
                let mut s = String::from_str("Unknown error code: ");
                write_decimal(&mut s, *code);
                s
            },
            RolandError::InvalidAddress => String::from_str("Invalid address format"),
            RolandError::InvalidValue => String::from_str("Invalid value format"),
            RolandError::InvalidResponse => String::from_str("Invalid response format"),
        }
    }
}

/// Appends `n` to `w` in decimal.
fn write_decimal(w: &mut String, n: u8)
    ensures
        final(w)@ == old(w)@ + decimal_text(n as nat),
{
    if n >= 100 {
        write_hex_digit(w, n / 100);
    }
    if n >= 10 {
        write_hex_digit(w, (n / 10) % 10);
    }
    write_hex_digit(w, n % 10);
    proof {
        if n >= 100 {
            assert(decimal_text((n / 100) as nat) == seq![hex_char((n / 100) as int)]);
            assert(decimal_text((n / 10) as nat) == seq![hex_char((n / 100) as int)].push(
                hex_char(((n / 10) % 10) as int),
            ));
        } else if n >= 10 {
            assert(decimal_text((n / 10) as nat) == seq![hex_char((n / 10) as int)]);
        }
        assert(final(w)@ =~= old(w)@ + decimal_text(n as nat));
    }
}

} // verus!
