//! The text that describes an [`Error`].

use vstd::prelude::*;
use vstd::string::StringExecFns;
use crate::Error;

verus! {

/// The lower-case hexadecimal digit for a value below 16.
pub open spec fn hex_digit(d: int) -> char {
    if d == 0 {
        '0'
    } else if d == 1 {
        '1'
    } else if d == 2 {
        '2'
    } else if d == 3 {
        '3'
    } else if d == 4 {
        '4'
    } else if d == 5 {
        '5'
    } else if d == 6 {
        '6'
    } else if d == 7 {
        '7'
    } else if d == 8 {
        '8'
    } else if d == 9 {
        '9'
    } else if d == 10 {
        'a'
    } else if d == 11 {
        'b'
    } else if d == 12 {
        'c'
    } else if d == 13 {
        'd'
    } else if d == 14 {
        'e'
    } else {
        'f'
    }
}

/// The number of hexadecimal digits that a 16-bit value is written with:
/// as many as it takes, and at least one.
pub open spec fn hex_len(value: u16) -> int {
    if value >= 0x1000 {
        4
    } else if value >= 0x100 {
        3
    } else if value >= 0x10 {
        2
    } else {
        1
    }
}

/// A 16-bit value in lower-case hexadecimal, without a prefix and without
/// leading zeros.
pub open spec fn hex_text(value: u16) -> Seq<char> {
    Seq::new(
        hex_len(value) as nat,
        |k: int| hex_digit((value as int / place_value(hex_len(value) - 1 - k)) % 16),
    )
}

/// The value of hexadecimal place `place`, for the four places of a 16-bit
/// value: 1, 16, 256 and 4096.
pub open spec fn place_value(place: int) -> int {
    if place <= 0 {
        1
    } else if place == 1 {
        0x10
    } else if place == 2 {
        0x100
    } else {
        0x1000
    }
}

impl Error {
    /// The text that describes the error.
    pub open spec fn message_spec(self) -> Seq<char> {
        match self {
            Error::UnknownOpcode(code) => "Unknown opcode: "@ + hex_text(code),
            Error::InsufficientData => "Not enough data"@,
            Error::EmptyStackReturn => "Return with an empty call stack"@,
            Error::UnsupportedInstruction => "Unsupported instruction"@,
            Error::AddressOutOfRange => "Address out of range"@,
        }
    }

    /// A description of the error for a human reader. An unknown opcode is
    /// shown in hexadecimal.
    pub fn message(&self) -> (text: String)
        ensures
            text@ == self.message_spec(),
    {
        match *self {
            Error::UnknownOpcode(code) => {
                let mut text: String = String::from_str("Unknown opcode: ");
                let len: usize = if code >= 0x1000 {
                    4
                } else if code >= 0x100 {
                    3
                } else if code >= 0x10 {
                    2
                } else {
                    1
                };
                let mut k: usize = 0;
                while k < len
                    invariant
                        k <= len,
                        len == hex_len(code),
                        text@ == "Unknown opcode: "@ + hex_text(code).subrange(0, k as int),
                    decreases len - k,
                {
                    let place: usize = len - 1 - k;
                    let divisor: u16 = if place == 0 {
                        1
                    } else if place == 1 {
                        0x10
                    } else if place == 2 {
                        0x100
                    } else {
                        0x1000
                    };
                    let digit: u16 = (code / divisor) % 16;
                    text.append(hex_digit_str(digit));
                    k += 1;
                    assert(text@ =~= "Unknown opcode: "@ + hex_text(code).subrange(0, k as int));
                }
                assert(hex_text(code).subrange(0, k as int) =~= hex_text(code));
                text
            },
            Error::InsufficientData => String::from_str("Not enough data"),
            Error::EmptyStackReturn => String::from_str("Return with an empty call stack"),
            Error::UnsupportedInstruction => String::from_str("Unsupported instruction"),
            Error::AddressOutOfRange => String::from_str("Address out of range"),
        }
    }
}

/// The one-character text of a hexadecimal digit.
fn hex_digit_str(d: u16) -> (text: &'static str)
    requires
        d < 16,
    ensures
        text@ == seq![hex_digit(d as int)],
{
    proof {
        reveal_strlit("0");
        reveal_strlit("1");
        reveal_strlit("2");
        reveal_strlit("3");
        reveal_strlit("4");
        reveal_strlit("5");
        reveal_strlit("6");
        reveal_strlit("7");
        reveal_strlit("8");
        reveal_strlit("9");
        reveal_strlit("a");
        reveal_strlit("b");
        reveal_strlit("c");
        reveal_strlit("d");
        reveal_strlit("e");
        reveal_strlit("f");
    }
    let text: &'static str = match d {
        0 => "0",
        1 => "1",
        2 => "2",
        3 => "3",
        4 => "4",
        5 => "5",
        6 => "6",
        7 => "7",
        8 => "8",
        9 => "9",
        10 => "a",
        11 => "b",
        12 => "c",
        13 => "d",
        14 => "e",
        _ => "f",
    };
    assert(text@ =~= seq![hex_digit(d as int)]);
    text
}

} // verus!
