//! The numeral base of an integer literal.

use vstd::prelude::*;
use crate::number::{
    bigint_from_str_radix, bigint_value, digits_number, is_digits, parsed_integer, NumberError,
};

verus! {

#[derive(Debug, Clone, Copy, PartialEq, Eq, Structural)]
pub enum Radix {
    /// prefixed with `0b`
    Binary,
    /// prefixed with `0o`
    Octal,
    /// no prefix
    Decimal,
    /// prefixed with `0x`
    Hexadecimal,
}

/// The value of `c` as a digit: `0`-`9`, then the letters of either case
/// from 10 to 35; `None` for any other character.
pub open spec fn digit_value(c: char) -> Option<int> {
    if '0' <= c && c <= '9' {
        Some(c as int - '0' as int)
    } else if 'a' <= c && c <= 'z' {
        Some(c as int - 'a' as int + 10)
    } else if 'A' <= c && c <= 'Z' {
        Some(c as int - 'A' as int + 10)
    } else {
        None
    }
}

impl Radix {
    /// The base as a number: 2, 8, 10 or 16.
    pub open spec fn base(self) -> int {
        match self {
            Radix::Binary => 2,
            Radix::Octal => 8,
            Radix::Decimal => 10,
            Radix::Hexadecimal => 16,
        }
    }

    /// Whether `c` is a digit of this base.
    pub open spec fn has_digit(self, c: char) -> bool {
        digit_value(c) matches Some(d) && d < self.base()
    }

    pub fn is_binary(&self) -> (r: bool)
        ensures
            r == (*self == Radix::Binary),
    {
        matches!(self, Radix::Binary)
    }

    pub fn is_octal(&self) -> (r: bool)
        ensures
            r == (*self == Radix::Octal),
    {
        matches!(self, Radix::Octal)
    }

    pub fn is_decimal(&self) -> (r: bool)
        ensures
            r == (*self == Radix::Decimal),
    {
        matches!(self, Radix::Decimal)
    }

    pub fn is_hexadecimal(&self) -> (r: bool)
        ensures
            r == (*self == Radix::Hexadecimal),
    {
        matches!(self, Radix::Hexadecimal)
    }

    /// The base as a number.
    pub fn to_u32(self) -> (r: u32)
        ensures
            r == self.base(),
    {
        match self {
            Radix::Binary => 2,
            Radix::Octal => 8,
            Radix::Decimal => 10,
            Radix::Hexadecimal => 16,
        }
    }

    /// Whether `c` is a digit of this base.
    pub fn is_digit(self, c: char) -> (r: bool)
        ensures
            r == self.has_digit(c),
    {
        match self {
            Radix::Binary => c == '0' || c == '1',
            Radix::Octal => '0' <= c && c <= '7',
            Radix::Decimal => '0' <= c && c <= '9',
            Radix::Hexadecimal => ('0' <= c && c <= '9') || ('a' <= c && c <= 'f') || ('A' <= c
                && c <= 'F'),
        }
    }

    /// The test for the digits of this base.
    pub fn get_digit_checker(&self) -> (test: impl Fn(char) -> bool)
        ensures
            forall|c: char| #[trigger] test.requires((c,)),
            forall|c: char, r: bool|
                #[trigger] test.ensures((c,), r) ==> r == self.has_digit(c),
    {
        let radix = *self;
        move |c: char| -> (r: bool)
            ensures
                r == radix.has_digit(c),
            { radix.is_digit(c) }
    }

    /// Reads `s` as an integer of this base, as `BigInt::from_str_radix`
    /// reads it.
    pub fn parse(&self, s: &str) -> (r: Result<num::BigInt, NumberError>)
        ensures
            match r {
                Ok(n) => parsed_integer(s@, self.base()) == Some(bigint_value(n)),
                Err(e) => e == NumberError::Malformed && parsed_integer(s@, self.base()) is None,
            },
            is_digits(s@, self.base()) ==> (r matches Ok(n) && bigint_value(n) == digits_number(
                s@,
                self.base(),
            )),
    {
        match bigint_from_str_radix(s, self.to_u32()) {
            Ok(n) => Ok(n),
            Err(_) => Err(NumberError::Malformed),
        }
    }
}

impl From<Radix> for u32 {
    fn from(radix: Radix) -> (r: u32) {
        radix.to_u32()
    }
}

impl vstd::std_specs::convert::FromSpecImpl<Radix> for u32 {
    open spec fn obeys_from_spec() -> bool {
        true
    }

    open spec fn from_spec(radix: Radix) -> u32 {
        radix.base() as u32
    }
}

impl TryFrom<u32> for Radix {
    type Error = u32;

    /// The radix of base `n`; `n` itself where there is none.
    fn try_from(n: u32) -> (r: Result<Radix, u32>) {
        if n == 2 {
            Ok(Radix::Binary)
        } else if n == 8 {
            Ok(Radix::Octal)
        } else if n == 10 {
            Ok(Radix::Decimal)
        } else if n == 16 {
            Ok(Radix::Hexadecimal)
        } else {
            Err(n)
        }
    }
}

impl vstd::std_specs::convert::TryFromSpecImpl<u32> for Radix {
    open spec fn obeys_try_from_spec() -> bool {
        true
    }

    open spec fn try_from_spec(n: u32) -> Result<Radix, u32> {
        if n == 2 {
            Ok(Radix::Binary)
        } else if n == 8 {
            Ok(Radix::Octal)
        } else if n == 10 {
            Ok(Radix::Decimal)
        } else if n == 16 {
            Ok(Radix::Hexadecimal)
        } else {
            Err(n)
        }
    }
}

} // verus!
