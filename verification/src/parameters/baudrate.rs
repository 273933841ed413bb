//! The speed of the serial line.

use super::{payload, payload_of, ParseError};
use crate::text::{decimal_fault, parse_decimal, signed_value, utf8_fault, COMMA};
use vstd::prelude::*;
use vstd::std_specs::convert::TryFromSpecImpl;
use vstd::string::StringSliceAdditionalSpecFns;
use vstd::utf8::{
    is_char_boundary, is_char_boundary_iff_not_is_continuation_byte, is_continuation_byte,
    valid_utf8,
};

verus! {

/// `Baud:`, the label of the line that reports the speed.
pub const BAUD_PREFIX: [u8; 5] = ['B' as u8, 'a' as u8, 'u' as u8, 'd' as u8, ':' as u8];

/// The speeds that the module can be set to.
#[derive(Debug, Copy, Clone, Eq, PartialEq, Structural)]
pub enum BaudRate {
    /// 1200 bauds per second
    Bps1200,
    /// 2400 bauds per second
    Bps2400,
    /// 4800 bauds per second
    Bps4800,
    /// 9600 bauds per second
    Bps9600,
    /// 19200 bauds per second
    Bps19200,
    /// 38400 bauds per second
    Bps38400,
    /// 57600 bauds per second
    Bps57600,
    /// 115200 bauds per second
    Bps115200,
}

impl BaudRate {
    pub open spec fn spec_bps(self) -> i32 {
        match self {
            BaudRate::Bps1200 => 1200,
            BaudRate::Bps2400 => 2400,
            BaudRate::Bps4800 => 4800,
            BaudRate::Bps9600 => 9600,
            BaudRate::Bps19200 => 19200,
            BaudRate::Bps38400 => 38400,
            BaudRate::Bps57600 => 57600,
            BaudRate::Bps115200 => 115200,
        }
    }

    /// The speed in bauds per second.
    #[verifier::when_used_as_spec(spec_bps)]
    pub fn bps(self) -> (value: i32)
        ensures
            value == self.spec_bps(),
    {
        match self {
            BaudRate::Bps1200 => 1200,
            BaudRate::Bps2400 => 2400,
            BaudRate::Bps4800 => 4800,
            BaudRate::Bps9600 => 9600,
            BaudRate::Bps19200 => 19200,
            BaudRate::Bps38400 => 38400,
            BaudRate::Bps57600 => 57600,
            BaudRate::Bps115200 => 115200,
        }
    }
}

/// The speed of so many bauds per second, where the module knows one.
pub open spec fn baud_of(value: int) -> Result<BaudRate, ParseError> {
    if value == 1200 {
        Ok(BaudRate::Bps1200)
    } else if value == 2400 {
        Ok(BaudRate::Bps2400)
    } else if value == 4800 {
        Ok(BaudRate::Bps4800)
    } else if value == 9600 {
        Ok(BaudRate::Bps9600)
    } else if value == 19200 {
        Ok(BaudRate::Bps19200)
    } else if value == 38400 {
        Ok(BaudRate::Bps38400)
    } else if value == 57600 {
        Ok(BaudRate::Bps57600)
    } else if value == 115200 {
        Ok(BaudRate::Bps115200)
    } else {
        Err(ParseError::WrongValue)
    }
}

/// How many bytes of `text` stand before its first comma; all of them where
/// it has none.
pub open spec fn before_comma(text: Seq<u8>) -> int
    decreases text.len(),
{
    if text.len() == 0 || text[0] == COMMA {
        0
    } else {
        1 + before_comma(text.skip(1))
    }
}

/// The speed that a payload `<rate>,<rest>` gives. The payload has to be
/// UTF-8 and to hold a comma; what stands before the first comma has to be a
/// decimal number, and that number one of the speeds. What follows the comma
/// is not looked at.
pub open spec fn baud_of_text(text: Seq<u8>) -> Result<BaudRate, ParseError> {
    let rate = text.subrange(0, before_comma(text));
    if !valid_utf8(text) {
        Err(ParseError::Uft8Error(utf8_fault(text)))
    } else if before_comma(text) == text.len() {
        Err(ParseError::WrongValue)
    } else {
        match signed_value(rate, 10) {
            None => Err(ParseError::ParseIntError(decimal_fault(rate))),
            Some(value) => baud_of(value),
        }
    }
}

/// The speed that a line `Baud:<rate>,<rest>\r\n` reports.
pub open spec fn baud_of_line(line: Seq<u8>) -> Result<BaudRate, ParseError> {
    match payload_of(line, BAUD_PREFIX@) {
        Err(e) => Err(e),
        Ok(text) => baud_of_text(text),
    }
}

proof fn lemma_before_comma(text: Seq<u8>)
    ensures
        0 <= before_comma(text) <= text.len(),
        forall|j: int| 0 <= j < before_comma(text) ==> text[j] != COMMA,
        before_comma(text) < text.len() ==> text[before_comma(text)] == COMMA,
    decreases text.len(),
{
    if text.len() == 0 || text[0] == COMMA {
    } else {
        let rest = text.skip(1);
        lemma_before_comma(rest);
        assert forall|j: int| 0 <= j < before_comma(text) implies text[j] != COMMA by {
            if j > 0 {
                assert(rest[j - 1] == text[j]);
            }
        }
    }
}

proof fn lemma_first_comma(text: Seq<u8>, i: int)
    requires
        0 <= i <= text.len(),
        forall|j: int| 0 <= j < i ==> text[j] != COMMA,
        i < text.len() ==> text[i] == COMMA,
    ensures
        before_comma(text) == i,
{
    lemma_before_comma(text);
}

/// Where the first comma of `text` stands; its length where it has none.
fn find_comma(text: &[u8]) -> (i: usize)
    ensures
        i == before_comma(text@),
        i <= text@.len(),
{
    let mut i: usize = 0;
    while i < text.len() && text[i] != COMMA
        invariant
            i <= text@.len(),
            forall|j: int| 0 <= j < i ==> text@[j] != COMMA,
        decreases text@.len() - i,
    {
        i += 1;
    }
    proof {
        lemma_first_comma(text@, i as int);
    }
    i
}

impl TryFrom<i32> for BaudRate {
    type Error = ParseError;

    /// The speed of `value` bauds per second; a `WrongValue` where the module
    /// knows no such speed.
    fn try_from(value: i32) -> (r: Result<Self, ParseError>)
        ensures
            r == baud_of(value as int),
    {
        match value {
            1200 => Ok(BaudRate::Bps1200),
            2400 => Ok(BaudRate::Bps2400),
            4800 => Ok(BaudRate::Bps4800),
            9600 => Ok(BaudRate::Bps9600),
            19200 => Ok(BaudRate::Bps19200),
            38400 => Ok(BaudRate::Bps38400),
            57600 => Ok(BaudRate::Bps57600),
            115200 => Ok(BaudRate::Bps115200),
            _ => Err(ParseError::WrongValue),
        }
    }
}

impl TryFromSpecImpl<i32> for BaudRate {
    open spec fn obeys_try_from_spec() -> bool {
        true
    }

    open spec fn try_from_spec(value: i32) -> Result<Self, ParseError> {
        baud_of(value as int)
    }
}

impl<'a> TryFrom<&'a [u8]> for BaudRate {
    type Error = ParseError;

    /// Reads the line `Baud:<rate>,<rest>\r\n`.
    fn try_from(value: &'a [u8]) -> (r: Result<Self, ParseError>)
        ensures
            r == baud_of_line(value@),
    {
        let text = match payload(value, BAUD_PREFIX.as_slice()) {
            Ok(text) => text,
            Err(e) => { return Err(e); },
        };
        let whole = match core::str::from_utf8(text) {
            Ok(whole) => whole,
            Err(e) => { return Err(ParseError::Uft8Error(e)); },
        };
        let comma = find_comma(text);
        if comma == text.len() {
            return Err(ParseError::WrongValue);
        }
        proof {
            lemma_before_comma(text@);
            is_char_boundary_iff_not_is_continuation_byte(text@, comma as int);
            assert(!is_continuation_byte(COMMA));
            assert(is_char_boundary(whole.spec_bytes(), comma as int));
        }
        let (rate, _rest) = whole.split_at(comma);
        match parse_decimal(rate) {
            Ok(number) => BaudRate::try_from(number),
            Err(e) => Err(ParseError::ParseIntError(e)),
        }
    }
}

impl<'a> TryFromSpecImpl<&'a [u8]> for BaudRate {
    open spec fn obeys_try_from_spec() -> bool {
        true
    }

    open spec fn try_from_spec(value: &'a [u8]) -> Result<Self, ParseError> {
        baud_of_line(value@)
    }
}

/// Every speed is found again from its number of bauds per second.
pub proof fn lemma_baud_rate_round_trip(rate: BaudRate)
    ensures
        baud_of(rate.bps() as int) == Ok::<BaudRate, ParseError>(rate),
{
}

/// A number is a speed only where it is the number of one of the eight
/// speeds; every other number is a `WrongValue`.
pub proof fn lemma_baud_rate_closed(value: int)
    ensures
        match baud_of(value) {
            Ok(rate) => rate.bps() == value,
            Err(e) => e == ParseError::WrongValue && forall|rate: BaudRate|
                #[trigger] rate.bps() != value,
        },
{
}

} // verus!
