//! The address of the module.

use super::{has_prefix, is_terminated, payload, payload_of, ParseError};
use crate::text::{digit_value, utf8_fault};
use vstd::prelude::*;
use vstd::std_specs::convert::TryFromSpecImpl;
use vstd::utf8::valid_utf8;

verus! {

/// `Addr:`, the label of the line that reports the address.
pub const ADDR_PREFIX: [u8; 5] = ['A' as u8, 'd' as u8, 'd' as u8, 'r' as u8, ':' as u8];

/// How long the text of an address is: six pairs of digits and the five
/// separators between them.
pub const ADDR_TEXT_LEN: usize = 17;

/// The six bytes of the module's address, in the order in which the module
/// reports them.
#[derive(Debug, Clone, Copy, Eq, PartialEq)]
pub struct Addr([u8; 6]);

impl View for Addr {
    type V = Seq<u8>;

    closed spec fn view(&self) -> Seq<u8> {
        self.0@
    }
}

impl Addr {
    /// The address made of the first six of the given bytes.
    pub closed spec fn of(octets: Seq<u8>) -> Addr {
        Addr([octets[0], octets[1], octets[2], octets[3], octets[4], octets[5]])
    }

    /// An address is six bytes, and `of` makes the address of the six bytes
    /// that it is given.
    pub proof fn lemma_view(octets: Seq<u8>)
        requires
            octets.len() == 6,
        ensures
            Addr::of(octets)@ == octets,
    {
        assert(Addr::of(octets)@ =~= octets);
    }

    /// The bytes of the address.
    pub fn octets(&self) -> (r: [u8; 6])
        ensures
            r@ == self@,
    {
        self.0
    }
}

/// The byte that the `k`-th pair of digits of an address text denotes, where
/// both are hexadecimal digits. The pairs stand three bytes apart.
pub open spec fn pair_at(text: Seq<u8>, k: int) -> Option<u8> {
    let high = digit_value(text[3 * k]);
    let low = digit_value(text[3 * k + 1]);
    if high < 16 && low < 16 {
        Some((high * 16 + low) as u8)
    } else {
        None
    }
}

/// The six bytes that an address text `hh?hh?hh?hh?hh?hh` denotes. Each `hh`
/// is a pair of hexadecimal digits; what separates the pairs is not looked at.
pub open spec fn octets_of_text(text: Seq<u8>) -> Option<Seq<u8>> {
    if text.len() == ADDR_TEXT_LEN && forall|k: int|
        0 <= k < 6 ==> #[trigger] pair_at(text, k) is Some {
        Some(Seq::new(6, |k: int| pair_at(text, k).unwrap()))
    } else {
        None
    }
}

/// The bytes of the address that a line `Addr:hh?hh?hh?hh?hh?hh\r\n` reports.
///
/// A line with the label is taken for cut short or run over, and so for one
/// without its ending, unless it is as long as an address line is and ends in
/// carriage return and line feed.
pub open spec fn addr_of_line(line: Seq<u8>) -> Result<Seq<u8>, ParseError> {
    match payload_of(line, ADDR_PREFIX@) {
        Err(e) => Err(e),
        Ok(text) => if text.len() != ADDR_TEXT_LEN {
            Err(ParseError::WithoutNewline)
        } else if !valid_utf8(text) {
            Err(ParseError::Uft8Error(utf8_fault(text)))
        } else {
            match octets_of_text(text) {
                Some(octets) => Ok(octets),
                None => Err(ParseError::WrongValue),
            }
        },
    }
}

/// The bytes of the address in a result of reading one.
pub open spec fn addr_view(r: Result<Addr, ParseError>) -> Result<Seq<u8>, ParseError> {
    match r {
        Ok(addr) => Ok(addr@),
        Err(e) => Err(e),
    }
}

/// What a hexadecimal digit is worth; `None` for any other byte.
fn hex_digit(b: u8) -> (r: Option<u8>)
    ensures
        match r {
            Some(d) => d == digit_value(b) && d < 16,
            None => digit_value(b) >= 16,
        },
{
    if 0x30 <= b && b <= 0x39 {
        Some(b - 0x30)
    } else if 0x61 <= b && b <= 0x66 {
        Some(b - 0x61 + 10)
    } else if 0x41 <= b && b <= 0x46 {
        Some(b - 0x41 + 10)
    } else {
        None
    }
}

impl<'a> TryFrom<&'a [u8]> for Addr {
    type Error = ParseError;

    /// Reads the line `Addr:hh?hh?hh?hh?hh?hh\r\n`.
    fn try_from(value: &'a [u8]) -> (r: Result<Self, ParseError>)
        ensures
            addr_view(r) == addr_of_line(value@),
            r matches Ok(addr) ==> addr == Addr::of(addr@),
    {
        let text = match payload(value, ADDR_PREFIX.as_slice()) {
            Ok(text) => text,
            Err(e) => { return Err(e); },
        };
        if text.len() != ADDR_TEXT_LEN {
            return Err(ParseError::WithoutNewline);
        }
        if let Err(e) = core::str::from_utf8(text) {
            return Err(ParseError::Uft8Error(e));
        }
        let mut addr = [0u8; 6];
        let mut k: usize = 0;
        while k < 6
            invariant
                k <= 6,
                text@.len() == ADDR_TEXT_LEN,
                valid_utf8(text@),
                payload_of(value@, ADDR_PREFIX@) == Ok::<Seq<u8>, ParseError>(text@),
                forall|j: int| 0 <= j < k ==> #[trigger] pair_at(text@, j) == Some(addr@[j]),
            decreases 6 - k,
        {
            let high = hex_digit(text[3 * k]);
            let low = hex_digit(text[3 * k + 1]);
            match (high, low) {
                (Some(h), Some(l)) => {
                    addr[k] = h * 16 + l;
                },
                _ => {
                    assert(pair_at(text@, k as int) is None);
                    return Err(ParseError::WrongValue);
                },
            }
            k += 1;
        }
        proof {
            let octets = octets_of_text(text@).unwrap();
            assert(octets =~= addr@);
            Addr::lemma_view(octets);
            assert(addr =~= Addr::of(octets).0);
        }
        Ok(Addr(addr))
    }
}

impl<'a> TryFromSpecImpl<&'a [u8]> for Addr {
    open spec fn obeys_try_from_spec() -> bool {
        true
    }

    open spec fn try_from_spec(value: &'a [u8]) -> Result<Self, ParseError> {
        match addr_of_line(value@) {
            Ok(octets) => Ok(Addr::of(octets)),
            Err(e) => Err(e),
        }
    }
}

/// A line with the label `Addr:` that is not as long as an address line, or
/// that does not end in carriage return and line feed, is turned down as
/// being without its ending, whatever else it holds.
pub proof fn lemma_addr_line_length(line: Seq<u8>)
    requires
        has_prefix(line, ADDR_PREFIX@),
        line.len() != 5 + ADDR_TEXT_LEN + 2 || !is_terminated(line, 5),
    ensures
        addr_of_line(line) == Err::<Seq<u8>, ParseError>(ParseError::WithoutNewline),
{
}

} // verus!
