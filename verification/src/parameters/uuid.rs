//! The sixteen-bit identifiers of services and characteristics.

use super::ParseError;
use crate::text::{
    digit_value, is_numeral, lemma_ascii_is_utf8, numeral_value, radix_fault, unsigned_digits,
    unsigned_value, utf8_fault, PLUS,
};
use vstd::prelude::*;
use vstd::std_specs::convert::{FromSpecImpl, TryFromSpecImpl};
use vstd::utf8::valid_utf8;

verus! {

/// An identifier of a service or of a characteristic. On the wire it is the
/// low sixteen bits as four hexadecimal digits, the least significant digit
/// first, in commands and in replies alike.
#[derive(Debug, Clone, Copy, Eq, PartialEq, Structural)]
pub struct UUID(pub u32);

/// The lower-case hexadecimal digit for a value below sixteen.
pub open spec fn lower_hex(d: u32) -> u8 {
    if d < 10 {
        (0x30 + d) as u8
    } else {
        (0x61 + d - 10) as u8
    }
}

/// The four digits that stand for an identifier on the wire: its four low
/// nibbles, the least significant one first.
pub open spec fn uuid_digits(uuid: UUID) -> Seq<u8> {
    seq![
        lower_hex(uuid.0 % 16),
        lower_hex(uuid.0 / 16 % 16),
        lower_hex(uuid.0 / 256 % 16),
        lower_hex(uuid.0 / 4096 % 16),
    ]
}

/// The number that a run of hexadecimal digits denotes where the first
/// digit is the least significant one: the first digit counts once, the
/// second sixteen times, the third 256 times, the fourth 4096 times.
pub open spec fn low_first_value(digits: Seq<u8>) -> int
    decreases digits.len(),
{
    if digits.len() == 0 {
        0
    } else {
        digit_value(digits[0]) + 16 * low_first_value(digits.skip(1))
    }
}

/// The identifier that the given text denotes. The text is at most four
/// bytes: hexadecimal digits in either case, which a `+` may lead. The digits
/// are read as they are written, the least significant one first; where
/// there are fewer than four, those that are missing are the high ones and
/// count as zero.
pub open spec fn uuid_of(text: Seq<u8>) -> Result<UUID, ParseError> {
    if text.len() > 4 {
        Err(ParseError::WrongValue)
    } else if !valid_utf8(text) {
        Err(ParseError::Uft8Error(utf8_fault(text)))
    } else if unsigned_value(text, 16) is None {
        Err(ParseError::ParseIntError(radix_fault(text, 16)))
    } else {
        Ok(UUID(low_first_value(unsigned_digits(text)) as u32))
    }
}

/// What a hexadecimal digit is worth.
fn nibble(b: u8) -> (r: u8)
    requires
        digit_value(b) < 16,
    ensures
        r == digit_value(b),
{
    if b <= 0x39 {
        b - 0x30
    } else if b >= 0x61 {
        b - 0x61 + 10
    } else {
        b - 0x41 + 10
    }
}

fn lower_hex_digit(d: u32) -> (r: u8)
    requires
        d < 16,
    ensures
        r == lower_hex(d),
{
    if d < 10 {
        0x30 + d as u8
    } else {
        0x61 + (d as u8 - 10)
    }
}

impl From<UUID> for [u8; 4] {
    /// The four digits that stand for the identifier on the wire.
    fn from(uuid: UUID) -> (r: [u8; 4])
        ensures
            r@ == uuid_digits(uuid),
    {
        let mut result = [0u8; 4];
        let mut rest: u32 = uuid.0;
        let mut i: usize = 0;
        while i < 4
            invariant
                i <= 4,
                i == 0 ==> rest == uuid.0,
                i == 1 ==> rest == uuid.0 / 16,
                i == 2 ==> rest == uuid.0 / 256,
                i == 3 ==> rest == uuid.0 / 4096,
                forall|j: int| 0 <= j < i ==> result@[j] == uuid_digits(uuid)[j],
            decreases 4 - i,
        {
            result[i] = lower_hex_digit(rest % 16);
            rest = rest / 16;
            i += 1;
        }
        assert(result@ =~= uuid_digits(uuid));
        result
    }
}

impl FromSpecImpl<UUID> for [u8; 4] {
    open spec fn obeys_from_spec() -> bool {
        true
    }

    open spec fn from_spec(uuid: UUID) -> [u8; 4] {
        [
            lower_hex(uuid.0 % 16),
            lower_hex(uuid.0 / 16 % 16),
            lower_hex(uuid.0 / 256 % 16),
            lower_hex(uuid.0 / 4096 % 16),
        ]
    }
}

impl<'a> TryFrom<&'a [u8]> for UUID {
    type Error = ParseError;

    /// Reads an identifier from at most four bytes of hexadecimal digits,
    /// the least significant digit first.
    fn try_from(value: &'a [u8]) -> (r: Result<Self, ParseError>)
        ensures
            r == uuid_of(value@),
    {
        if value.len() > 4 {
            return Err(ParseError::WrongValue);
        }
        let text = match core::str::from_utf8(value) {
            Ok(text) => text,
            Err(e) => { return Err(ParseError::Uft8Error(e)); },
        };
        if let Err(e) = u32::from_str_radix(text, 16) {
            return Err(ParseError::ParseIntError(e));
        }
        let start: usize = if value.len() > 0 && value[0] == PLUS {
            1
        } else {
            0
        };
        let ghost digits = unsigned_digits(value@);
        let n: usize = value.len() - start;
        let mut number: u32 = 0;
        let mut k: usize = n;
        assert(digits.skip(n as int) =~= Seq::<u8>::empty());
        while k > 0
            invariant
                k <= n <= 4,
                n + start == value@.len(),
                digits == value@.skip(start as int),
                is_numeral(digits, 16),
                number == low_first_value(digits.skip(k as int)),
                n - k == 0 ==> number < 1,
                n - k == 1 ==> number < 0x10,
                n - k == 2 ==> number < 0x100,
                n - k == 3 ==> number < 0x1000,
            decreases k,
        {
            k -= 1;
            assert(digits.skip(k as int).skip(1) =~= digits.skip(k + 1));
            assert(digits.skip(k as int)[0] == digits[k as int]);
            number = number * 16 + nibble(value[start + k]) as u32;
        }
        assert(digits.skip(0) =~= digits);
        Ok(UUID(number))
    }
}

impl<'a> TryFromSpecImpl<&'a [u8]> for UUID {
    open spec fn obeys_try_from_spec() -> bool {
        true
    }

    open spec fn try_from_spec(value: &'a [u8]) -> Result<Self, ParseError> {
        uuid_of(value@)
    }
}

/// The four low nibbles of a number, each in its place, make up its low
/// sixteen bits.
proof fn lemma_nibbles(value: u32)
    ensures
        value % 16 + 16 * (value / 16 % 16) + 256 * (value / 256 % 16) + 4096 * (value / 4096
            % 16) == value % 0x10000,
{
    assert(value % 16 + 16 * (value / 16 % 16) + 256 * (value / 256 % 16) + 4096 * (value / 4096
        % 16) == value % 0x10000) by (bit_vector);
}

/// The four digits of an identifier are a hexadecimal numeral.
proof fn lemma_uuid_digits_are_a_numeral(uuid: UUID)
    ensures
        valid_utf8(uuid_digits(uuid)),
        unsigned_digits(uuid_digits(uuid)) == uuid_digits(uuid),
        unsigned_value(uuid_digits(uuid), 16) is Some,
{
    let digits = uuid_digits(uuid);
    lemma_ascii_is_utf8(digits);
    assert(is_numeral(digits, 16));
    let s3 = digits.drop_last();
    let s2 = s3.drop_last();
    let s1 = s2.drop_last();
    assert(s1.drop_last().len() == 0);
    assert(numeral_value(s1, 16) < 16) by {
        reveal_with_fuel(numeral_value, 2);
    }
    assert(numeral_value(s2, 16) < 256);
    assert(numeral_value(s3, 16) < 4096);
    assert(numeral_value(digits, 16) < 65536);
}

/// Reading the four digits of an identifier gives its low sixteen bits
/// back.
pub proof fn lemma_uuid_digits_read_back(uuid: UUID)
    ensures
        uuid_of(uuid_digits(uuid)) == Ok::<UUID, ParseError>(UUID(uuid.0 % 0x10000)),
{
    let digits = uuid_digits(uuid);
    lemma_uuid_digits_are_a_numeral(uuid);
    lemma_nibbles(uuid.0);
    let t1 = digits.skip(1);
    let t2 = t1.skip(1);
    let t3 = t2.skip(1);
    assert(t3.skip(1).len() == 0);
    assert(low_first_value(t3) == digit_value(digits[3])) by {
        reveal_with_fuel(low_first_value, 2);
    }
    assert(low_first_value(t2) == digit_value(digits[2]) + 16 * low_first_value(t3));
    assert(low_first_value(t1) == digit_value(digits[1]) + 16 * low_first_value(t2));
    assert(low_first_value(digits) == digit_value(digits[0]) + 16 * low_first_value(t1));
}

/// An identifier of sixteen bits is read back from its own digits.
pub proof fn lemma_uuid_round_trip(uuid: UUID)
    requires
        uuid.0 <= 0xffff,
    ensures
        uuid_of(uuid_digits(uuid)) == Ok::<UUID, ParseError>(uuid),
{
    lemma_uuid_digits_read_back(uuid);
}

} // verus!
