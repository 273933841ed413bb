//! Bytes as text and as numerals.
//!
//! The parsers of this crate work on byte slices. Where a reply has to be
//! valid UTF-8, or a numeral has to be read, they lean on `core::str` and
//! `core::num`; this module states what is taken for granted about those
//! functions and holds the small verified helpers that surround them.

use core::num::ParseIntError;
use core::str::Utf8Error;
use vstd::prelude::*;
use vstd::string::StringSliceAdditionalSpecFns;
use vstd::utf8::{partial_valid_utf8_extend_ascii_block, valid_utf8};

verus! {

/// `core::str::Utf8Error`, carried through as an opaque value.
#[verifier::external_type_specification]
#[verifier::external_body]
pub struct ExUtf8Error(Utf8Error);

/// `core::num::ParseIntError`, carried through as an opaque value.
#[verifier::external_type_specification]
#[verifier::external_body]
pub struct ExParseIntError(ParseIntError);

/// Carriage return.
pub const CR: u8 = 0x0d;

/// Line feed.
pub const LF: u8 = 0x0a;

/// `,`
pub const COMMA: u8 = 0x2c;

/// `+`
pub const PLUS: u8 = 0x2b;

/// `-`
pub const MINUS: u8 = 0x2d;

/// What a byte is worth as a digit in bases up to 36: `0`-`9`, then the
/// letters in either case. Every other byte is worth 36, which no base admits.
pub open spec fn digit_value(b: u8) -> int {
    if 0x30 <= b <= 0x39 {
        b - 0x30
    } else if 0x61 <= b <= 0x7a {
        b - 0x61 + 10
    } else if 0x41 <= b <= 0x5a {
        b - 0x41 + 10
    } else {
        36
    }
}

/// A non-empty run of digits of the given base.
pub open spec fn is_numeral(digits: Seq<u8>, radix: int) -> bool {
    digits.len() > 0 && forall|i: int|
        0 <= i < digits.len() ==> digit_value(#[trigger] digits[i]) < radix
}

/// The number that a run of digits denotes, most significant digit first.
pub open spec fn numeral_value(digits: Seq<u8>, radix: int) -> int
    decreases digits.len(),
{
    if digits.len() == 0 {
        0
    } else {
        numeral_value(digits.drop_last(), radix) * radix + digit_value(digits.last())
    }
}

/// What is left of an unsigned numeral without the `+` that may lead it.
pub open spec fn unsigned_digits(text: Seq<u8>) -> Seq<u8> {
    if text.len() > 0 && text[0] == PLUS {
        text.skip(1)
    } else {
        text
    }
}

/// The value of an unsigned numeral that fits in `u32`: an optional `+`,
/// then digits and nothing else.
pub open spec fn unsigned_value(text: Seq<u8>, radix: int) -> Option<int> {
    let digits = unsigned_digits(text);
    if is_numeral(digits, radix) && numeral_value(digits, radix) <= u32::MAX {
        Some(numeral_value(digits, radix))
    } else {
        None
    }
}

/// The value of a signed numeral that fits in `i32`: an optional `+` or `-`,
/// then digits and nothing else.
pub open spec fn signed_value(text: Seq<u8>, radix: int) -> Option<int> {
    let signed = text.len() > 0 && (text[0] == PLUS || text[0] == MINUS);
    let digits = if signed {
        text.skip(1)
    } else {
        text
    };
    let magnitude = numeral_value(digits, radix);
    let value = if signed && text[0] == MINUS {
        -magnitude
    } else {
        magnitude
    };
    if is_numeral(digits, radix) && i32::MIN <= value <= i32::MAX {
        Some(value)
    } else {
        None
    }
}

/// The error with which `core::str::from_utf8` turns the given bytes down.
pub uninterp spec fn utf8_fault(bytes: Seq<u8>) -> Utf8Error;

/// `core::str::from_utf8` succeeds exactly on well-formed UTF-8 and then
/// returns a string slice over the very same bytes; its error depends on the
/// bytes alone.
pub assume_specification[ core::str::from_utf8 ](v: &[u8]) -> (r: Result<&str, Utf8Error>)
    ensures
        match r {
            Ok(s) => valid_utf8(v@) && s.spec_bytes() == v@,
            Err(e) => !valid_utf8(v@) && e == utf8_fault(v@),
        },
;

/// The error with which `u32::from_str_radix` turns the given text down.
pub uninterp spec fn radix_fault(text: Seq<u8>, radix: u32) -> ParseIntError;

/// `u32::from_str_radix` reads an optional `+` followed by digits of the base
/// and fails on anything else, on no digits at all and on a value beyond
/// `u32::MAX`. It panics on a base outside 2 to 36, which `requires` leaves out.
pub assume_specification[ u32::from_str_radix ](src: &str, radix: u32) -> (r: Result<
    u32,
    ParseIntError,
>)
    requires
        2 <= radix <= 36,
    ensures
        match r {
            Ok(v) => unsigned_value(src.spec_bytes(), radix as int) == Some(v as int),
            Err(e) => unsigned_value(src.spec_bytes(), radix as int) is None && e == radix_fault(
                src.spec_bytes(),
                radix,
            ),
        },
;

/// The error with which `str::parse::<i32>` turns the given text down.
pub uninterp spec fn decimal_fault(text: Seq<u8>) -> ParseIntError;

/// `str::parse::<i32>` reads an optional sign followed by decimal digits and
/// fails on anything else, on no digits at all and on a value outside `i32`.
#[verifier::external_body]
pub(crate) fn parse_decimal(text: &str) -> (r: Result<i32, ParseIntError>)
    ensures
        match r {
            Ok(v) => signed_value(text.spec_bytes(), 10) == Some(v as int),
            Err(e) => signed_value(text.spec_bytes(), 10) is None && e == decimal_fault(
                text.spec_bytes(),
            ),
        },
{
    text.parse::<i32>()
}

/// Whether two byte slices hold the same bytes.
pub fn same_bytes(a: &[u8], b: &[u8]) -> (same: bool)
    ensures
        same == (a@ == b@),
{
    if a.len() != b.len() {
        return false;
    }
    let mut i: usize = 0;
    while i < a.len()
        invariant
            i <= a.len(),
            a.len() == b.len(),
            forall|j: int| 0 <= j < i ==> a@[j] == b@[j],
        decreases a.len() - i,
    {
        if a[i] != b[i] {
            return false;
        }
        i += 1;
    }
    assert(a@ =~= b@);
    true
}

/// Bytes below 0x80 are well-formed UTF-8, whatever their number.
pub proof fn lemma_ascii_is_utf8(bytes: Seq<u8>)
    requires
        forall|i: int| 0 <= i < bytes.len() ==> bytes[i] < 0x80,
    ensures
        valid_utf8(bytes),
{
    assert(bytes.subrange(0, 0) =~= Seq::<u8>::empty());
    partial_valid_utf8_extend_ascii_block(bytes, 0, bytes.len() as int);
    assert(bytes.subrange(0, bytes.len() as int) =~= bytes);
}

} // verus!
