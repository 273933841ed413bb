//! The values that the module reports and accepts, and how its lines of text
//! are taken apart.

pub mod addr;
pub mod baudrate;
pub mod connectable;
pub mod role;
pub mod uuid;

use crate::text::{CR, LF};
use core::num::ParseIntError;
use core::str::Utf8Error;
use vstd::prelude::*;
use vstd::std_specs::convert::FromSpecImpl;

verus! {

/// What a bulk query of the module tells about it.
#[derive(Debug, Clone, Copy, PartialEq, Eq)]
pub struct Parameters {
    pub role: role::Role,
    pub baud_rate: baudrate::BaudRate,
    pub addr: addr::Addr,
}

/// Why a piece of text from the module could not be understood.
#[derive(Debug)]
pub enum ParseError {
    /// The line does not begin with the label of the field.
    PrefixError,
    /// The line does not end in carriage return and line feed where it must.
    WithoutNewline,
    /// The text is none of the values that the field can take.
    WrongValue,
    /// The text is not UTF-8.
    Uft8Error(Utf8Error),
    /// The text is no number.
    ParseIntError(ParseIntError),
}

impl From<Utf8Error> for ParseError {
    fn from(err: Utf8Error) -> (r: Self)
        ensures
            r == ParseError::Uft8Error(err),
    {
        Self::Uft8Error(err)
    }
}

impl FromSpecImpl<Utf8Error> for ParseError {
    open spec fn obeys_from_spec() -> bool {
        true
    }

    open spec fn from_spec(err: Utf8Error) -> Self {
        ParseError::Uft8Error(err)
    }
}

impl From<ParseIntError> for ParseError {
    fn from(err: ParseIntError) -> (r: Self)
        ensures
            r == ParseError::ParseIntError(err),
    {
        Self::ParseIntError(err)
    }
}

impl FromSpecImpl<ParseIntError> for ParseError {
    open spec fn obeys_from_spec() -> bool {
        true
    }

    open spec fn from_spec(err: ParseIntError) -> Self {
        ParseError::ParseIntError(err)
    }
}

/// Whether `line` begins with the bytes of `prefix`.
pub open spec fn has_prefix(line: Seq<u8>, prefix: Seq<u8>) -> bool {
    prefix.len() <= line.len() && line.subrange(0, prefix.len() as int) == prefix
}

/// Whether `line` ends in carriage return and line feed, both of them behind
/// the first `prefix_len` bytes.
pub open spec fn is_terminated(line: Seq<u8>, prefix_len: nat) -> bool {
    prefix_len + 2 <= line.len() && line[line.len() - 2] == CR && line[line.len() - 1] == LF
}

/// What stands between the label and the line ending of a line of the
/// module, or the reason why the line is not of that shape. The label is
/// looked at first.
pub open spec fn payload_of(line: Seq<u8>, prefix: Seq<u8>) -> Result<Seq<u8>, ParseError> {
    if !has_prefix(line, prefix) {
        Err(ParseError::PrefixError)
    } else if !is_terminated(line, prefix.len()) {
        Err(ParseError::WithoutNewline)
    } else {
        Ok(line.subrange(prefix.len() as int, line.len() - 2))
    }
}

/// The view of a payload that was cut out of a line.
pub open spec fn payload_view(r: Result<&[u8], ParseError>) -> Result<Seq<u8>, ParseError> {
    match r {
        Ok(bytes) => Ok(bytes@),
        Err(e) => Err(e),
    }
}

/// Cuts the payload out of a line: checks the label, then the line ending,
/// and returns what lies between them.
pub fn payload<'a>(line: &'a [u8], prefix: &[u8]) -> (r: Result<&'a [u8], ParseError>)
    ensures
        payload_view(r) == payload_of(line@, prefix@),
{
    let n = line.len();
    let k = prefix.len();
    if n < k {
        return Err(ParseError::PrefixError);
    }
    let mut i: usize = 0;
    while i < k
        invariant
            i <= k,
            k == prefix@.len(),
            k <= line@.len(),
            forall|j: int| 0 <= j < i ==> line@[j] == prefix@[j],
        decreases k - i,
    {
        if line[i] != prefix[i] {
            assert(line@.subrange(0, k as int)[i as int] != prefix@[i as int]);
            return Err(ParseError::PrefixError);
        }
        i += 1;
    }
    assert(line@.subrange(0, k as int) =~= prefix@);
    if n - k < 2 || line[n - 2] != CR || line[n - 1] != LF {
        return Err(ParseError::WithoutNewline);
    }
    Ok(&line[k..n - 2])
}

} // verus!
