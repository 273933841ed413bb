//! Whether the module accepts connections.

use super::ParseError;
use crate::text::same_bytes;
use vstd::prelude::*;
use vstd::std_specs::convert::TryFromSpecImpl;

verus! {

/// Whether the module accepts connections.
#[derive(Debug, Copy, Clone, Eq, PartialEq, Structural)]
pub struct IsConnectable(pub bool);

/// `Connectable`, as the module spells it.
pub const CONNECTABLE: [u8; 11] = [
    'C' as u8, 'o' as u8, 'n' as u8, 'n' as u8, 'e' as u8, 'c' as u8,
    't' as u8, 'a' as u8, 'b' as u8, 'l' as u8, 'e' as u8,
];

/// `Non-Connectable`, as the module spells it.
pub const NO_CONNECTABLE: [u8; 15] = [
    'N' as u8, 'o' as u8, 'n' as u8, '-' as u8, 'C' as u8, 'o' as u8,
    'n' as u8, 'n' as u8, 'e' as u8, 'c' as u8, 't' as u8, 'a' as u8,
    'b' as u8, 'l' as u8, 'e' as u8,
];

/// What the given text says about connections: `Connectable` that they are
/// accepted, `Non-Connectable` that they are not, anything else nothing.
pub open spec fn connectable_of(text: Seq<u8>) -> Result<IsConnectable, ParseError> {
    if text == CONNECTABLE@ {
        Ok(IsConnectable(true))
    } else if text == NO_CONNECTABLE@ {
        Ok(IsConnectable(false))
    } else {
        Err(ParseError::WrongValue)
    }
}

impl<'a> TryFrom<&'a [u8]> for IsConnectable {
    type Error = ParseError;

    /// Reads `Connectable` or `Non-Connectable`, spelled exactly so.
    fn try_from(value: &'a [u8]) -> (r: Result<Self, ParseError>)
        ensures
            r == connectable_of(value@),
    {
        if same_bytes(value, CONNECTABLE.as_slice()) {
            Ok(IsConnectable(true))
        } else if same_bytes(value, NO_CONNECTABLE.as_slice()) {
            Ok(IsConnectable(false))
        } else {
            Err(ParseError::WrongValue)
        }
    }
}

impl<'a> TryFromSpecImpl<&'a [u8]> for IsConnectable {
    open spec fn obeys_try_from_spec() -> bool {
        true
    }

    open spec fn try_from_spec(value: &'a [u8]) -> Result<Self, ParseError> {
        connectable_of(value@)
    }
}

} // verus!
