//! Which end of a connection the module takes.

use super::{has_prefix, is_terminated, payload, payload_of, ParseError};
use crate::text::{lemma_ascii_is_utf8, same_bytes, utf8_fault, CR, LF};
use vstd::prelude::*;
use vstd::std_specs::convert::TryFromSpecImpl;
use vstd::string::StringSliceAdditionalSpecFns;
use vstd::utf8::valid_utf8;

verus! {

/// `Master`, as the module spells it.
pub const MASTER: [u8; 6] = ['M' as u8, 'a' as u8, 's' as u8, 't' as u8, 'e' as u8, 'r' as u8];

/// `Slave`, as the module spells it.
pub const SLAVE: [u8; 5] = ['S' as u8, 'l' as u8, 'a' as u8, 'v' as u8, 'e' as u8];

/// `Role:`, the label of the line that reports the role.
pub const ROLE_PREFIX: [u8; 5] = ['R' as u8, 'o' as u8, 'l' as u8, 'e' as u8, ':' as u8];

#[derive(Debug, Copy, Clone, Eq, PartialEq, Structural)]
pub enum Role {
    Master,
    Slave,
}

impl Role {
    /// The name under which the module reports the role.
    pub open spec fn name(self) -> Seq<u8> {
        match self {
            Role::Master => MASTER@,
            Role::Slave => SLAVE@,
        }
    }

    /// The line with which the module reports the role.
    pub open spec fn line(self) -> Seq<u8> {
        ROLE_PREFIX@ + self.name() + seq![CR, LF]
    }
}

/// The role that goes by the given name.
pub open spec fn role_named(name: Seq<u8>) -> Result<Role, ParseError> {
    if name == MASTER@ {
        Ok(Role::Master)
    } else if name == SLAVE@ {
        Ok(Role::Slave)
    } else {
        Err(ParseError::WrongValue)
    }
}

/// The role that a payload names; a payload that is not UTF-8 is turned down
/// as such before it is compared with the names.
pub open spec fn role_of_text(text: Seq<u8>) -> Result<Role, ParseError> {
    if !valid_utf8(text) {
        Err(ParseError::Uft8Error(utf8_fault(text)))
    } else {
        role_named(text)
    }
}

/// The role that a line `Role:<name>\r\n` reports.
pub open spec fn role_of_line(line: Seq<u8>) -> Result<Role, ParseError> {
    match payload_of(line, ROLE_PREFIX@) {
        Err(e) => Err(e),
        Ok(text) => role_of_text(text),
    }
}

fn named(name: &[u8]) -> (r: Result<Role, ParseError>)
    ensures
        r == role_named(name@),
{
    if same_bytes(name, MASTER.as_slice()) {
        Ok(Role::Master)
    } else if same_bytes(name, SLAVE.as_slice()) {
        Ok(Role::Slave)
    } else {
        Err(ParseError::WrongValue)
    }
}

impl<'a> TryFrom<&'a str> for Role {
    type Error = ParseError;

    /// The role that goes by the given name: `Master` or `Slave`, spelled
    /// exactly so. Any other text is a `WrongValue`.
    fn try_from(value: &'a str) -> (r: Result<Self, ParseError>)
        ensures
            r == role_named(value.spec_bytes()),
    {
        named(value.as_bytes())
    }
}

impl<'a> TryFromSpecImpl<&'a str> for Role {
    open spec fn obeys_try_from_spec() -> bool {
        true
    }

    open spec fn try_from_spec(value: &'a str) -> Result<Self, ParseError> {
        role_named(value.spec_bytes())
    }
}

impl<'a> TryFrom<&'a [u8]> for Role {
    type Error = ParseError;

    /// Reads the line `Role:<name>\r\n`.
    fn try_from(value: &'a [u8]) -> (r: Result<Self, ParseError>)
        ensures
            r == role_of_line(value@),
    {
        let text = match payload(value, ROLE_PREFIX.as_slice()) {
            Ok(text) => text,
            Err(e) => { return Err(e); },
        };
        match core::str::from_utf8(text) {
            Ok(name) => named(name.as_bytes()),
            Err(e) => Err(ParseError::Uft8Error(e)),
        }
    }
}

impl<'a> TryFromSpecImpl<&'a [u8]> for Role {
    open spec fn obeys_try_from_spec() -> bool {
        true
    }

    open spec fn try_from_spec(value: &'a [u8]) -> Result<Self, ParseError> {
        role_of_line(value@)
    }
}

/// Reading the line that reports a role gives that role back.
pub proof fn lemma_role_line_round_trip(role: Role)
    ensures
        role_of_line(role.line()) == Ok::<Role, ParseError>(role),
{
    let line = role.line();
    let name = role.name();
    assert(line.subrange(0, 5) =~= ROLE_PREFIX@);
    assert(line.subrange(5, line.len() - 2) =~= name);
    lemma_ascii_is_utf8(name);
    assert(MASTER@ != SLAVE@) by {
        assert(MASTER@.len() != SLAVE@.len());
    }
}

/// A line without the label `Role:` is turned down for its label, and a line
/// with the label that does not end in carriage return and line feed for its
/// ending, whatever else they hold.
pub proof fn lemma_role_line_framing(line: Seq<u8>)
    ensures
        !has_prefix(line, ROLE_PREFIX@) ==> role_of_line(line) == Err::<Role, ParseError>(
            ParseError::PrefixError,
        ),
        has_prefix(line, ROLE_PREFIX@) && !is_terminated(line, 5) ==> role_of_line(line) == Err::<
            Role,
            ParseError,
        >(ParseError::WithoutNewline),
{
}

} // verus!
