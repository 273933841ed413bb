//! What the replies of the module mean.
//!
//! The functions here take the bytes of a reply and say what the driver
//! returns for them. They touch no line, so each can be tried on any bytes.

use crate::command::OK_RESPONSE;
use crate::parameters::addr::{addr_of_line, Addr};
use crate::parameters::baudrate::{baud_of_line, BaudRate};
use crate::parameters::role::{role_named, role_of_line, Role};
use crate::parameters::uuid::{uuid_of, UUID};
use crate::parameters::{Parameters, ParseError};
use crate::text::{same_bytes, utf8_fault, LF};
use crate::transport::{lemma_received_append, received};
use crate::Error;
use vstd::prelude::*;
use vstd::string::StringSliceAdditionalSpecFns;
use vstd::utf8::valid_utf8;

verus! {

/// How many bytes the reply to a query for the role has at most.
pub const ROLE_REPLY_LEN: usize = 6;

/// How many bytes that reply has where it begins with `S`.
pub const SHORT_ROLE_REPLY_LEN: usize = 5;

/// How many bytes the reply to a query for connectability has at most.
pub const CONNECTABLE_REPLY_LEN: usize = 15;

/// How many bytes that reply has where it begins with `C`.
pub const SHORT_CONNECTABLE_REPLY_LEN: usize = 11;

/// How many bytes a reply that carries an identifier has.
pub const UUID_REPLY_LEN: usize = 13;

/// How many bytes the reply to a query for the version has.
pub const VERSION_LEN: usize = 21;

/// How many lines the reply to a query for the parameters has.
pub const LINE_COUNT: usize = 8;

/// How many bytes a line of that reply has at most.
pub const LINE_CAPACITY: usize = 24;

/// How many bytes are read of a reply that comes in two lengths: `short`
/// where it begins with `mark`, else `full`.
pub open spec fn reply_len(first: u8, mark: u8, short: nat, full: nat) -> nat {
    if first == mark {
        short
    } else {
        full
    }
}

/// Whether the reply is the plain acknowledgement.
pub open spec fn acknowledged(reply: Seq<u8>) -> bool {
    reply == OK_RESPONSE@
}

/// What a command returns whose reply has to be the plain acknowledgement.
pub open spec fn ack_result(reply: Seq<u8>) -> Result<(), Error> {
    if acknowledged(reply) {
        Ok(())
    } else {
        Err(Error::WrongResponse)
    }
}

/// What a command returns whose reply has to be `expected`, byte for byte.
pub open spec fn echo_result(expected: Seq<u8>, reply: Seq<u8>) -> Result<(), Error> {
    if reply == expected {
        Ok(())
    } else {
        Err(Error::WrongResponse)
    }
}

/// The role that the reply to a query for the role names. A reply that is
/// not UTF-8 is turned down as such; one that is neither `Master` nor `Slave`
/// is a wrong value.
pub open spec fn role_of_reply(reply: Seq<u8>) -> Result<Role, Error> {
    if !valid_utf8(reply) {
        Err(Error::Utf8Error(utf8_fault(reply)))
    } else {
        match role_named(reply) {
            Ok(role) => Ok(role),
            Err(e) => Err(Error::ParseError(e)),
        }
    }
}

/// The identifier that a reply carries behind the nine bytes of `prefix`. A
/// reply that does not begin with `prefix` is a wrong response.
pub open spec fn uuid_of_reply(prefix: Seq<u8>, reply: Seq<u8>) -> Result<UUID, Error> {
    if prefix.len() <= reply.len() && reply.subrange(0, prefix.len() as int) == prefix {
        match uuid_of(reply.subrange(prefix.len() as int, reply.len() as int)) {
            Ok(uuid) => Ok(uuid),
            Err(e) => Err(Error::ParseError(e)),
        }
    } else {
        Err(Error::WrongResponse)
    }
}

/// The text of a reply that is nothing but text: the reply itself where it is
/// UTF-8, a wrong response where it is not.
pub open spec fn text_of_reply(reply: Seq<u8>) -> Result<Seq<u8>, Error> {
    if valid_utf8(reply) {
        Ok(reply)
    } else {
        Err(Error::WrongResponse)
    }
}

/// The bytes of a text in a result.
pub open spec fn text_view(r: Result<&str, Error>) -> Result<Seq<u8>, Error> {
    match r {
        Ok(text) => Ok(text.spec_bytes()),
        Err(e) => Err(e),
    }
}

/// Whether `raw` is what reading one line takes from the wire: the bytes up
/// to the first line feed and that line feed, or as many bytes as a line can
/// have, none of them a line feed.
pub open spec fn is_line_read(raw: Seq<u8>) -> bool {
    &&& 1 <= raw.len() <= LINE_CAPACITY
    &&& forall|i: int| 0 <= i < raw.len() - 1 ==> raw[i] != LF
    &&& (raw.last() == LF || raw.len() == LINE_CAPACITY)
}

/// The line that was read: the bytes with their line feed, or nothing where
/// no line feed came in time.
pub open spec fn line_of(raw: Seq<u8>) -> Seq<u8> {
    if raw.len() > 0 && raw.last() == LF {
        raw
    } else {
        Seq::empty()
    }
}

/// The bytes of several reads, one after the other.
pub open spec fn joined(raws: Seq<Seq<u8>>) -> Seq<u8>
    decreases raws.len(),
{
    if raws.len() == 0 {
        Seq::empty()
    } else {
        joined(raws.drop_last()) + raws.last()
    }
}

/// Reading one more run of bytes reads what was read before and then that
/// run.
pub proof fn lemma_joined_push(raws: Seq<Seq<u8>>, raw: Seq<u8>)
    ensures
        joined(raws.push(raw)) == joined(raws) + raw,
        received(joined(raws.push(raw))) == received(joined(raws)) + received(raw),
{
    assert(raws.push(raw).drop_last() =~= raws);
    lemma_received_append(joined(raws), raw);
}

/// The parameters that three lines report: the role, the speed and the
/// address. The first line that cannot be read decides the error.
pub open spec fn parameters_of_lines(
    role_line: Seq<u8>,
    baud_line: Seq<u8>,
    addr_line: Seq<u8>,
) -> Result<Parameters, Error> {
    match role_of_line(role_line) {
        Err(e) => Err(Error::ParseError(e)),
        Ok(role) => match baud_of_line(baud_line) {
            Err(e) => Err(Error::ParseError(e)),
            Ok(baud_rate) => match addr_of_line(addr_line) {
                Err(e) => Err(Error::ParseError(e)),
                Ok(octets) => Ok(Parameters { role, baud_rate, addr: Addr::of(octets) }),
            },
        },
    }
}

/// The line in the first `n` bytes of `buffer`, as they were read from the
/// wire: those bytes where the last of them is a line feed, else nothing.
pub fn line_text<'a>(buffer: &'a [u8; LINE_CAPACITY], n: usize) -> (line: &'a [u8])
    requires
        n <= LINE_CAPACITY,
    ensures
        line@ == line_of(buffer@.take(n as int)),
{
    if n > 0 && buffer[n - 1] == LF {
        let line = &buffer[0..n];
        assert(line@ =~= line_of(buffer@.take(n as int)));
        line
    } else {
        let line = &buffer[0..0];
        assert(line@ =~= line_of(buffer@.take(n as int)));
        line
    }
}

/// `Ok` where the reply is the plain acknowledgement `OK`, a wrong response
/// where it is anything else.
pub fn check_ack(reply: &[u8]) -> (r: Result<(), Error>)
    ensures
        r == ack_result(reply@),
{
    if same_bytes(reply, OK_RESPONSE.as_slice()) {
        Ok(())
    } else {
        Err(Error::WrongResponse)
    }
}

/// `Ok` where the reply is `expected`, byte for byte, a wrong response where
/// it differs in a byte or in length.
pub fn check_echo(expected: &[u8], reply: &[u8]) -> (r: Result<(), Error>)
    ensures
        r == echo_result(expected@, reply@),
{
    if same_bytes(reply, expected) {
        Ok(())
    } else {
        Err(Error::WrongResponse)
    }
}

/// Reads the reply to a query for the role.
pub fn decode_role(reply: &[u8]) -> (r: Result<Role, Error>)
    ensures
        r == role_of_reply(reply@),
{
    let name = match core::str::from_utf8(reply) {
        Ok(name) => name,
        Err(e) => { return Err(Error::Utf8Error(e)); },
    };
    match Role::try_from(name) {
        Ok(role) => Ok(role),
        Err(e) => Err(Error::ParseError(e)),
    }
}

/// Reads a reply that carries an identifier behind `prefix`.
pub fn decode_uuid(prefix: &[u8], reply: &[u8]) -> (r: Result<UUID, Error>)
    ensures
        r == uuid_of_reply(prefix@, reply@),
{
    let k = prefix.len();
    if reply.len() < k || !same_bytes(&reply[0..k], prefix) {
        return Err(Error::WrongResponse);
    }
    match UUID::try_from(&reply[k..reply.len()]) {
        Ok(uuid) => Ok(uuid),
        Err(e) => Err(Error::ParseError(e)),
    }
}

/// Reads a reply that is nothing but text.
pub fn decode_text<'a>(reply: &'a [u8]) -> (r: Result<&'a str, Error>)
    ensures
        text_view(r) == text_of_reply(reply@),
{
    match core::str::from_utf8(reply) {
        Ok(text) => Ok(text),
        Err(_e) => Err(Error::WrongResponse),
    }
}

/// Reads the three lines of the reply to a query for the parameters that
/// report the role, the speed and the address.
pub fn decode_parameters(role_line: &[u8], baud_line: &[u8], addr_line: &[u8]) -> (r: Result<
    Parameters,
    Error,
>)
    ensures
        r == parameters_of_lines(role_line@, baud_line@, addr_line@),
{
    let role = match Role::try_from(role_line) {
        Ok(role) => role,
        Err(e) => { return Err(Error::ParseError(e)); },
    };
    let baud_rate = match BaudRate::try_from(baud_line) {
        Ok(baud_rate) => baud_rate,
        Err(e) => { return Err(Error::ParseError(e)); },
    };
    let addr = match Addr::try_from(addr_line) {
        Ok(addr) => addr,
        Err(e) => { return Err(Error::ParseError(e)); },
    };
    Ok(Parameters { role, baud_rate, addr })
}

} // verus!
