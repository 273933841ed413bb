//! A driver for the AT commands of the HC-08 Bluetooth LE serial module.
//!
//! The module is configured over a serial line with short commands in ASCII,
//! each answered by a reply of a known shape. [`Hc08`] sends those commands
//! and reads those replies. It takes the line as a [`Transport`] and the
//! clock as a [`Delay`], and assumes nothing of either: every operation is
//! proved for whatever bytes the line hands out.
//!
//! What an operation does is stated over the driver's log, the sequence of
//! bytes written, bytes read and waits that the driver has gone through.
//! Each operation says by which events the log has grown and how its result
//! follows from the bytes that were read. How those bytes are understood is
//! the business of [`response`], whose functions touch no line; how commands
//! are spelled is that of [`command`]; what the values in them mean, that of
//! [`parameters`].
//!
//! The module is in one of four modes, a role paired with whether it accepts
//! connections. The driver carries the mode in its type, so an operation that
//! the module only knows in some mode exists only on the drivers of that
//! mode. A change of mode uses the driver up and gives back a driver of the
//! new mode, or the old driver where the module did not go along.

pub mod command;
pub mod parameters;
pub mod response;
pub mod text;
pub mod transport;

use crate::command::{
    build_change_connect_internal_command, build_change_connect_internal_response,
    build_change_connect_timeout_command, build_change_connect_timeout_response,
    build_change_connectable_command, build_change_role_command,
    build_set_characteristic_uuid_command, build_set_characteristic_uuid_response,
    build_set_connect_uuid_command, build_set_connect_uuid_response,
    build_set_service_uuid_command, build_set_service_uuid_response, change_connectable_command,
    change_role_command, connect_internal_command, connect_internal_response,
    connect_timeout_command, connect_timeout_response, lemma_command_lengths, uuid_frame,
    CHANGE_BROADCAST_BASE, CHANGE_NAME_BASE, CHARACTERISTIC_UUID_RESPONSE, CLEAR_ADDR,
    CONNECT_UUID_RESPONSE, OK_QUERY, QUERY_CHARACTERISTIC_UUID, QUERY_CONNECTABLE,
    QUERY_CONNECT_UUID, QUERY_NAME, QUERY_PARAMS_COMMAND, QUERY_ROLE, QUERY_SERVICE_UUID,
    QUERY_VERSION, RESET_SETTINGS_COMMAND, SERVICE_UUID_RESPONSE, SET_CHARACTERISTIC_UUID_BASE,
    SET_CONNECT_UUID_BASE, SET_SERVICE_UUID_BASE,
};
use crate::parameters::connectable::{connectable_of, IsConnectable};
use crate::parameters::role::Role;
use crate::parameters::uuid::UUID;
use crate::parameters::{Parameters, ParseError};
use crate::response::{
    ack_result, acknowledged, check_ack, check_echo, decode_parameters, decode_role, decode_text,
    decode_uuid, echo_result, is_line_read, joined, lemma_joined_push, line_of, line_text,
    parameters_of_lines, reply_len, role_of_reply, text_of_reply, text_view, uuid_of_reply,
    CONNECTABLE_REPLY_LEN, LINE_CAPACITY, LINE_COUNT, ROLE_REPLY_LEN,
    SHORT_CONNECTABLE_REPLY_LEN, SHORT_ROLE_REPLY_LEN, UUID_REPLY_LEN, VERSION_LEN,
};
use crate::text::LF;
use crate::transport::{exchange, lemma_sent_append, received, sent, slept, Delay, Event, Transport};
use core::marker::PhantomData;
use core::str::Utf8Error;
use vstd::prelude::*;
use vstd::std_specs::convert::FromSpecImpl;
use vstd::string::StringSliceAdditionalSpecFns;

verus! {

/// Why an operation of the driver failed.
#[derive(Debug)]
pub enum Error {
    /// Reading from the line failed. No operation reports this as yet.
    Read,
    /// Writing to the line failed. No operation reports this as yet.
    Write,
    /// The speed is none that the module knows. No operation reports this as
    /// yet.
    InvalidBaudRate,
    /// The channel is none that the module knows. No operation reports this
    /// as yet.
    InvalidChannel,
    /// The module answered something else than it had to.
    WrongResponse,
    /// The module's answer could not be understood.
    ParseError(ParseError),
    /// The module's answer is not UTF-8.
    Utf8Error(Utf8Error),
}

impl From<ParseError> for Error {
    fn from(err: ParseError) -> (r: Self)
        ensures
            r == Error::ParseError(err),
    {
        Self::ParseError(err)
    }
}

impl FromSpecImpl<ParseError> for Error {
    open spec fn obeys_from_spec() -> bool {
        true
    }

    open spec fn from_spec(err: ParseError) -> Self {
        Error::ParseError(err)
    }
}

impl From<Utf8Error> for Error {
    fn from(err: Utf8Error) -> (r: Self)
        ensures
            r == Error::Utf8Error(err),
    {
        Self::Utf8Error(err)
    }
}

impl FromSpecImpl<Utf8Error> for Error {
    open spec fn obeys_from_spec() -> bool {
        true
    }

    open spec fn from_spec(err: Utf8Error) -> Self {
        Error::Utf8Error(err)
    }
}

/// The tag of a driver whose module is a master.
pub struct Master;

/// The tag of a driver whose module is a slave.
pub struct Slave;

/// The tag of a driver whose module accepts connections.
pub struct Connectable;

/// The tag of a driver whose module accepts none.
pub struct NonConnectable;

/// How many milliseconds the module needs after a new role or a new
/// connectability before it takes the next command.
pub const SETTLE_MS: u32 = 200;

/// How many bytes the buffers hold in which a connection interval or timeout
/// command and its answer are built. No such command is longer.
pub const COMMAND_CAPACITY: usize = 32;

/// What a change of mode does on the line, given the two replies of the
/// module: the role is set first; where that is acknowledged the driver
/// waits, then sets the connectability; where that is acknowledged too it
/// waits once more. A reply that is no acknowledgement ends the change at
/// once, and `second` then stands for nothing.
pub open spec fn transition(
    role: Role,
    c: IsConnectable,
    first: Seq<u8>,
    second: Seq<u8>,
) -> Seq<Event> {
    let role_step = exchange(change_role_command(role), first);
    let connectable_step = exchange(change_connectable_command(c), second);
    if !acknowledged(first) {
        role_step
    } else if !acknowledged(second) {
        role_step + slept(SETTLE_MS) + connectable_step
    } else {
        role_step + slept(SETTLE_MS) + connectable_step + slept(SETTLE_MS)
    }
}

/// A log grew by one command and a reply of two bytes, and `r` is `Ok` if
/// and only if that reply is the plain acknowledgement.
pub open spec fn acked(
    before: Seq<Event>,
    after: Seq<Event>,
    command: Seq<u8>,
    r: Result<(), Error>,
) -> bool {
    exists|reply: Seq<u8>|
        #![trigger exchange(command, reply)]
        {
            &&& reply.len() == 2
            &&& after == before + exchange(command, reply)
            &&& r == ack_result(reply)
        }
}

/// A log grew by one command and a reply as long as `expected`, and `r` is
/// `Ok` if and only if that reply is `expected`.
pub open spec fn echoed(
    before: Seq<Event>,
    after: Seq<Event>,
    command: Seq<u8>,
    expected: Seq<u8>,
    r: Result<(), Error>,
) -> bool {
    exists|reply: Seq<u8>|
        #![trigger exchange(command, reply)]
        {
            &&& reply.len() == expected.len()
            &&& after == before + exchange(command, reply)
            &&& r == echo_result(expected, reply)
        }
}

/// A log grew by a query and a reply of thirteen bytes, and `r` is the
/// identifier that the reply carries behind `prefix`.
pub open spec fn asked_uuid(
    before: Seq<Event>,
    after: Seq<Event>,
    query: Seq<u8>,
    prefix: Seq<u8>,
    r: Result<UUID, Error>,
) -> bool {
    exists|reply: Seq<u8>|
        #![trigger exchange(query, reply)]
        {
            &&& reply.len() == UUID_REPLY_LEN
            &&& after == before + exchange(query, reply)
            &&& r == uuid_of_reply(prefix, reply)
        }
}

/// A log grew by a change of mode to `role` and `c`, and `done` says whether
/// the module acknowledged both of its steps.
pub open spec fn switched(
    before: Seq<Event>,
    after: Seq<Event>,
    role: Role,
    c: IsConnectable,
    done: bool,
) -> bool {
    exists|first: Seq<u8>, second: Seq<u8>|
        #![trigger transition(role, c, first, second)]
        {
            &&& first.len() == 2
            &&& second.len() == 2
            &&& after == before + transition(role, c, first, second)
            &&& done == (acknowledged(first) && acknowledged(second))
        }
}

/// What a change to a master that accepts connections gives: the new driver,
/// or the old one where the change failed.
pub type ToCentral<S, D, R, C> = Result<Hc08<S, D, Master, Connectable>, Hc08<S, D, R, C>>;

/// What a change to a slave that accepts connections gives.
pub type ToPeripheral<S, D, R, C> = Result<Hc08<S, D, Slave, Connectable>, Hc08<S, D, R, C>>;

/// What a change to a master that accepts no connections gives.
pub type ToObserver<S, D, R, C> = Result<Hc08<S, D, Master, NonConnectable>, Hc08<S, D, R, C>>;

/// What a change to a slave that accepts no connections gives.
pub type ToBroadcast<S, D, R, C> = Result<Hc08<S, D, Slave, NonConnectable>, Hc08<S, D, R, C>>;

/// A driver for one module, tagged with the role `R` and the connectability
/// `C` that the module was last put into. The tags decide which operations
/// the driver offers.
pub struct Hc08<S, D, R, C> {
    serial: S,
    delay: D,
    role: PhantomData<R>,
    connectable: PhantomData<C>,
    log: Ghost<Seq<Event>>,
}

impl<S, D> Hc08<S, D, Master, Connectable> where S: Transport, D: Delay {
    /// Takes the line and the clock and puts the module back to its factory
    /// settings, in which it is a master that accepts connections. Where the
    /// module does not acknowledge that, there is no driver.
    pub fn new(serial: S, delay: D) -> (r: Result<Self, Error>)
        ensures
            match r {
                Ok(driver) => acked(
                    Seq::empty(),
                    driver.log(),
                    RESET_SETTINGS_COMMAND@,
                    Ok::<(), Error>(()),
                ),
                Err(e) => e == Error::WrongResponse,
            },
    {
        let mut result = Self {
            serial,
            delay,
            role: PhantomData,
            connectable: PhantomData,
            log: Ghost(Seq::empty()),
        };
        match result.reset_setting() {
            Ok(()) => Ok(result),
            Err(e) => Err(e),
        }
    }
}

impl<S, D, R, C> Hc08<S, D, R, C> where S: Transport, D: Delay {
    /// Everything that has passed between this driver and its surroundings,
    /// in the order in which it happened.
    pub closed spec fn log(&self) -> Seq<Event> {
        self.log@
    }

    fn send_byte(&mut self, byte: u8)
        ensures
            final(self).log() == old(self).log().push(Event::Sent(byte)),
    {
        self.serial.write_byte(byte);
        proof {
            self.log@ = self.log@.push(Event::Sent(byte));
        }
    }

    fn receive_byte(&mut self) -> (byte: u8)
        ensures
            final(self).log() == old(self).log().push(Event::Received(byte)),
    {
        let byte = self.serial.read_byte();
        proof {
            self.log@ = self.log@.push(Event::Received(byte));
        }
        byte
    }

    fn pause(&mut self, ms: u32)
        ensures
            final(self).log() == old(self).log() + slept(ms),
    {
        self.delay.sleep_ms(ms);
        proof {
            self.log@ = self.log@.push(Event::Slept(ms));
        }
        assert(self.log@ =~= old(self).log@ + slept(ms));
    }

    /// Writes the bytes of `buffer` to the line, in order.
    pub fn write_buffer(&mut self, buffer: &[u8]) -> (r: Result<(), Error>)
        ensures
            r is Ok,
            final(self).log() == old(self).log() + sent(buffer@),
    {
        let mut i: usize = 0;
        while i < buffer.len()
            invariant
                i <= buffer@.len(),
                self.log() == old(self).log() + sent(buffer@.take(i as int)),
            decreases buffer@.len() - i,
        {
            self.send_byte(buffer[i]);
            i += 1;
            assert(self.log() =~= old(self).log() + sent(buffer@.take(i as int)));
        }
        assert(buffer@.take(i as int) =~= buffer@);
        Ok(())
    }

    /// Fills `buffer` with the next bytes from the line, in order.
    pub fn read_buffer(&mut self, buffer: &mut [u8]) -> (r: Result<(), Error>)
        ensures
            r is Ok,
            final(buffer)@.len() == old(buffer)@.len(),
            final(self).log() == old(self).log() + received(final(buffer)@),
    {
        let mut n: usize = 0;
        while n < buffer.len()
            invariant
                n <= buffer@.len(),
                buffer@.len() == old(buffer)@.len(),
                self.log() == old(self).log() + received(buffer@.take(n as int)),
            decreases buffer@.len() - n,
        {
            let byte = self.receive_byte();
            buffer[n] = byte;
            n += 1;
            assert(self.log() =~= old(self).log() + received(buffer@.take(n as int)));
        }
        assert(buffer@.take(n as int) =~= buffer@);
        Ok(())
    }

    /// Reads a reply that comes in two lengths into the front of `buffer`:
    /// `short` bytes where its first byte is `mark`, else as many as `buffer`
    /// holds. Returns how many bytes were read.
    fn read_reply(&mut self, buffer: &mut [u8], short: usize, mark: u8) -> (n: usize)
        requires
            1 <= short <= old(buffer)@.len(),
        ensures
            final(buffer)@.len() == old(buffer)@.len(),
            n == reply_len(final(buffer)@[0], mark, short as nat, old(buffer)@.len()),
            final(self).log() == old(self).log() + received(final(buffer)@.take(n as int)),
    {
        let mut n: usize = 0;
        while n < buffer.len() && !(n == short && buffer[0] == mark)
            invariant
                n <= buffer@.len(),
                1 <= short <= buffer@.len(),
                buffer@.len() == old(buffer)@.len(),
                n > short ==> buffer@[0] != mark,
                self.log() == old(self).log() + received(buffer@.take(n as int)),
            decreases buffer@.len() - n,
        {
            let byte = self.receive_byte();
            buffer[n] = byte;
            n += 1;
            assert(self.log() =~= old(self).log() + received(buffer@.take(n as int)));
        }
        n
    }

    /// Reads one line of a reply of several lines into the front of `line`:
    /// bytes up to the first line feed, but no more than `line` holds.
    /// Returns how many bytes were read.
    fn read_line(&mut self, line: &mut [u8; LINE_CAPACITY]) -> (n: usize)
        ensures
            n <= LINE_CAPACITY,
            is_line_read(final(line)@.take(n as int)),
            final(self).log() == old(self).log() + received(final(line)@.take(n as int)),
    {
        let byte = self.receive_byte();
        line[0] = byte;
        let mut n: usize = 1;
        assert(self.log() =~= old(self).log() + received(line@.take(1)));
        while n < LINE_CAPACITY && line[n - 1] != LF
            invariant
                1 <= n <= LINE_CAPACITY,
                forall|i: int| 0 <= i < n - 1 ==> line@[i] != LF,
                self.log() == old(self).log() + received(line@.take(n as int)),
            decreases LINE_CAPACITY - n,
        {
            let byte = self.receive_byte();
            line[n] = byte;
            n += 1;
            assert(self.log() =~= old(self).log() + received(line@.take(n as int)));
        }
        n
    }

    /// Reads the two bytes with which the module acknowledges a command and
    /// says whether they are `OK`.
    fn wait_ok_response(&mut self) -> (ok: bool)
        ensures
            exists|reply: Seq<u8>|
                #![trigger received(reply)]
                {
                    &&& reply.len() == 2
                    &&& final(self).log() == old(self).log() + received(reply)
                    &&& ok == acknowledged(reply)
                },
    {
        let mut buffer = [0u8; 2];
        let _ = self.read_buffer(&mut buffer);
        assert(self.log() == old(self).log() + received(buffer@));
        check_ack(buffer.as_slice()).is_ok()
    }

    /// Writes `command` and reads the module's acknowledgement.
    fn send_command(&mut self, command: &[u8]) -> (r: Result<(), Error>)
        ensures
            acked(old(self).log(), final(self).log(), command@, r),
    {
        let _ = self.write_buffer(command);
        let ok = self.wait_ok_response();
        proof {
            let reply = choose|reply: Seq<u8>|
                #![trigger received(reply)]
                {
                    &&& reply.len() == 2
                    &&& self.log() == old(self).log() + sent(command@) + received(reply)
                    &&& ok == acknowledged(reply)
                };
            assert(self.log() =~= old(self).log() + exchange(command@, reply));
        }
        if !ok {
            Err(Error::WrongResponse)
        } else {
            Ok(())
        }
    }

    /// Writes a command that has a fixed beginning and a free end, and reads
    /// the module's acknowledgement.
    fn send_with(&mut self, base: &[u8], rest: &[u8]) -> (r: Result<(), Error>)
        ensures
            acked(old(self).log(), final(self).log(), base@ + rest@, r),
    {
        let _ = self.write_buffer(base);
        let _ = self.write_buffer(rest);
        let ok = self.wait_ok_response();
        proof {
            let reply = choose|reply: Seq<u8>|
                #![trigger received(reply)]
                {
                    &&& reply.len() == 2
                    &&& self.log() == old(self).log() + sent(base@) + sent(rest@) + received(reply)
                    &&& ok == acknowledged(reply)
                };
            lemma_sent_append(base@, rest@);
            assert(self.log() =~= old(self).log() + exchange(base@ + rest@, reply));
        }
        if !ok {
            Err(Error::WrongResponse)
        } else {
            Ok(())
        }
    }

    /// Writes `command`, reads as many bytes as `expected` has and compares
    /// them with it.
    fn send_for_echo(&mut self, command: &[u8], expected: &[u8]) -> (r: Result<(), Error>)
        requires
            expected@.len() <= COMMAND_CAPACITY,
        ensures
            echoed(old(self).log(), final(self).log(), command@, expected@, r),
    {
        let _ = self.write_buffer(command);
        let mut response = [0u8; COMMAND_CAPACITY];
        let whole: &mut [u8] = &mut response;
        let (reply, _rest) = whole.split_at_mut(expected.len());
        let _ = self.read_buffer(reply);
        assert(self.log() =~= old(self).log() + exchange(command@, reply@));
        check_echo(expected, reply)
    }

    /// Writes a query and reads the thirteen bytes of a reply that carries
    /// an identifier behind `prefix`.
    fn ask_uuid(&mut self, query: &[u8], prefix: &[u8]) -> (r: Result<UUID, Error>)
        ensures
            asked_uuid(old(self).log(), final(self).log(), query@, prefix@, r),
    {
        let _ = self.write_buffer(query);
        let mut buffer = [0u8; UUID_REPLY_LEN];
        let _ = self.read_buffer(&mut buffer);
        assert(self.log() =~= old(self).log() + exchange(query@, buffer@));
        decode_uuid(prefix, buffer.as_slice())
    }

    /// Sets the name under which the module shows itself.
    pub fn change_name(&mut self, name: &str) -> (r: Result<(), Error>)
        ensures
            acked(
                old(self).log(),
                final(self).log(),
                CHANGE_NAME_BASE@ + name.spec_bytes(),
                r,
            ),
    {
        self.send_with(CHANGE_NAME_BASE.as_slice(), name.as_bytes())
    }

    /// Asks the module whether it accepts connections. The reply is read up
    /// to fifteen bytes, but only up to eleven where it begins with `C`.
    pub fn query_connectable(&mut self) -> (r: Result<IsConnectable, Error>)
        ensures
            exists|reply: Seq<u8>|
                #![trigger exchange(QUERY_CONNECTABLE@, reply)]
                {
                    &&& reply.len() == reply_len(
                        reply[0],
                        'C' as u8,
                        SHORT_CONNECTABLE_REPLY_LEN as nat,
                        CONNECTABLE_REPLY_LEN as nat,
                    )
                    &&& final(self).log() == old(self).log() + exchange(QUERY_CONNECTABLE@, reply)
                    &&& r == match connectable_of(reply) {
                        Ok(c) => Ok::<IsConnectable, Error>(c),
                        Err(e) => Err(Error::ParseError(e)),
                    }
                },
    {
        let _ = self.write_buffer(QUERY_CONNECTABLE.as_slice());
        let mut buffer = [0u8; CONNECTABLE_REPLY_LEN];
        let n = self.read_reply(&mut buffer, SHORT_CONNECTABLE_REPLY_LEN, 'C' as u8);
        let reply = &buffer[0..n];
        assert(reply@[0] == buffer@[0]);
        assert(self.log() =~= old(self).log() + exchange(QUERY_CONNECTABLE@, reply@));
        match IsConnectable::try_from(reply) {
            Ok(c) => Ok(c),
            Err(e) => Err(Error::ParseError(e)),
        }
    }

    /// Asks the module for its role. The reply is read up to six bytes, but
    /// only up to five where it begins with `S`.
    pub fn query_role(&mut self) -> (r: Result<Role, Error>)
        ensures
            exists|reply: Seq<u8>|
                #![trigger exchange(QUERY_ROLE@, reply)]
                {
                    &&& reply.len() == reply_len(
                        reply[0],
                        'S' as u8,
                        SHORT_ROLE_REPLY_LEN as nat,
                        ROLE_REPLY_LEN as nat,
                    )
                    &&& final(self).log() == old(self).log() + exchange(QUERY_ROLE@, reply)
                    &&& r == role_of_reply(reply)
                },
    {
        let _ = self.write_buffer(QUERY_ROLE.as_slice());
        let mut buffer = [0u8; ROLE_REPLY_LEN];
        let n = self.read_reply(&mut buffer, SHORT_ROLE_REPLY_LEN, 'S' as u8);
        let reply = &buffer[0..n];
        assert(reply@[0] == buffer@[0]);
        assert(self.log() =~= old(self).log() + exchange(QUERY_ROLE@, reply@));
        decode_role(reply)
    }

    /// Puts the module back to its factory settings.
    pub fn reset_setting(&mut self) -> (r: Result<(), Error>)
        ensures
            acked(old(self).log(), final(self).log(), RESET_SETTINGS_COMMAND@, r),
    {
        self.send_command(RESET_SETTINGS_COMMAND.as_slice())
    }

    /// Asks the module whether it is there and says whether it answered `OK`.
    pub fn is_ok(&mut self) -> (ok: bool)
        ensures
            acked(
                old(self).log(),
                final(self).log(),
                OK_QUERY@,
                if ok {
                    Ok::<(), Error>(())
                } else {
                    Err(Error::WrongResponse)
                },
            ),
    {
        self.send_command(OK_QUERY.as_slice()).is_ok()
    }

    /// Asks the module for its parameters. The reply is read as eight lines,
    /// each up to its line feed but no longer than twenty-four bytes; a line
    /// without a line feed counts as empty. The second line has to report
    /// the role, the third the speed, the fourth the address.
    pub fn get_parameters(&mut self) -> (r: Result<Parameters, Error>)
        ensures
            exists|raws: Seq<Seq<u8>>|
                #![trigger joined(raws)]
                {
                    &&& raws.len() == LINE_COUNT
                    &&& forall|i: int| 0 <= i < raws.len() ==> is_line_read(#[trigger] raws[i])
                    &&& final(self).log() == old(self).log() + exchange(
                        QUERY_PARAMS_COMMAND@,
                        joined(raws),
                    )
                    &&& r == parameters_of_lines(
                        line_of(raws[1]),
                        line_of(raws[2]),
                        line_of(raws[3]),
                    )
                },
    {
        let _ = self.write_buffer(QUERY_PARAMS_COMMAND.as_slice());
        let mut lines = [[0u8; LINE_CAPACITY]; LINE_COUNT];
        let mut lens = [0usize; LINE_COUNT];
        let ghost asked = self.log();
        let ghost mut raws: Seq<Seq<u8>> = Seq::empty();
        assert(self.log() =~= asked + received(joined(raws)));
        let mut pi: usize = 0;
        while pi < LINE_COUNT
            invariant
                pi <= LINE_COUNT,
                raws.len() == pi,
                forall|i: int|
                    0 <= i < pi ==> {
                        &&& is_line_read(#[trigger] raws[i])
                        &&& lens@[i] <= LINE_CAPACITY
                        &&& raws[i] == lines@[i]@.take(lens@[i] as int)
                    },
                self.log() == asked + received(joined(raws)),
            decreases LINE_COUNT - pi,
        {
            let mut line = [0u8; LINE_CAPACITY];
            let n = self.read_line(&mut line);
            lines[pi] = line;
            lens[pi] = n;
            proof {
                lemma_joined_push(raws, line@.take(n as int));
                raws = raws.push(line@.take(n as int));
            }
            pi += 1;
        }
        assert(self.log() =~= old(self).log() + exchange(QUERY_PARAMS_COMMAND@, joined(raws)));
        assert(is_line_read(raws[1]) && is_line_read(raws[2]) && is_line_read(raws[3]));
        let role_text = line_text(&lines[1], lens[1]);
        let baud_text = line_text(&lines[2], lens[2]);
        let addr_text = line_text(&lines[3], lens[3]);
        decode_parameters(role_text, baud_text, addr_text)
    }

    /// Asks the module for the version of its firmware and reads the
    /// twenty-one bytes of the reply into `buffer`.
    pub fn get_version<'a>(&mut self, buffer: &'a mut [u8; VERSION_LEN]) -> (r: Result<
        &'a str,
        Error,
    >)
        ensures
            final(self).log() == old(self).log() + exchange(QUERY_VERSION@, final(buffer)@),
            text_view(r) == text_of_reply(final(buffer)@),
    {
        let _ = self.write_buffer(QUERY_VERSION.as_slice());
        let _ = self.read_buffer(buffer);
        assert(self.log() =~= old(self).log() + exchange(QUERY_VERSION@, buffer@));
        decode_text(buffer.as_slice())
    }

    /// Asks the module for its name and fills `buffer` with the reply.
    pub fn get_name<'a>(&mut self, buffer: &'a mut [u8]) -> (r: Result<&'a str, Error>)
        ensures
            final(buffer)@.len() == old(buffer)@.len(),
            final(self).log() == old(self).log() + exchange(QUERY_NAME@, final(buffer)@),
            text_view(r) == text_of_reply(final(buffer)@),
    {
        let _ = self.write_buffer(QUERY_NAME.as_slice());
        let _ = self.read_buffer(buffer);
        assert(self.log() =~= old(self).log() + exchange(QUERY_NAME@, buffer@));
        decode_text(buffer)
    }

    /// Sets the role of the module.
    fn change_role(&mut self, role: Role) -> (r: Result<(), Error>)
        ensures
            acked(old(self).log(), final(self).log(), change_role_command(role), r),
    {
        let cmd = build_change_role_command(role);
        self.send_command(cmd.as_slice())
    }

    /// Sets whether the module accepts connections.
    fn change_connectable(&mut self, c: IsConnectable) -> (r: Result<(), Error>)
        ensures
            acked(old(self).log(), final(self).log(), change_connectable_command(c), r),
    {
        let cmd = build_change_connectable_command(c);
        assert(cmd@.subrange(0, 8) + cmd@.subrange(9, 10) =~= change_connectable_command(c));
        self.send_with(&cmd[0..8], &cmd[9..10])
    }

    /// Puts the module into the given role and connectability, one after the
    /// other and with a wait after each, and says whether both took.
    fn change_mode(&mut self, role: Role, c: IsConnectable) -> (done: bool)
        ensures
            switched(old(self).log(), final(self).log(), role, c, done),
    {
        let first = self.change_role(role);
        let ghost reply1 = choose|reply: Seq<u8>|
            #![trigger exchange(change_role_command(role), reply)]
            {
                &&& reply.len() == 2
                &&& self.log() == old(self).log() + exchange(change_role_command(role), reply)
                &&& first == ack_result(reply)
            };
        if first.is_err() {
            assert(self.log() == old(self).log() + transition(role, c, reply1, reply1));
            return false;
        }
        self.pause(SETTLE_MS);
        let ghost settled = self.log();
        let second = self.change_connectable(c);
        let ghost reply2 = choose|reply: Seq<u8>|
            #![trigger exchange(change_connectable_command(c), reply)]
            {
                &&& reply.len() == 2
                &&& self.log() == settled + exchange(change_connectable_command(c), reply)
                &&& second == ack_result(reply)
            };
        if second.is_err() {
            assert(self.log() =~= old(self).log() + transition(role, c, reply1, reply2));
            return false;
        }
        self.pause(SETTLE_MS);
        assert(self.log() =~= old(self).log() + transition(role, c, reply1, reply2));
        true
    }

    fn tagged<R2, C2>(self) -> (next: Hc08<S, D, R2, C2>)
        ensures
            next.log() == self.log(),
    {
        Hc08 {
            serial: self.serial,
            delay: self.delay,
            role: PhantomData,
            connectable: PhantomData,
            log: self.log,
        }
    }

    /// Makes the module a master that accepts connections. Where the module
    /// does not acknowledge a step, the change ends there and the driver
    /// comes back with the tags that it had.
    pub fn into_central_mode(self) -> (r: ToCentral<S, D, R, C>)
        ensures
            match r {
                Ok(next) => switched(
                    self.log(),
                    next.log(),
                    Role::Master,
                    IsConnectable(true),
                    true,
                ),
                Err(same) => switched(
                    self.log(),
                    same.log(),
                    Role::Master,
                    IsConnectable(true),
                    false,
                ),
            },
    {
        let mut driver = self;
        if driver.change_mode(Role::Master, IsConnectable(true)) {
            Ok(driver.tagged())
        } else {
            Err(driver)
        }
    }

    /// Makes the module a slave that accepts connections. Where the module
    /// does not acknowledge a step, the change ends there and the driver
    /// comes back with the tags that it had.
    pub fn into_peripheral_mode(self) -> (r: ToPeripheral<S, D, R, C>)
        ensures
            match r {
                Ok(next) => switched(
                    self.log(),
                    next.log(),
                    Role::Slave,
                    IsConnectable(true),
                    true,
                ),
                Err(same) => switched(
                    self.log(),
                    same.log(),
                    Role::Slave,
                    IsConnectable(true),
                    false,
                ),
            },
    {
        let mut driver = self;
        if driver.change_mode(Role::Slave, IsConnectable(true)) {
            Ok(driver.tagged())
        } else {
            Err(driver)
        }
    }

    /// Makes the module a master that accepts no connections. Where the
    /// module does not acknowledge a step, the change ends there and the
    /// driver comes back with the tags that it had.
    pub fn into_observer_mode(self) -> (r: ToObserver<S, D, R, C>)
        ensures
            match r {
                Ok(next) => switched(
                    self.log(),
                    next.log(),
                    Role::Master,
                    IsConnectable(false),
                    true,
                ),
                Err(same) => switched(
                    self.log(),
                    same.log(),
                    Role::Master,
                    IsConnectable(false),
                    false,
                ),
            },
    {
        let mut driver = self;
        if driver.change_mode(Role::Master, IsConnectable(false)) {
            Ok(driver.tagged())
        } else {
            Err(driver)
        }
    }

    /// Makes the module a slave that accepts no connections. Where the
    /// module does not acknowledge a step, the change ends there and the
    /// driver comes back with the tags that it had.
    pub fn into_broadcast_mode(self) -> (r: ToBroadcast<S, D, R, C>)
        ensures
            match r {
                Ok(next) => switched(
                    self.log(),
                    next.log(),
                    Role::Slave,
                    IsConnectable(false),
                    true,
                ),
                Err(same) => switched(
                    self.log(),
                    same.log(),
                    Role::Slave,
                    IsConnectable(false),
                    false,
                ),
            },
    {
        let mut driver = self;
        if driver.change_mode(Role::Slave, IsConnectable(false)) {
            Ok(driver.tagged())
        } else {
            Err(driver)
        }
    }
}

impl<S, D> Hc08<S, D, Slave, NonConnectable> where S: Transport, D: Delay {
    /// Sets the data that the module broadcasts.
    pub fn change_broadcast_data(&mut self, data: &[u8]) -> (r: Result<(), Error>)
        ensures
            acked(old(self).log(), final(self).log(), CHANGE_BROADCAST_BASE@ + data@, r),
    {
        self.send_with(CHANGE_BROADCAST_BASE.as_slice(), data)
    }
}

impl<S, D, R> Hc08<S, D, R, Connectable> where S: Transport, D: Delay {
    /// Sets the bounds of the connection interval. The module has to answer
    /// with the numbers that it was sent.
    pub fn change_connect_internal(&mut self, min: u32, max: u32) -> (r: Result<(), Error>)
        ensures
            echoed(
                old(self).log(),
                final(self).log(),
                connect_internal_command(min, max),
                connect_internal_response(min, max),
                r,
            ),
    {
        proof {
            lemma_command_lengths(min, max, 0);
        }
        let mut command = [0u8; COMMAND_CAPACITY];
        let mut expected = [0u8; COMMAND_CAPACITY];
        let cmd = build_change_connect_internal_command(min, max, &mut command);
        let expect = build_change_connect_internal_response(min, max, &mut expected);
        self.send_for_echo(cmd, expect)
    }

    /// Sets the connection timeout. The module has to answer with the number
    /// that it was sent.
    pub fn change_connect_timeout(&mut self, time: u32) -> (r: Result<(), Error>)
        ensures
            echoed(
                old(self).log(),
                final(self).log(),
                connect_timeout_command(time),
                connect_timeout_response(time),
                r,
            ),
    {
        proof {
            lemma_command_lengths(0, 0, time);
        }
        let mut command = [0u8; COMMAND_CAPACITY];
        let mut expected = [0u8; COMMAND_CAPACITY];
        let cmd = build_change_connect_timeout_command(time, &mut command);
        let expect = build_change_connect_timeout_response(time, &mut expected);
        self.send_for_echo(cmd, expect)
    }
}

impl<S, D> Hc08<S, D, Master, Connectable> where S: Transport, D: Delay {
    /// Makes the module forget the slave that it is bonded to.
    pub fn clear_slave_addr(&mut self) -> (r: Result<(), Error>)
        ensures
            acked(old(self).log(), final(self).log(), CLEAR_ADDR@, r),
    {
        self.send_command(CLEAR_ADDR.as_slice())
    }

    /// Asks the module for the identifier that it connects to.
    pub fn query_connect_uuid(&mut self) -> (r: Result<UUID, Error>)
        ensures
            asked_uuid(
                old(self).log(),
                final(self).log(),
                QUERY_CONNECT_UUID@,
                CONNECT_UUID_RESPONSE@,
                r,
            ),
    {
        self.ask_uuid(QUERY_CONNECT_UUID.as_slice(), CONNECT_UUID_RESPONSE.as_slice())
    }

    /// Sets the identifier that the module connects to. The module has to
    /// answer with the digits that it was sent.
    pub fn set_connect_uuid(&mut self, uuid: UUID) -> (r: Result<(), Error>)
        ensures
            echoed(
                old(self).log(),
                final(self).log(),
                uuid_frame(SET_CONNECT_UUID_BASE@, uuid),
                uuid_frame(CONNECT_UUID_RESPONSE@, uuid),
                r,
            ),
    {
        let cmd = build_set_connect_uuid_command(uuid);
        let expect = build_set_connect_uuid_response(uuid);
        self.send_for_echo(cmd.as_slice(), expect.as_slice())
    }
}

impl<S, D> Hc08<S, D, Slave, Connectable> where S: Transport, D: Delay {
    /// Asks the module for the identifier of its service.
    pub fn get_service_uuid(&mut self) -> (r: Result<UUID, Error>)
        ensures
            asked_uuid(
                old(self).log(),
                final(self).log(),
                QUERY_SERVICE_UUID@,
                SERVICE_UUID_RESPONSE@,
                r,
            ),
    {
        self.ask_uuid(QUERY_SERVICE_UUID.as_slice(), SERVICE_UUID_RESPONSE.as_slice())
    }

    /// Sets the identifier of the module's service. The module has to answer
    /// with the digits that it was sent.
    pub fn set_service_uuid(&mut self, uuid: UUID) -> (r: Result<(), Error>)
        ensures
            echoed(
                old(self).log(),
                final(self).log(),
                uuid_frame(SET_SERVICE_UUID_BASE@, uuid),
                uuid_frame(SERVICE_UUID_RESPONSE@, uuid),
                r,
            ),
    {
        let cmd = build_set_service_uuid_command(uuid);
        let expect = build_set_service_uuid_response(uuid);
        self.send_for_echo(cmd.as_slice(), expect.as_slice())
    }

    /// Asks the module for the identifier of its characteristic.
    pub fn get_characteristic_uuid(&mut self) -> (r: Result<UUID, Error>)
        ensures
            asked_uuid(
                old(self).log(),
                final(self).log(),
                QUERY_CHARACTERISTIC_UUID@,
                CHARACTERISTIC_UUID_RESPONSE@,
                r,
            ),
    {
        self.ask_uuid(
            QUERY_CHARACTERISTIC_UUID.as_slice(),
            CHARACTERISTIC_UUID_RESPONSE.as_slice(),
        )
    }

    /// Sets the identifier of the module's characteristic. The module has to
    /// answer with the digits that it was sent.
    pub fn set_characteristic_uuid(&mut self, uuid: UUID) -> (r: Result<(), Error>)
        ensures
            echoed(
                old(self).log(),
                final(self).log(),
                uuid_frame(SET_CHARACTERISTIC_UUID_BASE@, uuid),
                uuid_frame(CHARACTERISTIC_UUID_RESPONSE@, uuid),
                r,
            ),
    {
        let cmd = build_set_characteristic_uuid_command(uuid);
        let expect = build_set_characteristic_uuid_response(uuid);
        self.send_for_echo(cmd.as_slice(), expect.as_slice())
    }
}

} // verus!
