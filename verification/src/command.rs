//! The commands that the module understands and the answers with which it
//! echoes a new setting, byte for byte.

use crate::parameters::connectable::IsConnectable;
use crate::parameters::role::Role;
use crate::parameters::uuid::{uuid_digits, UUID};
use crate::text::{is_numeral, numeral_value, COMMA};
use vstd::prelude::*;

verus! {

/// `AT`: asks whether the module is there.
pub const OK_QUERY: [u8; 2] = ['A' as u8, 'T' as u8];

/// `OK`: the module's plain acknowledgement.
pub const OK_RESPONSE: [u8; 2] = ['O' as u8, 'K' as u8];

/// `AT+RX`: asks for the module's parameters.
pub const QUERY_PARAMS_COMMAND: [u8; 5] = ['A' as u8, 'T' as u8, '+' as u8, 'R' as u8, 'X' as u8];

/// `AT+DEFAULT`: puts the module back to its factory settings.
pub const RESET_SETTINGS_COMMAND: [u8; 10] = [
    'A' as u8, 'T' as u8, '+' as u8, 'D' as u8, 'E' as u8, 'F' as u8,
    'A' as u8, 'U' as u8, 'L' as u8, 'T' as u8,
];

/// `AT+VERSION`: asks for the firmware's version.
pub const QUERY_VERSION: [u8; 10] = [
    'A' as u8, 'T' as u8, '+' as u8, 'V' as u8, 'E' as u8, 'R' as u8,
    'S' as u8, 'I' as u8, 'O' as u8, 'N' as u8,
];

/// `AT+ROLE=`: sets the role; the role's letter follows.
pub const ROLE_BASE: [u8; 8] = [
    'A' as u8, 'T' as u8, '+' as u8, 'R' as u8, 'O' as u8, 'L' as u8,
    'E' as u8, '=' as u8,
];

/// `AT+ROLE=?`: asks for the role.
pub const QUERY_ROLE: [u8; 9] = [
    'A' as u8, 'T' as u8, '+' as u8, 'R' as u8, 'O' as u8, 'L' as u8,
    'E' as u8, '=' as u8, '?' as u8,
];

/// `AT+CONT=`: sets whether connections are accepted.
pub const CONNECTABLE_BASE: [u8; 8] = [
    'A' as u8, 'T' as u8, '+' as u8, 'C' as u8, 'O' as u8, 'N' as u8,
    'T' as u8, '=' as u8,
];

/// `AT+CONT=?`: asks whether connections are accepted.
pub const QUERY_CONNECTABLE: [u8; 9] = [
    'A' as u8, 'T' as u8, '+' as u8, 'C' as u8, 'O' as u8, 'N' as u8,
    'T' as u8, '=' as u8, '?' as u8,
];

/// `AT+AVDA=`: sets the data that is broadcast; the data follows.
pub const CHANGE_BROADCAST_BASE: [u8; 8] = [
    'A' as u8, 'T' as u8, '+' as u8, 'A' as u8, 'V' as u8, 'D' as u8,
    'A' as u8, '=' as u8,
];

/// `AT+NAME=`: sets the module's name; the name follows.
pub const CHANGE_NAME_BASE: [u8; 8] = [
    'A' as u8, 'T' as u8, '+' as u8, 'N' as u8, 'A' as u8, 'M' as u8,
    'E' as u8, '=' as u8,
];

/// `AT+NAME=?`: asks for the module's name.
pub const QUERY_NAME: [u8; 9] = [
    'A' as u8, 'T' as u8, '+' as u8, 'N' as u8, 'A' as u8, 'M' as u8,
    'E' as u8, '=' as u8, '?' as u8,
];

/// `AT+CLEAR`: forgets the address of the bonded peer.
pub const CLEAR_ADDR: [u8; 8] = [
    'A' as u8, 'T' as u8, '+' as u8, 'C' as u8, 'L' as u8, 'E' as u8,
    'A' as u8, 'R' as u8,
];

/// `AT+CINT=`: sets the connection interval.
pub const CHANGE_CONNECT_INTERNAL_BASE: [u8; 8] = [
    'A' as u8, 'T' as u8, '+' as u8, 'C' as u8, 'I' as u8, 'N' as u8,
    'T' as u8, '=' as u8,
];

/// `OK+CINT=`: begins the answer to a new connection interval.
pub const CHANGE_CONNECT_INTERNAL_RESPONSE: [u8; 8] = [
    'O' as u8, 'K' as u8, '+' as u8, 'C' as u8, 'I' as u8, 'N' as u8,
    'T' as u8, '=' as u8,
];

/// `AT+CTOUT=`: sets the connection timeout.
pub const CHANGE_CONNECT_TIMEOUT_BASE: [u8; 9] = [
    'A' as u8, 'T' as u8, '+' as u8, 'C' as u8, 'T' as u8, 'O' as u8,
    'U' as u8, 'T' as u8, '=' as u8,
];

/// `OK+CTOUT=`: begins the answer to a new connection timeout.
pub const CHANGE_CONNECT_TIMEOUT_RESPONSE: [u8; 9] = [
    'O' as u8, 'K' as u8, '+' as u8, 'C' as u8, 'T' as u8, 'O' as u8,
    'U' as u8, 'T' as u8, '=' as u8,
];

/// `AT+LUUID=`: sets the identifier that a central connects to.
pub const SET_CONNECT_UUID_BASE: [u8; 9] = [
    'A' as u8, 'T' as u8, '+' as u8, 'L' as u8, 'U' as u8, 'U' as u8,
    'I' as u8, 'D' as u8, '=' as u8,
];

/// `OK+LUUID=`: begins the answer that carries that identifier.
pub const CONNECT_UUID_RESPONSE: [u8; 9] = [
    'O' as u8, 'K' as u8, '+' as u8, 'L' as u8, 'U' as u8, 'U' as u8,
    'I' as u8, 'D' as u8, '=' as u8,
];

/// `AT+LUUID=?`: asks for the identifier that a central connects to.
pub const QUERY_CONNECT_UUID: [u8; 10] = [
    'A' as u8, 'T' as u8, '+' as u8, 'L' as u8, 'U' as u8, 'U' as u8,
    'I' as u8, 'D' as u8, '=' as u8, '?' as u8,
];

/// `AT+SUUID=`: sets the identifier of the service.
pub const SET_SERVICE_UUID_BASE: [u8; 9] = [
    'A' as u8, 'T' as u8, '+' as u8, 'S' as u8, 'U' as u8, 'U' as u8,
    'I' as u8, 'D' as u8, '=' as u8,
];

/// `OK+SUUID=`: begins the answer that carries the service's identifier.
pub const SERVICE_UUID_RESPONSE: [u8; 9] = [
    'O' as u8, 'K' as u8, '+' as u8, 'S' as u8, 'U' as u8, 'U' as u8,
    'I' as u8, 'D' as u8, '=' as u8,
];

/// `AT+SUUID=?`: asks for the identifier of the service.
pub const QUERY_SERVICE_UUID: [u8; 10] = [
    'A' as u8, 'T' as u8, '+' as u8, 'S' as u8, 'U' as u8, 'U' as u8,
    'I' as u8, 'D' as u8, '=' as u8, '?' as u8,
];

/// `AT+TUUID=`: sets the identifier of the characteristic.
pub const SET_CHARACTERISTIC_UUID_BASE: [u8; 9] = [
    'A' as u8, 'T' as u8, '+' as u8, 'T' as u8, 'U' as u8, 'U' as u8,
    'I' as u8, 'D' as u8, '=' as u8,
];

/// `OK+TUUID=`: begins the answer that carries the characteristic's identifier.
pub const CHARACTERISTIC_UUID_RESPONSE: [u8; 9] = [
    'O' as u8, 'K' as u8, '+' as u8, 'T' as u8, 'U' as u8, 'U' as u8,
    'I' as u8, 'D' as u8, '=' as u8,
];

/// `AT+TUUID=?`: asks for the identifier of the characteristic.
pub const QUERY_CHARACTERISTIC_UUID: [u8; 10] = [
    'A' as u8, 'T' as u8, '+' as u8, 'T' as u8, 'U' as u8, 'U' as u8,
    'I' as u8, 'D' as u8, '=' as u8, '?' as u8,
];

/// The letter that stands for a role in a command.
pub open spec fn role_letter(role: Role) -> u8 {
    match role {
        Role::Master => 'M' as u8,
        Role::Slave => 'S' as u8,
    }
}

/// The digit that stands for connectability in a command: `0` where the
/// module is to accept connections, `1` where it is not.
pub open spec fn connectable_digit(c: IsConnectable) -> u8 {
    if c.0 {
        '0' as u8
    } else {
        '1' as u8
    }
}

/// The command that sets the role: `AT+ROLE=` and the role's letter.
pub open spec fn change_role_command(role: Role) -> Seq<u8> {
    ROLE_BASE@.push(role_letter(role))
}

/// The command that sets connectability: `AT+CONT=` and the digit.
pub open spec fn change_connectable_command(c: IsConnectable) -> Seq<u8> {
    CONNECTABLE_BASE@.push(connectable_digit(c))
}

/// The decimal digits of a number, without leading zeros; `0` for zero.
pub open spec fn decimal(n: nat) -> Seq<u8>
    decreases n,
{
    if n < 10 {
        seq![('0' as u8 + n) as u8]
    } else {
        decimal(n / 10).push(('0' as u8 + n % 10) as u8)
    }
}

/// A connection interval in the unit of the command: a quarter of the
/// interval, rounded down, taken five times.
pub open spec fn scaled_interval(interval: u32) -> nat {
    (interval / 4 * 5) as nat
}

/// A connection timeout in the unit of the command: a tenth of it, rounded
/// down.
pub open spec fn scaled_timeout(time: u32) -> nat {
    (time / 10) as nat
}

/// The numbers of a connection interval command: the scaled lower bound
/// alone where the scaled upper bound is the same, else both with a comma
/// between them.
pub open spec fn interval_text(min: u32, max: u32) -> Seq<u8> {
    if scaled_interval(min) == scaled_interval(max) {
        decimal(scaled_interval(min))
    } else {
        decimal(scaled_interval(min)).push(COMMA) + decimal(scaled_interval(max))
    }
}

/// The command that sets the connection interval.
pub open spec fn connect_internal_command(min: u32, max: u32) -> Seq<u8> {
    CHANGE_CONNECT_INTERNAL_BASE@ + interval_text(min, max)
}

/// The answer that confirms a new connection interval: the numbers of the
/// command behind `OK+CINT=`.
pub open spec fn connect_internal_response(min: u32, max: u32) -> Seq<u8> {
    CHANGE_CONNECT_INTERNAL_RESPONSE@ + interval_text(min, max)
}

/// The command that sets the connection timeout.
pub open spec fn connect_timeout_command(time: u32) -> Seq<u8> {
    CHANGE_CONNECT_TIMEOUT_BASE@ + decimal(scaled_timeout(time))
}

/// The answer that confirms a new connection timeout.
pub open spec fn connect_timeout_response(time: u32) -> Seq<u8> {
    CHANGE_CONNECT_TIMEOUT_RESPONSE@ + decimal(scaled_timeout(time))
}

/// A command or an answer that carries an identifier: nine bytes that say
/// which, then the identifier's four digits.
pub open spec fn uuid_frame(base: Seq<u8>, uuid: UUID) -> Seq<u8> {
    base + uuid_digits(uuid)
}

/// The decimal digits of a number denote that number, and they begin with a
/// zero only where the number is zero.
pub proof fn lemma_decimal_denotes(n: nat)
    ensures
        is_numeral(decimal(n), 10),
        numeral_value(decimal(n), 10) == n,
        decimal(n)[0] == '0' as u8 <==> n == 0,
    decreases n,
{
    if n < 10 {
        assert(decimal(n).drop_last().len() == 0);
        assert(numeral_value(decimal(n), 10) == n) by {
            reveal_with_fuel(numeral_value, 2);
        }
    } else {
        lemma_decimal_denotes(n / 10);
        assert(decimal(n).drop_last() =~= decimal(n / 10));
    }
}

/// The answer to a new connection interval or timeout carries the numbers
/// of the command, and differs from the command in its first two bytes
/// alone; so does the answer to a new identifier.
pub proof fn lemma_answers_mirror_commands(min: u32, max: u32, time: u32, uuid: UUID)
    ensures
        connect_internal_response(min, max).skip(8) == connect_internal_command(min, max).skip(8),
        connect_timeout_response(time).skip(9) == connect_timeout_command(time).skip(9),
        uuid_frame(CONNECT_UUID_RESPONSE@, uuid).skip(9) == uuid_frame(
            SET_CONNECT_UUID_BASE@,
            uuid,
        ).skip(9),
        uuid_frame(SERVICE_UUID_RESPONSE@, uuid).skip(9) == uuid_frame(
            SET_SERVICE_UUID_BASE@,
            uuid,
        ).skip(9),
        uuid_frame(CHARACTERISTIC_UUID_RESPONSE@, uuid).skip(9) == uuid_frame(
            SET_CHARACTERISTIC_UUID_BASE@,
            uuid,
        ).skip(9),
        connect_internal_response(min, max).take(8) == CHANGE_CONNECT_INTERNAL_RESPONSE@,
        connect_timeout_response(time).take(9) == CHANGE_CONNECT_TIMEOUT_RESPONSE@,
{
    assert(connect_internal_response(min, max).skip(8) =~= interval_text(min, max));
    assert(connect_internal_command(min, max).skip(8) =~= interval_text(min, max));
    assert(connect_timeout_response(time).skip(9) =~= decimal(scaled_timeout(time)));
    assert(connect_timeout_command(time).skip(9) =~= decimal(scaled_timeout(time)));
    assert(uuid_frame(CONNECT_UUID_RESPONSE@, uuid).skip(9) =~= uuid_digits(uuid));
    assert(uuid_frame(SET_CONNECT_UUID_BASE@, uuid).skip(9) =~= uuid_digits(uuid));
    assert(uuid_frame(SERVICE_UUID_RESPONSE@, uuid).skip(9) =~= uuid_digits(uuid));
    assert(uuid_frame(SET_SERVICE_UUID_BASE@, uuid).skip(9) =~= uuid_digits(uuid));
    assert(uuid_frame(CHARACTERISTIC_UUID_RESPONSE@, uuid).skip(9) =~= uuid_digits(uuid));
    assert(uuid_frame(SET_CHARACTERISTIC_UUID_BASE@, uuid).skip(9) =~= uuid_digits(uuid));
    assert(connect_internal_response(min, max).take(8) =~= CHANGE_CONNECT_INTERNAL_RESPONSE@);
    assert(connect_timeout_response(time).take(9) =~= CHANGE_CONNECT_TIMEOUT_RESPONSE@);
}

/// Ten to the power of `k`.
pub open spec fn ten_to(k: nat) -> nat
    decreases k,
{
    if k == 0 {
        1
    } else {
        10 * ten_to((k - 1) as nat)
    }
}

/// A number below ten to the `k` has at most `k` decimal digits, and every
/// number has one at least.
pub proof fn lemma_decimal_len(n: nat, k: nat)
    requires
        1 <= k,
        n < ten_to(k),
    ensures
        1 <= decimal(n).len() <= k,
    decreases k,
{
    reveal_with_fuel(ten_to, 2);
    if n >= 10 {
        lemma_decimal_len(n / 10, (k - 1) as nat);
    }
}

/// No command that sets the connection interval, and no answer to one, is
/// longer than 29 bytes; none that sets the timeout longer than 18.
pub proof fn lemma_command_lengths(min: u32, max: u32, time: u32)
    ensures
        connect_internal_command(min, max).len() <= 29,
        connect_internal_response(min, max).len() <= 29,
        connect_timeout_command(time).len() <= 18,
        connect_timeout_response(time).len() <= 18,
{
    assert(ten_to(10) == 10_000_000_000) by {
        reveal_with_fuel(ten_to, 11);
    }
    assert(ten_to(9) == 1_000_000_000) by {
        reveal_with_fuel(ten_to, 10);
    }
    lemma_decimal_len(scaled_interval(min), 10);
    lemma_decimal_len(scaled_interval(max), 10);
    lemma_decimal_len(scaled_timeout(time), 9);
}

/// Copies `bytes` into `buffer` from the place `at` on and returns the place
/// behind them.
fn put(buffer: &mut [u8], at: usize, bytes: &[u8]) -> (end: usize)
    requires
        at + bytes@.len() <= old(buffer)@.len(),
    ensures
        end == at + bytes@.len(),
        final(buffer)@ == old(buffer)@.take(at as int) + bytes@ + old(buffer)@.skip(end as int),
{
    let len = buffer.len();
    let mut i: usize = 0;
    while i < bytes.len()
        invariant
            i <= bytes@.len(),
            at + bytes@.len() <= buffer@.len(),
            buffer@.len() == len,
            buffer@.len() == old(buffer)@.len(),
            forall|j: int| 0 <= j < at ==> buffer@[j] == old(buffer)@[j],
            forall|j: int| 0 <= j < i ==> buffer@[at + j] == bytes@[j],
            forall|j: int| at + i <= j < buffer@.len() ==> buffer@[j] == old(buffer)@[j],
        decreases bytes@.len() - i,
    {
        buffer[at + i] = bytes[i];
        i += 1;
    }
    assert(buffer@ =~= old(buffer)@.take(at as int) + bytes@ + old(buffer)@.skip(
        at + bytes@.len(),
    ));
    at + bytes.len()
}

/// Writes the decimal digits of `num` to the front of `buffer` and returns
/// how many they are. The digits are written from the least significant one
/// up and then turned round in place; zero is written as one digit.
pub fn num2hex(num: u64, buffer: &mut [u8]) -> (n: usize)
    requires
        decimal(num as nat).len() <= old(buffer)@.len(),
    ensures
        n == decimal(num as nat).len(),
        final(buffer)@ == decimal(num as nat) + old(buffer)@.skip(n as int),
{
    let ghost digits = decimal(num as nat);
    let mut rest: u64 = num / 10;
    buffer[0] = '0' as u8 + (num % 10) as u8;
    let mut n: usize = 1;
    while rest > 0
        invariant
            1 <= n <= digits.len() <= buffer@.len(),
            buffer@.len() == old(buffer)@.len(),
            digits == decimal(num as nat),
            rest > 0 ==> digits.len() == decimal(rest as nat).len() + n,
            rest > 0 ==> forall|j: int|
                0 <= j < digits.len() - n ==> digits[j] == decimal(rest as nat)[j],
            rest == 0 ==> digits.len() == n,
            forall|j: int| 0 <= j < n ==> buffer@[j] == digits[digits.len() - 1 - j],
            forall|j: int| n <= j < buffer@.len() ==> buffer@[j] == old(buffer)@[j],
        decreases rest,
    {
        buffer[n] = '0' as u8 + (rest % 10) as u8;
        n += 1;
        rest = rest / 10;
    }
    let mut i: usize = 0;
    let mut j: usize = n - 1;
    while i < j
        invariant
            n == digits.len(),
            n <= buffer@.len(),
            buffer@.len() == old(buffer)@.len(),
            i + j == n - 1,
            i <= n,
            forall|k: int| 0 <= k < i ==> buffer@[k] == digits[k],
            forall|k: int| j < k < n ==> buffer@[k] == digits[k],
            forall|k: int| i <= k <= j ==> buffer@[k] == digits[n - 1 - k],
            forall|k: int| n <= k < buffer@.len() ==> buffer@[k] == old(buffer)@[k],
        decreases n - i,
    {
        let low = buffer[i];
        let high = buffer[j];
        buffer[i] = high;
        buffer[j] = low;
        i += 1;
        j -= 1;
    }
    assert(buffer@ =~= digits + old(buffer)@.skip(n as int));
    n
}

/// Writes the decimal digits of `num` into `buffer` from the place `at` on
/// and returns the place behind them.
fn put_decimal(buffer: &mut [u8], at: usize, num: u64) -> (end: usize)
    requires
        at + decimal(num as nat).len() <= old(buffer)@.len(),
    ensures
        end == at + decimal(num as nat).len(),
        final(buffer)@ == old(buffer)@.take(at as int) + decimal(num as nat) + old(buffer)@.skip(
            end as int,
        ),
{
    let len = buffer.len();
    let (_head, tail) = buffer.split_at_mut(at);
    let n = num2hex(num, tail);
    assert(buffer@ =~= old(buffer)@.take(at as int) + decimal(num as nat) + old(buffer)@.skip(
        at + n,
    ));
    at + n
}

/// Writes `base` and the numbers of a connection interval to the front of
/// `buffer` and returns their length.
fn put_interval(buffer: &mut [u8], base: &[u8; 8], min: u32, max: u32) -> (n: usize)
    requires
        8 + interval_text(min, max).len() <= old(buffer)@.len(),
    ensures
        n == 8 + interval_text(min, max).len(),
        final(buffer)@ == base@ + interval_text(min, max) + old(buffer)@.skip(n as int),
{
    let low: u64 = min as u64 / 4 * 5;
    let high: u64 = max as u64 / 4 * 5;
    let mut n = put(buffer, 0, base.as_slice());
    n = put_decimal(buffer, n, low);
    if low != high {
        buffer[n] = COMMA;
        n += 1;
        n = put_decimal(buffer, n, high);
    }
    assert(buffer@ =~= base@ + interval_text(min, max) + old(buffer)@.skip(n as int));
    n
}

/// Writes `base` and the number of a connection timeout to the front of
/// `buffer` and returns their length.
fn put_timeout(buffer: &mut [u8], base: &[u8; 9], time: u32) -> (n: usize)
    requires
        9 + decimal(scaled_timeout(time)).len() <= old(buffer)@.len(),
    ensures
        n == 9 + decimal(scaled_timeout(time)).len(),
        final(buffer)@ == base@ + decimal(scaled_timeout(time)) + old(buffer)@.skip(n as int),
{
    let mut n = put(buffer, 0, base.as_slice());
    n = put_decimal(buffer, n, (time / 10) as u64);
    assert(buffer@ =~= base@ + decimal(scaled_timeout(time)) + old(buffer)@.skip(n as int));
    n
}

/// `base` followed by the four digits of `uuid`.
fn frame_uuid(base: &[u8; 9], uuid: UUID) -> (r: [u8; 13])
    ensures
        r@ == uuid_frame(base@, uuid),
{
    let mut result = [0u8; 13];
    let digits: [u8; 4] = <[u8; 4]>::from(uuid);
    let n = put(&mut result, 0, base.as_slice());
    put(&mut result, n, digits.as_slice());
    assert(result@ =~= uuid_frame(base@, uuid));
    result
}

/// The command that sets the role.
pub fn build_change_role_command(role: Role) -> (r: [u8; 9])
    ensures
        r@ == change_role_command(role),
{
    let mut result = [0u8; 9];
    put(&mut result, 0, ROLE_BASE.as_slice());
    result[8] = match role {
        Role::Master => 'M' as u8,
        Role::Slave => 'S' as u8,
    };
    assert(result@ =~= change_role_command(role));
    result
}

/// The command that sets whether connections are accepted, in ten bytes:
/// `AT+CONT=` in the first eight and the digit in the last, which is `0` for
/// a module that accepts connections and `1` for one that does not. The
/// ninth byte is zero and no part of the command.
pub fn build_change_connectable_command(c: IsConnectable) -> (r: [u8; 10])
    ensures
        r@ == CONNECTABLE_BASE@.push(0).push(connectable_digit(c)),
{
    let mut result = [0u8; 10];
    put(&mut result, 0, CONNECTABLE_BASE.as_slice());
    result[9] = if c.0 {
        '0' as u8
    } else {
        '1' as u8
    };
    assert(result@ =~= CONNECTABLE_BASE@.push(0).push(connectable_digit(c)));
    result
}

/// Writes the command that sets the connection interval to the front of
/// `buffer` and returns the part of `buffer` that holds it. What lies behind
/// the command stays as it was.
pub fn build_change_connect_internal_command<'a>(min: u32, max: u32, buffer: &'a mut [u8]) -> (out:
    &'a [u8])
    requires
        connect_internal_command(min, max).len() <= old(buffer)@.len(),
    ensures
        out@ == connect_internal_command(min, max),
        final(buffer)@ == out@ + old(buffer)@.skip(out@.len() as int),
{
    let n = put_interval(buffer, &CHANGE_CONNECT_INTERNAL_BASE, min, max);
    assert(buffer@.subrange(0, n as int) =~= connect_internal_command(min, max));
    &buffer[0..n]
}

/// Writes the answer that confirms a new connection interval to the front of
/// `buffer` and returns the part of `buffer` that holds it.
pub fn build_change_connect_internal_response<'a>(
    min: u32,
    max: u32,
    buffer: &'a mut [u8],
) -> (out: &'a [u8])
    requires
        connect_internal_response(min, max).len() <= old(buffer)@.len(),
    ensures
        out@ == connect_internal_response(min, max),
        final(buffer)@ == out@ + old(buffer)@.skip(out@.len() as int),
{
    let n = put_interval(buffer, &CHANGE_CONNECT_INTERNAL_RESPONSE, min, max);
    assert(buffer@.subrange(0, n as int) =~= connect_internal_response(min, max));
    &buffer[0..n]
}

/// Writes the command that sets the connection timeout to the front of
/// `buffer` and returns the part of `buffer` that holds it.
pub fn build_change_connect_timeout_command<'a>(time: u32, buffer: &'a mut [u8]) -> (out: &'a [u8])
    requires
        connect_timeout_command(time).len() <= old(buffer)@.len(),
    ensures
        out@ == connect_timeout_command(time),
        final(buffer)@ == out@ + old(buffer)@.skip(out@.len() as int),
{
    let n = put_timeout(buffer, &CHANGE_CONNECT_TIMEOUT_BASE, time);
    assert(buffer@.subrange(0, n as int) =~= connect_timeout_command(time));
    &buffer[0..n]
}

/// Writes the answer that confirms a new connection timeout to the front of
/// `buffer` and returns the part of `buffer` that holds it.
pub fn build_change_connect_timeout_response<'a>(time: u32, buffer: &'a mut [u8]) -> (out: &'a [u8])
    requires
        connect_timeout_response(time).len() <= old(buffer)@.len(),
    ensures
        out@ == connect_timeout_response(time),
        final(buffer)@ == out@ + old(buffer)@.skip(out@.len() as int),
{
    let n = put_timeout(buffer, &CHANGE_CONNECT_TIMEOUT_RESPONSE, time);
    assert(buffer@.subrange(0, n as int) =~= connect_timeout_response(time));
    &buffer[0..n]
}

/// The command that sets the identifier that a central connects to.
pub fn build_set_connect_uuid_command(uuid: UUID) -> (r: [u8; 13])
    ensures
        r@ == uuid_frame(SET_CONNECT_UUID_BASE@, uuid),
{
    frame_uuid(&SET_CONNECT_UUID_BASE, uuid)
}

/// The answer that confirms that identifier.
pub fn build_set_connect_uuid_response(uuid: UUID) -> (r: [u8; 13])
    ensures
        r@ == uuid_frame(CONNECT_UUID_RESPONSE@, uuid),
{
    frame_uuid(&CONNECT_UUID_RESPONSE, uuid)
}

/// The command that sets the identifier of the service.
pub fn build_set_service_uuid_command(uuid: UUID) -> (r: [u8; 13])
    ensures
        r@ == uuid_frame(SET_SERVICE_UUID_BASE@, uuid),
{
    frame_uuid(&SET_SERVICE_UUID_BASE, uuid)
}

/// The answer that confirms the identifier of the service.
pub fn build_set_service_uuid_response(uuid: UUID) -> (r: [u8; 13])
    ensures
        r@ == uuid_frame(SERVICE_UUID_RESPONSE@, uuid),
{
    frame_uuid(&SERVICE_UUID_RESPONSE, uuid)
}

/// The command that sets the identifier of the characteristic.
pub fn build_set_characteristic_uuid_command(uuid: UUID) -> (r: [u8; 13])
    ensures
        r@ == uuid_frame(SET_CHARACTERISTIC_UUID_BASE@, uuid),
{
    frame_uuid(&SET_CHARACTERISTIC_UUID_BASE, uuid)
}

/// The answer that confirms the identifier of the characteristic.
pub fn build_set_characteristic_uuid_response(uuid: UUID) -> (r: [u8; 13])
    ensures
        r@ == uuid_frame(CHARACTERISTIC_UUID_RESPONSE@, uuid),
{
    frame_uuid(&CHARACTERISTIC_UUID_RESPONSE, uuid)
}

} // verus!
