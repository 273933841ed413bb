//! What the driver needs from its surroundings, and the record of what it did
//! with them.
//!
//! The driver talks to the module through a [`Transport`] and waits with a
//! [`Delay`]. Nothing is assumed of either: whatever bytes arrive, the driver
//! does what its contracts say. Those contracts are stated over the log of
//! the driver, the sequence of [`Event`]s that it has gone through.

use vstd::prelude::*;

verus! {

/// A serial line to the module.
pub trait Transport {
    /// Hands one byte to the line.
    fn write_byte(&mut self, byte: u8);

    /// Waits until the line has a byte and returns it. On a line that may
    /// have none yet, this is where the wait for it takes place.
    fn read_byte(&mut self) -> u8;
}

/// A clock to wait by.
pub trait Delay {
    /// Returns when `ms` milliseconds have passed.
    fn sleep_ms(&mut self, ms: u32);
}

/// One step of the driver that its surroundings can see.
pub enum Event {
    /// The driver wrote this byte to the line.
    Sent(u8),
    /// The driver read this byte from the line.
    Received(u8),
    /// The driver waited for so many milliseconds.
    Slept(u32),
}

/// Writing the given bytes, one after the other.
pub open spec fn sent(bytes: Seq<u8>) -> Seq<Event> {
    Seq::new(bytes.len(), |i: int| Event::Sent(bytes[i]))
}

/// Reading the given bytes, one after the other.
pub open spec fn received(bytes: Seq<u8>) -> Seq<Event> {
    Seq::new(bytes.len(), |i: int| Event::Received(bytes[i]))
}

/// Waiting once.
pub open spec fn slept(ms: u32) -> Seq<Event> {
    seq![Event::Slept(ms)]
}

/// Writing a command in full and then reading a reply in full.
pub open spec fn exchange(command: Seq<u8>, reply: Seq<u8>) -> Seq<Event> {
    sent(command) + received(reply)
}

/// Writing one run of bytes and then another is writing the two in a row.
pub proof fn lemma_sent_append(a: Seq<u8>, b: Seq<u8>)
    ensures
        sent(a + b) == sent(a) + sent(b),
{
    assert(sent(a + b) =~= sent(a) + sent(b));
}

/// Reading one run of bytes and then another is reading the two in a row.
pub proof fn lemma_received_append(a: Seq<u8>, b: Seq<u8>)
    ensures
        received(a + b) == received(a) + received(b),
{
    assert(received(a + b) =~= received(a) + received(b));
}

} // verus!
