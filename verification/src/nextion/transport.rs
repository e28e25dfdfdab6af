//! The transport under the protocol, and the record of what was done with
//! it.
//!
//! The transport is the caller's. Nothing is assumed of it: whatever a write,
//! a flush or a read answers, the engine decides what follows. The record is
//! kept by [`Recorded`], the only place where the transport is called.

use super::exchange::{Action, Event, Exchange};
use vstd::prelude::*;

verus! {

/// The failure indicator of a transport.
#[derive(Clone, Copy, Debug, PartialEq, Eq, Structural)]
pub struct TransportFault;

/// A blocking byte sink and source, such as a serial port.
pub trait Transport {
    /// Writes all of `bytes`, blocking until the transport has taken them.
    fn write_all(&mut self, bytes: &[u8]) -> Result<(), TransportFault>;

    /// Blocks until nothing that was written is still buffered.
    fn flush(&mut self) -> Result<(), TransportFault>;

    /// Reads one byte, blocking until it is there.
    fn read(&mut self) -> Result<u8, TransportFault>;
}

/// One operation on the transport, and what came of it.
pub enum Operation {
    /// A write of `bytes`; `done` unless the transport reported a fault.
    Write { bytes: Seq<u8>, done: bool },
    /// A flush; `done` unless the transport reported a fault.
    Flush { done: bool },
    /// A read; `byte` is what it delivered, if it delivered.
    Read { byte: Option<u8> },
}

impl Operation {
    /// What the operation tells the exchange.
    pub open spec fn event(self) -> Event {
        match self {
            Operation::Write { bytes, done } => if done {
                Event::Done
            } else {
                Event::Fault
            },
            Operation::Flush { done } => if done {
                Event::Done
            } else {
                Event::Fault
            },
            Operation::Read { byte } => match byte {
                Some(b) => Event::Byte(b),
                None => Event::Fault,
            },
        }
    }

    /// Whether the operation is the one that `action` asks for, where the
    /// frame to write is `frame`.
    pub open spec fn answers(self, action: Action, frame: Seq<u8>) -> bool {
        match (action, self) {
            (Action::Write, Operation::Write { bytes, done }) => bytes == frame,
            (Action::Flush, Operation::Flush { done }) => true,
            (Action::Read, Operation::Read { byte }) => true,
            _ => false,
        }
    }
}

/// A transport together with the record of every operation made on it
/// through this value. The record grows only where the transport is called.
pub struct Recorded<T> {
    transport: T,
    log: Ghost<Seq<Operation>>,
}

impl<T: Transport> Recorded<T> {
    /// Every operation made so far, in order.
    pub closed spec fn log(&self) -> Seq<Operation> {
        self.log@
    }

    /// The transport.
    pub closed spec fn transport(&self) -> T {
        self.transport
    }

    /// Takes over `transport`, with an empty record.
    pub fn new(transport: T) -> (recorded: Self)
        ensures
            recorded.transport() == transport,
            recorded.log() == Seq::<Operation>::empty(),
    {
        Recorded { transport, log: Ghost(Seq::empty()) }
    }

    /// Gives access to the transport. What the caller does with it is not on
    /// the record.
    pub fn transport_mut(&mut self) -> (transport: &mut T)
        ensures
            *transport == old(self).transport(),
            final(self).transport() == *final(transport),
            final(self).log() == old(self).log(),
    {
        &mut self.transport
    }

    /// Hands `bytes` to the transport's write and puts the write on record.
    /// Tells whether the transport took them.
    pub fn write(&mut self, bytes: &[u8]) -> (done: bool)
        ensures
            final(self).log() == old(self).log().push(Operation::Write { bytes: bytes@, done }),
    {
        let done = match self.transport.write_all(bytes) {
            Ok(()) => true,
            Err(_) => false,
        };
        self.log = Ghost(self.log@.push(Operation::Write { bytes: bytes@, done }));
        done
    }

    /// Has the transport flush and puts the flush on record. Tells whether
    /// the transport did.
    pub fn flush(&mut self) -> (done: bool)
        ensures
            final(self).log() == old(self).log().push(Operation::Flush { done }),
    {
        let done = match self.transport.flush() {
            Ok(()) => true,
            Err(_) => false,
        };
        self.log = Ghost(self.log@.push(Operation::Flush { done }));
        done
    }

    /// Has the transport read one byte and puts the read on record. Gives
    /// the byte, if the transport delivered one.
    pub fn read(&mut self) -> (byte: Option<u8>)
        ensures
            final(self).log() == old(self).log().push(Operation::Read { byte }),
    {
        let byte = match self.transport.read() {
            Ok(byte) => Some(byte),
            Err(_) => None,
        };
        self.log = Ghost(self.log@.push(Operation::Read { byte }));
        byte
    }
}

impl Exchange {
    /// The exchange and the output buffer after the operations `ops`, made
    /// one after the other on an exchange that stood at `self` with the
    /// buffer holding `out`. There is such an outcome only if every
    /// operation is the one the exchange asked for at that point; a finished
    /// exchange asks for none.
    pub open spec fn driven(self, frame: Seq<u8>, ops: Seq<Operation>, out: Seq<u8>) -> Option<
        (Exchange, Seq<u8>),
    >
        decreases ops.len(),
    {
        if ops.len() == 0 {
            Some((self, out))
        } else {
            match self.driven(frame, ops.drop_last(), out) {
                Some((before, held)) => if ops.last().answers(before.spec_action(), frame) {
                    Some(
                        (
                            before.next(ops.last().event(), held.len()),
                            before.stores(ops.last().event(), held),
                        ),
                    )
                } else {
                    None
                },
                None => None,
            }
        }
    }
}

} // verus!
