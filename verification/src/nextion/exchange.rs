//! One exchange with the device, as a state machine without I/O.
//!
//! A driver asks the exchange for its next [`Action`], performs it on the
//! transport, and reports what happened as an [`Event`]. The exchange decides
//! everything else: when to stop, what went wrong, what the reply is.

use super::error::ComError;
use super::number::{narrow, payload_value, reconstruct, IntWidth};
use vstd::prelude::*;

verus! {

/// What the transport did with the last action.
#[derive(Clone, Copy, Debug, PartialEq, Eq, Structural)]
pub enum Event {
    /// The write or flush completed.
    Done,
    /// The read delivered this byte.
    Byte(u8),
    /// The transport reported a fault.
    Fault,
}

/// What a finished exchange yields.
#[derive(Clone, Copy, Debug, PartialEq, Eq, Structural)]
pub enum Reply {
    /// The frame was written and flushed; no answer was awaited.
    Sent,
    /// The device answered with this number.
    Number(i64),
    /// The device answered with a string of this many bytes, which now stand
    /// at the front of the output buffer.
    Text(usize),
}

/// What the driver has to do next.
#[derive(Clone, Copy, Debug, PartialEq, Eq)]
pub enum Action {
    /// Write the whole outbound frame, blocking.
    Write,
    /// Flush the transport, blocking.
    Flush,
    /// Read one byte, blocking.
    Read,
    /// Nothing more: the exchange is over with this result.
    Finish(Result<Reply, ComError>),
}

/// The answer an exchange waits for once its frame is out.
#[derive(Clone, Copy, Debug, PartialEq, Eq, Structural)]
pub enum Expect {
    /// None: the exchange ends with the flush.
    Nothing,
    /// A numeric frame, to be narrowed to this width.
    Number(IntWidth),
    /// A string frame.
    Text,
}

/// Where an exchange stands.
#[derive(Clone, Copy, Debug, PartialEq, Eq)]
pub enum Phase {
    /// The frame is to be written.
    Write,
    /// The frame is written and to be flushed.
    Flush,
    /// The tag byte of the answer is to be read.
    Tag,
    /// `count` of the seven bytes after a numeric tag are read: `b0` to `b3`
    /// hold the payload as far as it is read, and `closed` tells whether the
    /// terminator bytes read so far were all `0xFF`.
    Number { count: u8, b0: u8, b1: u8, b2: u8, b3: u8, closed: bool },
    /// After a string tag: `stored` bytes of content stand in the output
    /// buffer, and the last `run` bytes read were `0xFF` and are held back,
    /// as they may begin the terminator.
    Text { stored: usize, run: u8 },
    /// The exchange is over.
    Finished(Result<Reply, ComError>),
}

/// An exchange in progress.
#[derive(Clone, Copy, Debug, PartialEq, Eq)]
pub struct Exchange {
    /// What is awaited after the frame is out.
    pub expect: Expect,
    /// Where the exchange stands.
    pub phase: Phase,
}

/// The tag byte that opens a string frame.
pub const STRING_HEAD: u8 = 0x70;

/// The tag byte that opens a numeric frame.
pub const NUMBER_HEAD: u8 = 0x71;

/// The byte of which three in a row close a frame.
pub const END: u8 = 0xFF;

/// The reply that four payload bytes make at `width`: the 32-bit number they
/// carry, read with the sign of the width, if the width holds it.
pub open spec fn number_reply(b0: u8, b1: u8, b2: u8, b3: u8, width: IntWidth) -> Result<
    Reply,
    ComError,
> {
    let value = payload_value(b0, b1, b2, b3, width.signed());
    if width.holds(value) {
        Ok(Reply::Number(value as i64))
    } else {
        Err(ComError::UnrepresentableValue)
    }
}

/// The bytes that are due to the output buffer when a content byte `byte`
/// arrives after `run` held-back `0xFF` bytes.
pub open spec fn pending(run: u8, byte: u8) -> Seq<u8> {
    Seq::new(run as nat, |i: int| END).push(byte)
}

/// How many of `wanted` bytes still fit a buffer of `cap` bytes that holds
/// `stored`.
pub open spec fn fitting(stored: usize, wanted: nat, cap: nat) -> nat {
    let room = if stored < cap {
        (cap - stored) as nat
    } else {
        0
    };
    if wanted <= room {
        wanted
    } else {
        room
    }
}

impl Exchange {
    /// An exchange that sends a frame and awaits `expect`.
    pub fn begin(expect: Expect) -> (exchange: Exchange)
        ensures
            exchange == (Exchange { expect, phase: Phase::Write }),
    {
        Exchange { expect, phase: Phase::Write }
    }

    /// An exchange that sends nothing and reads one answer of the kind
    /// `expect`; with `Expect::Nothing` it is over at once.
    pub fn receive(expect: Expect) -> (exchange: Exchange)
        ensures
            exchange == (Exchange { expect, phase: Self::after_flush(expect) }),
    {
        let phase = match expect {
            Expect::Nothing => Phase::Finished(Ok(Reply::Sent)),
            _ => Phase::Tag,
        };
        Exchange { expect, phase }
    }

    /// The phase that follows a completed flush.
    pub open spec fn after_flush(expect: Expect) -> Phase {
        match expect {
            Expect::Nothing => Phase::Finished(Ok(Reply::Sent)),
            _ => Phase::Tag,
        }
    }

    /// The phase that follows the tag byte `tag`, with an output buffer of
    /// `cap` bytes.
    pub open spec fn after_tag(expect: Expect, tag: u8, cap: nat) -> Phase {
        match expect {
            Expect::Nothing => Phase::Finished(Ok(Reply::Sent)),
            Expect::Number(_) => if tag == NUMBER_HEAD {
                Phase::Number { count: 0, b0: 0, b1: 0, b2: 0, b3: 0, closed: true }
            } else {
                Phase::Finished(Err(ComError::MalformedFrame))
            },
            Expect::Text => if tag != STRING_HEAD {
                Phase::Finished(Err(ComError::MalformedFrame))
            } else if cap == 0 {
                Phase::Finished(Ok(Reply::Text(0)))
            } else {
                Phase::Text { stored: 0, run: 0 }
            },
        }
    }

    /// The phase that follows `byte` in the body of a numeric frame. The
    /// seventh byte ends the frame: only then is the terminator judged and
    /// the payload narrowed to `width`.
    pub open spec fn after_number_byte(
        width: IntWidth,
        count: u8,
        b0: u8,
        b1: u8,
        b2: u8,
        b3: u8,
        closed: bool,
        byte: u8,
    ) -> Phase {
        if count == 0 {
            Phase::Number { count: 1, b0: byte, b1, b2, b3, closed }
        } else if count == 1 {
            Phase::Number { count: 2, b0, b1: byte, b2, b3, closed }
        } else if count == 2 {
            Phase::Number { count: 3, b0, b1, b2: byte, b3, closed }
        } else if count == 3 {
            Phase::Number { count: 4, b0, b1, b2, b3: byte, closed }
        } else if count < 6 {
            Phase::Number { count: (count + 1) as u8, b0, b1, b2, b3, closed: closed && byte == END }
        } else if closed && byte == END {
            Phase::Finished(number_reply(b0, b1, b2, b3, width))
        } else {
            Phase::Finished(Err(ComError::MalformedFrame))
        }
    }

    /// The phase that follows `byte` in the body of a string frame, with an
    /// output buffer of `cap` bytes. The third `0xFF` in a row ends the
    /// frame. Any other byte is content, together with the `0xFF` bytes held
    /// back before it; once the buffer is full the exchange ends and what
    /// did not fit is dropped.
    pub open spec fn after_text_byte(stored: usize, run: u8, byte: u8, cap: nat) -> Phase {
        if byte == END {
            if run >= 2 {
                Phase::Finished(Ok(Reply::Text(stored)))
            } else {
                Phase::Text { stored, run: (run + 1) as u8 }
            }
        } else {
            let kept = (stored + fitting(stored, run as nat + 1, cap)) as usize;
            if kept >= cap {
                Phase::Finished(Ok(Reply::Text(kept)))
            } else {
                Phase::Text { stored: kept, run: 0 }
            }
        }
    }

    /// The exchange after `event`, with an output buffer of `cap` bytes. A
    /// fault, or an event that does not answer the pending action, ends the
    /// exchange with the transport error of that action. A finished exchange
    /// stays as it is.
    pub open spec fn next(self, event: Event, cap: nat) -> Exchange {
        let phase = match self.phase {
            Phase::Write => match event {
                Event::Done => Phase::Flush,
                _ => Phase::Finished(Err(ComError::TransportWriteFailed)),
            },
            Phase::Flush => match event {
                Event::Done => Self::after_flush(self.expect),
                _ => Phase::Finished(Err(ComError::TransportWriteFailed)),
            },
            Phase::Tag => match event {
                Event::Byte(tag) => Self::after_tag(self.expect, tag, cap),
                _ => Phase::Finished(Err(ComError::TransportReadFailed)),
            },
            Phase::Number { count, b0, b1, b2, b3, closed } => match event {
                Event::Byte(byte) => match self.expect {
                    Expect::Number(width) => Self::after_number_byte(
                        width,
                        count,
                        b0,
                        b1,
                        b2,
                        b3,
                        closed,
                        byte,
                    ),
                    _ => Phase::Finished(Err(ComError::MalformedFrame)),
                },
                _ => Phase::Finished(Err(ComError::TransportReadFailed)),
            },
            Phase::Text { stored, run } => match event {
                Event::Byte(byte) => Self::after_text_byte(stored, run, byte, cap),
                _ => Phase::Finished(Err(ComError::TransportReadFailed)),
            },
            Phase::Finished(result) => Phase::Finished(result),
        };
        Exchange { expect: self.expect, phase }
    }

    /// The output buffer after `event`, given that it held `out` before. Only
    /// a content byte of a string frame changes it: the bytes then due are
    /// stored behind what the buffer already holds of the string, as far as
    /// they fit.
    pub open spec fn stores(self, event: Event, out: Seq<u8>) -> Seq<u8> {
        match (self.phase, event) {
            (Phase::Text { stored, run }, Event::Byte(byte)) => if byte != END && stored
                < out.len() {
                let due = pending(run, byte);
                let kept = fitting(stored, due.len(), out.len());
                out.subrange(0, stored as int) + due.take(kept as int) + out.skip(stored + kept)
            } else {
                out
            },
            _ => out,
        }
    }

    /// What the driver has to do in this phase.
    pub open spec fn spec_action(self) -> Action {
        match self.phase {
            Phase::Write => Action::Write,
            Phase::Flush => Action::Flush,
            Phase::Finished(result) => Action::Finish(result),
            _ => Action::Read,
        }
    }

    /// Tells the driver what to do next.
    pub fn action(&self) -> (action: Action)
        ensures
            action == self.spec_action(),
    {
        match self.phase {
            Phase::Write => Action::Write,
            Phase::Flush => Action::Flush,
            Phase::Finished(result) => Action::Finish(result),
            _ => Action::Read,
        }
    }

    /// The result, once the exchange is over.
    pub fn result(&self) -> (result: Option<Result<Reply, ComError>>)
        ensures
            result == match self.phase {
                Phase::Finished(r) => Some(r),
                _ => None,
            },
    {
        match self.phase {
            Phase::Finished(r) => Some(r),
            _ => None,
        }
    }

    /// Takes in what the transport did with the last action. `out` receives
    /// the content of a string answer and is to be the same buffer throughout
    /// one exchange; other exchanges leave it alone.
    pub fn advance(&mut self, event: Event, out: &mut [u8])
        ensures
            *final(self) == old(self).next(event, old(out)@.len()),
            final(out)@ == old(self).stores(event, old(out)@),
    {
        let phase = match self.phase {
            Phase::Write => match event {
                Event::Done => Phase::Flush,
                _ => Phase::Finished(Err(ComError::TransportWriteFailed)),
            },
            Phase::Flush => match event {
                Event::Done => match self.expect {
                    Expect::Nothing => Phase::Finished(Ok(Reply::Sent)),
                    _ => Phase::Tag,
                },
                _ => Phase::Finished(Err(ComError::TransportWriteFailed)),
            },
            Phase::Tag => match event {
                Event::Byte(tag) => Self::take_tag(self.expect, tag, out.len()),
                _ => Phase::Finished(Err(ComError::TransportReadFailed)),
            },
            Phase::Number { count, b0, b1, b2, b3, closed } => match event {
                Event::Byte(byte) => match self.expect {
                    Expect::Number(width) => Self::take_number_byte(
                        width,
                        count,
                        b0,
                        b1,
                        b2,
                        b3,
                        closed,
                        byte,
                    ),
                    _ => Phase::Finished(Err(ComError::MalformedFrame)),
                },
                _ => Phase::Finished(Err(ComError::TransportReadFailed)),
            },
            Phase::Text { stored, run } => match event {
                Event::Byte(byte) => Self::take_text_byte(stored, run, byte, out),
                _ => Phase::Finished(Err(ComError::TransportReadFailed)),
            },
            Phase::Finished(result) => Phase::Finished(result),
        };
        self.phase = phase;
    }

    fn take_tag(expect: Expect, tag: u8, cap: usize) -> (phase: Phase)
        ensures
            phase == Self::after_tag(expect, tag, cap as nat),
    {
        match expect {
            Expect::Nothing => Phase::Finished(Ok(Reply::Sent)),
            Expect::Number(_) => if tag == NUMBER_HEAD {
                Phase::Number { count: 0, b0: 0, b1: 0, b2: 0, b3: 0, closed: true }
            } else {
                Phase::Finished(Err(ComError::MalformedFrame))
            },
            Expect::Text => if tag != STRING_HEAD {
                Phase::Finished(Err(ComError::MalformedFrame))
            } else if cap == 0 {
                Phase::Finished(Ok(Reply::Text(0)))
            } else {
                Phase::Text { stored: 0, run: 0 }
            },
        }
    }

    fn take_number_byte(
        width: IntWidth,
        count: u8,
        b0: u8,
        b1: u8,
        b2: u8,
        b3: u8,
        closed: bool,
        byte: u8,
    ) -> (phase: Phase)
        ensures
            phase == Self::after_number_byte(width, count, b0, b1, b2, b3, closed, byte),
    {
        if count == 0 {
            Phase::Number { count: 1, b0: byte, b1, b2, b3, closed }
        } else if count == 1 {
            Phase::Number { count: 2, b0, b1: byte, b2, b3, closed }
        } else if count == 2 {
            Phase::Number { count: 3, b0, b1, b2: byte, b3, closed }
        } else if count == 3 {
            Phase::Number { count: 4, b0, b1, b2, b3: byte, closed }
        } else if count < 6 {
            Phase::Number { count: count + 1, b0, b1, b2, b3, closed: closed && byte == END }
        } else if closed && byte == END {
            match narrow(reconstruct(b0, b1, b2, b3, width.is_signed()), width) {
                Ok(value) => Phase::Finished(Ok(Reply::Number(value))),
                Err(e) => Phase::Finished(Err(e)),
            }
        } else {
            Phase::Finished(Err(ComError::MalformedFrame))
        }
    }

    fn take_text_byte(stored: usize, run: u8, byte: u8, out: &mut [u8]) -> (phase: Phase)
        ensures
            phase == Self::after_text_byte(stored, run, byte, old(out)@.len()),
            final(out)@ == (Exchange {
                expect: Expect::Text,
                phase: Phase::Text { stored, run },
            }).stores(Event::Byte(byte), old(out)@),
    {
        if byte == END {
            return if run >= 2 {
                Phase::Finished(Ok(Reply::Text(stored)))
            } else {
                Phase::Text { stored, run: run + 1 }
            };
        }
        let cap: usize = out.len();
        if stored >= cap {
            return Phase::Finished(Ok(Reply::Text(stored)));
        }
        let ghost due = pending(run, byte);
        let ghost kept = fitting(stored, due.len(), cap as nat);
        let mut at: usize = stored;
        let mut done: u8 = 0;
        assert(out@ =~= old(out)@.subrange(0, stored as int) + due.take(0) + old(out)@.skip(
            stored as int,
        ));
        while done < run && at < cap
            invariant
                cap == out@.len(),
                cap == old(out)@.len(),
                done <= run,
                at == stored + done,
                done <= kept,
                due == pending(run, byte),
                kept == fitting(stored, due.len(), cap as nat),
                out@ == old(out)@.subrange(0, stored as int) + due.take(done as int) + old(
                    out,
                )@.skip(stored + done),
            decreases run - done,
        {
            out[at] = END;
            proof {
                assert(due[done as int] == END);
                assert(due.take(done + 1) == due.take(done as int).push(END));
                assert(out@ =~= old(out)@.subrange(0, stored as int) + due.take(done + 1) + old(
                    out,
                )@.skip(stored + done + 1));
            }
            at = at + 1;
            done = done + 1;
        }
        if done == run && at < cap {
            out[at] = byte;
            proof {
                assert(due[run as int] == byte);
                assert(due.take(run + 1) == due.take(run as int).push(byte));
                assert(out@ =~= old(out)@.subrange(0, stored as int) + due.take(run + 1) + old(
                    out,
                )@.skip(stored + run + 1));
            }
            at = at + 1;
        }
        assert(at == stored + kept);
        if at >= cap {
            Phase::Finished(Ok(Reply::Text(at)))
        } else {
            Phase::Text { stored: at, run: 0 }
        }
    }
}

impl Exchange {
    /// A bound on the number of operations that the exchange still asks for,
    /// with an output buffer of `cap` bytes.
    pub open spec fn remaining(self, cap: nat) -> nat {
        match self.phase {
            Phase::Write => 4 * cap + 10,
            Phase::Flush => 4 * cap + 9,
            Phase::Tag => 4 * cap + 8,
            Phase::Number { count, b0, b1, b2, b3, closed } => if count < 6 {
                (7 - count) as nat
            } else {
                1
            },
            Phase::Text { stored, run } => {
                let room: nat = if stored < cap {
                    (cap - stored) as nat
                } else {
                    0
                };
                let held: nat = if run < 3 {
                    run as nat
                } else {
                    3
                };
                (4 * room + 4 - held) as nat
            },
            Phase::Finished(_) => 0,
        }
    }
}

/// Every exchange comes to an end: each event takes an unfinished exchange
/// closer to it.
pub proof fn lemma_exchange_ends(exchange: Exchange, event: Event, cap: nat)
    requires
        !(exchange.phase is Finished),
        cap <= usize::MAX,
    ensures
        exchange.next(event, cap).remaining(cap) < exchange.remaining(cap),
{
}

} // verus!
