//! Fixed-capacity storage for outbound frames.
//!
//! Frames are built in a `heapless::Vec`, so encoding never allocates. What
//! is assumed of that type is stated on `buffer_bytes` and on the three
//! functions that follow it; everything after them is proved.

use super::error::ComError;
use vstd::prelude::*;

verus! {

/// The longest command text, terminator not counted, that any frame holds.
pub const MAX_COMMAND_LEN: usize = 265;

/// Room for the longest command text and its terminator.
pub const FRAME_CAPACITY: usize = 268;

#[verifier::external_type_specification]
#[verifier::external_body]
#[verifier::reject_recursive_types(T)]
pub struct ExHeaplessVec<T, const N: usize>(heapless::Vec<T, N>);

/// The bytes that a buffer holds, first pushed first.
pub uninterp spec fn buffer_bytes(buffer: heapless::Vec<u8, FRAME_CAPACITY>) -> Seq<u8>;

/// `heapless::Vec::new`: the new vector holds nothing.
#[verifier::external_body]
fn buffer_new() -> (buffer: heapless::Vec<u8, FRAME_CAPACITY>)
    ensures
        buffer_bytes(buffer) == Seq::<u8>::empty(),
{
    heapless::Vec::new()
}

/// `heapless::Vec::extend_from_slice`: if the slice fits beside what is
/// already held, it is appended in order; otherwise the vector is left as it
/// was and the call fails.
#[verifier::external_body]
fn buffer_extend(buffer: &mut heapless::Vec<u8, FRAME_CAPACITY>, bytes: &[u8]) -> (done: Result<(), ()>)
    ensures
        done is Ok <==> buffer_bytes(*old(buffer)).len() + bytes@.len() <= FRAME_CAPACITY,
        done is Ok ==> buffer_bytes(*final(buffer)) == buffer_bytes(*old(buffer)) + bytes@,
        done is Err ==> buffer_bytes(*final(buffer)) == buffer_bytes(*old(buffer)),
{
    buffer.extend_from_slice(bytes)
}

/// `heapless::Vec::as_slice`: the slice shows exactly what is held.
#[verifier::external_body]
fn buffer_slice(buffer: &heapless::Vec<u8, FRAME_CAPACITY>) -> (bytes: &[u8])
    ensures
        bytes@ == buffer_bytes(*buffer),
{
    buffer.as_slice()
}

/// The three bytes that close every frame.
pub open spec fn terminator() -> Seq<u8> {
    seq![0xFFu8, 0xFFu8, 0xFFu8]
}

/// Whether `bytes` is a command text followed by the terminator.
pub open spec fn is_frame(bytes: Seq<u8>) -> bool {
    &&& 3 <= bytes.len() <= FRAME_CAPACITY
    &&& bytes.subrange(bytes.len() - 3, bytes.len() as int) == terminator()
}

/// The capacity that a caller's `capacity` amounts to: no command is longer
/// than `MAX_COMMAND_LEN`, whatever is asked for.
pub open spec fn effective_capacity(capacity: usize) -> nat {
    if capacity <= MAX_COMMAND_LEN {
        capacity as nat
    } else {
        MAX_COMMAND_LEN as nat
    }
}

/// A command text under construction, bounded by the capacity it was made
/// with.
pub struct CommandBuffer {
    buffer: heapless::Vec<u8, FRAME_CAPACITY>,
    limit: usize,
}

impl CommandBuffer {
    /// The text written so far.
    pub closed spec fn text(&self) -> Seq<u8> {
        buffer_bytes(self.buffer)
    }

    /// The most bytes the text may grow to.
    pub closed spec fn limit(&self) -> nat {
        self.limit as nat
    }

    /// The text is within its limit, and the limit within what any frame
    /// holds.
    pub closed spec fn wf(&self) -> bool {
        &&& self.limit <= MAX_COMMAND_LEN
        &&& buffer_bytes(self.buffer).len() <= self.limit
    }

    /// An empty text that may grow to `capacity` bytes, or to
    /// `MAX_COMMAND_LEN` if that is less.
    pub fn new(capacity: usize) -> (cmd: CommandBuffer)
        ensures
            cmd.wf(),
            cmd.text() == Seq::<u8>::empty(),
            cmd.limit() == effective_capacity(capacity),
    {
        let limit: usize = if capacity <= MAX_COMMAND_LEN {
            capacity
        } else {
            MAX_COMMAND_LEN
        };
        CommandBuffer { buffer: buffer_new(), limit }
    }

    /// Appends `bytes`, or fails and changes nothing if the text would pass
    /// its limit.
    pub fn push_bytes(&mut self, bytes: &[u8]) -> (done: Result<(), ComError>)
        requires
            old(self).wf(),
        ensures
            final(self).wf(),
            final(self).limit() == old(self).limit(),
            old(self).text().len() + bytes@.len() <= old(self).limit() ==> done is Ok
                && final(self).text() == old(self).text() + bytes@,
            old(self).text().len() + bytes@.len() > old(self).limit() ==> done == Err::<
                (),
                ComError,
            >(ComError::CommandTooLong) && final(self).text() == old(self).text(),
    {
        let held: usize = buffer_slice(&self.buffer).len();
        if bytes.len() > self.limit - held {
            return Err(ComError::CommandTooLong);
        }
        match buffer_extend(&mut self.buffer, bytes) {
            Ok(()) => Ok(()),
            Err(()) => Err(ComError::CommandTooLong),
        }
    }

    /// Appends one byte, or fails and changes nothing if the text is at its
    /// limit.
    pub fn push_byte(&mut self, byte: u8) -> (done: Result<(), ComError>)
        requires
            old(self).wf(),
        ensures
            final(self).wf(),
            final(self).limit() == old(self).limit(),
            old(self).text().len() < old(self).limit() ==> done is Ok && final(self).text()
                == old(self).text().push(byte),
            old(self).text().len() >= old(self).limit() ==> done == Err::<(), ComError>(
                ComError::CommandTooLong,
            ) && final(self).text() == old(self).text(),
    {
        let one: [u8; 1] = [byte];
        assert(one@ =~= seq![byte]);
        assert(old(self).text() + seq![byte] =~= old(self).text().push(byte));
        self.push_bytes(one.as_slice())
    }

    /// Closes the text with the terminator.
    pub fn finish(self) -> (frame: Frame)
        requires
            self.wf(),
        ensures
            frame@ == self.text() + terminator(),
    {
        let mut buffer = self.buffer;
        let end: [u8; 3] = [0xFF, 0xFF, 0xFF];
        assert(end@ =~= terminator());
        let ghost text = buffer_bytes(buffer);
        // The limit of the text leaves room for the terminator.
        let _ = buffer_extend(&mut buffer, end.as_slice());
        assert((text + terminator()).subrange(text.len() as int, text.len() as int + 3)
            =~= terminator());
        Frame { buffer }
    }
}

/// A complete outbound frame: a command text and the terminator.
pub struct Frame {
    buffer: heapless::Vec<u8, FRAME_CAPACITY>,
}

impl View for Frame {
    type V = Seq<u8>;

    closed spec fn view(&self) -> Seq<u8> {
        buffer_bytes(self.buffer)
    }
}

impl Frame {
    #[verifier::type_invariant]
    spec fn inv(&self) -> bool {
        is_frame(buffer_bytes(self.buffer))
    }

    /// The bytes to hand to the transport. Whatever frame this is, they end
    /// in the terminator.
    pub fn as_bytes(&self) -> (bytes: &[u8])
        ensures
            bytes@ == self@,
            is_frame(bytes@),
    {
        proof {
            use_type_invariant(self);
        }
        buffer_slice(&self.buffer)
    }

    /// The command text, without the terminator.
    pub fn command(&self) -> (text: &[u8])
        ensures
            text@ + terminator() == self@,
    {
        proof {
            use_type_invariant(self);
        }
        let bytes = buffer_slice(&self.buffer);
        let text = vstd::slice::slice_subrange(bytes, 0, bytes.len() - 3);
        assert(text@ + terminator() =~= bytes@);
        text
    }
}

} // verus!
