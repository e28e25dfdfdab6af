//! Failure kinds surfaced by every operation.

use vstd::prelude::*;

verus! {

/// Why an operation failed.
#[derive(Clone, Copy, Debug, PartialEq, Eq, Structural)]
pub enum ComError {
    /// The serialized command does not fit the fixed capacity it was given.
    CommandTooLong,
    /// The transport reported a fault while writing or flushing.
    TransportWriteFailed,
    /// The transport reported a fault while reading.
    TransportReadFailed,
    /// The inbound frame has the wrong tag or lacks its terminator.
    MalformedFrame,
    /// The value lies outside the attribute's documented range.
    ValueOutOfRange,
    /// The received number does not fit the requested width.
    UnrepresentableValue,
    /// The received code maps to no variant.
    InvalidValue,
}

/// The broad class an error belongs to.
#[derive(Clone, Copy, Debug, PartialEq, Eq, Structural)]
pub enum ErrorKind {
    /// A command would overflow its fixed capacity.
    Encoding,
    /// A write, flush or read on the transport failed.
    Transport,
    /// A tag or terminator was unexpected or missing, or the payload cannot
    /// be taken at the requested width.
    Framing,
    /// A value is out of its documented range, or a code is unmapped.
    Validation,
    /// The device rejected the previous command.
    Semantic,
}

impl ComError {
    /// The class of `self`.
    pub open spec fn spec_kind(self) -> ErrorKind {
        match self {
            ComError::CommandTooLong => ErrorKind::Encoding,
            ComError::TransportWriteFailed => ErrorKind::Transport,
            ComError::TransportReadFailed => ErrorKind::Transport,
            ComError::MalformedFrame => ErrorKind::Framing,
            ComError::UnrepresentableValue => ErrorKind::Framing,
            ComError::ValueOutOfRange => ErrorKind::Validation,
            ComError::InvalidValue => ErrorKind::Validation,
        }
    }

    /// Classifies the error.
    pub fn kind(self) -> (k: ErrorKind)
        ensures
            k == self.spec_kind(),
    {
        match self {
            ComError::CommandTooLong => ErrorKind::Encoding,
            ComError::TransportWriteFailed | ComError::TransportReadFailed => ErrorKind::Transport,
            ComError::MalformedFrame | ComError::UnrepresentableValue => ErrorKind::Framing,
            ComError::ValueOutOfRange | ComError::InvalidValue => ErrorKind::Validation,
        }
    }
}

} // verus!
