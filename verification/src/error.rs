//! The ways in which sending or receiving a message can fail.

use vstd::prelude::*;

verus! {

/// A failure of one transport operation.
#[derive(Clone, Copy, Debug, PartialEq, Eq, Structural)]
pub enum TransportError {
    /// The underlying stream failed to read or to write.
    Io,
    /// The stream ended before a whole frame had been read.
    UnexpectedEof,
    /// A message could not be turned into payload bytes.
    Encoding,
    /// Payload bytes could not be turned back into a message.
    Decoding,
    /// A frame declared a payload longer than the protocol maximum.
    Oversized,
    /// The envelope carried a message intended for the other role.
    WrongRole,
    /// The event sink was gone while an event was being delivered.
    ConnectionAborted,
}

/// The broad class of a failure, by which a caller that does not care for the
/// details tells failures apart.
#[derive(Clone, Copy, Debug, PartialEq, Eq, Structural)]
pub enum ErrorClass {
    /// The stream failed in a way that is not told apart further.
    Other,
    /// The stream ended early.
    UnexpectedEof,
    /// What was sent or received is not a valid message.
    InvalidData,
    /// More was announced than is accepted.
    FileTooLarge,
    /// The connection was given up from this end.
    ConnectionAborted,
}

impl TransportError {
    /// The class of this failure. Failures of encoding, of decoding and of
    /// direction are all invalid data.
    pub open spec fn spec_class(self) -> ErrorClass {
        match self {
            TransportError::Io => ErrorClass::Other,
            TransportError::UnexpectedEof => ErrorClass::UnexpectedEof,
            TransportError::Encoding => ErrorClass::InvalidData,
            TransportError::Decoding => ErrorClass::InvalidData,
            TransportError::Oversized => ErrorClass::FileTooLarge,
            TransportError::WrongRole => ErrorClass::InvalidData,
            TransportError::ConnectionAborted => ErrorClass::ConnectionAborted,
        }
    }

    /// The class of this failure.
    pub fn class(self) -> (class: ErrorClass)
        ensures
            class == self.spec_class(),
    {
        match self {
            TransportError::Io => ErrorClass::Other,
            TransportError::UnexpectedEof => ErrorClass::UnexpectedEof,
            TransportError::Encoding => ErrorClass::InvalidData,
            TransportError::Decoding => ErrorClass::InvalidData,
            TransportError::Oversized => ErrorClass::FileTooLarge,
            TransportError::WrongRole => ErrorClass::InvalidData,
            TransportError::ConnectionAborted => ErrorClass::ConnectionAborted,
        }
    }
}

} // verus!
