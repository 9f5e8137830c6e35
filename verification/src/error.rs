//! The ways a session can fail, grouped as the protocol groups them.

use vstd::prelude::*;

verus! {

/// The byte stream could not carry a whole frame.
#[derive(Clone, Copy, Debug, PartialEq, Eq, Structural)]
pub enum FrameError {
    /// The stream ended before the four bytes of the length prefix had arrived.
    TruncatedLengthPrefix,
    /// The stream ended before as many payload bytes as the prefix declares had arrived.
    TruncatedPayload,
    /// The frame could not be written out in full.
    WriteFailure,
}

/// A payload arrived whole but is not an entry.
#[derive(Clone, Copy, Debug, PartialEq, Eq, Structural)]
pub enum DecodeError {
    /// The payload is not well-formed UTF-8.
    InvalidEncoding,
    /// The text is not the JSON of an entry: a field is missing or has the wrong type.
    SchemaMismatch,
}

/// The session never began.
#[derive(Clone, Copy, Debug, PartialEq, Eq, Structural)]
pub enum SetupError {
    /// The listening address could not be bound.
    BindFailure,
    /// The listener failed while waiting for its peer.
    AcceptFailure,
    /// The sender could not reach the listener.
    ConnectFailure,
}

/// Any failure of a session. Each one ends the session it occurs in.
#[derive(Clone, Copy, Debug, PartialEq, Eq, Structural)]
pub enum SessionError {
    Setup(SetupError),
    Frame(FrameError),
    Decode(DecodeError),
}

impl SessionError {
    /// The text of the diagnostic for this error.
    pub open spec fn diagnostic_text(self) -> Seq<char> {
        match self {
            SessionError::Setup(SetupError::BindFailure) => "Cannot bind the address"@,
            SessionError::Setup(SetupError::AcceptFailure) => "Cannot accept a connection"@,
            SessionError::Setup(SetupError::ConnectFailure) => "Cannot connect to the address"@,
            SessionError::Frame(FrameError::TruncatedLengthPrefix) => "Cannot read content length"@,
            SessionError::Frame(FrameError::TruncatedPayload) => "Unable to read bytes from front_stream"@,
            SessionError::Frame(FrameError::WriteFailure) => "Unable to write bytes to the stream"@,
            SessionError::Decode(DecodeError::InvalidEncoding) => "Invalid utf-8 string"@,
            SessionError::Decode(DecodeError::SchemaMismatch) => "Invalid data struct"@,
        }
    }

    /// The diagnostic to show when a session ends with this error.
    pub fn diagnostic(self) -> (line: &'static str)
        ensures
            line@ == self.diagnostic_text(),
    {
        match self {
            SessionError::Setup(SetupError::BindFailure) => "Cannot bind the address",
            SessionError::Setup(SetupError::AcceptFailure) => "Cannot accept a connection",
            SessionError::Setup(SetupError::ConnectFailure) => "Cannot connect to the address",
            SessionError::Frame(FrameError::TruncatedLengthPrefix) => "Cannot read content length",
            SessionError::Frame(FrameError::TruncatedPayload) => "Unable to read bytes from front_stream",
            SessionError::Frame(FrameError::WriteFailure) => "Unable to write bytes to the stream",
            SessionError::Decode(DecodeError::InvalidEncoding) => "Invalid utf-8 string",
            SessionError::Decode(DecodeError::SchemaMismatch) => "Invalid data struct",
        }
    }
}

} // verus!
