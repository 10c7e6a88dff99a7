//! The errors of the frame codec.

use vstd::prelude::*;

verus! {

/// Why a message could not be written.
#[derive(Debug, Clone, Copy, PartialEq, Eq, Structural)]
pub enum EncodeError {
    /// The field at `index` has a number that no key can carry: zero, or
    /// more than 29 bits.
    InvalidFieldNumber { index: usize, number: u32 },
}

/// Why a frame could not be read. Each of these concerns one frame only: the
/// caller skips the frame and goes on.
#[derive(Debug, Clone, Copy, PartialEq, Eq, Structural)]
pub enum FrameError {
    /// The frame has no bytes at all.
    EmptyFrame,
    /// The first byte is not the tag of any message kind.
    UnknownKind(u8),
    /// The tag is known, but the bytes after it are not a payload.
    MalformedPayload,
}

/// Why a client's frame could not be handed on to the egress sender. Either
/// of these ends the session of the client that sent the frame.
#[derive(Debug, Clone, Copy, PartialEq, Eq, Structural)]
pub enum ForwardError {
    /// The egress queue holds as many frames as it may.
    QueueFullOnForward,
    /// The egress queue was closed and takes no more frames.
    QueueClosed,
}

impl FrameError {
    /// A short description of the error, for logs.
    pub fn to_string(&self) -> (text: String)
        ensures
            text@ == match *self {
                FrameError::EmptyFrame => "Buffer is empty"@,
                FrameError::UnknownKind(_) => "Unknown message ID"@,
                FrameError::MalformedPayload => "Malformed payload"@,
            },
    {
        match self {
            FrameError::EmptyFrame => "Buffer is empty".to_owned(),
            FrameError::UnknownKind(_) => "Unknown message ID".to_owned(),
            FrameError::MalformedPayload => "Malformed payload".to_owned(),
        }
    }
}

} // verus!
