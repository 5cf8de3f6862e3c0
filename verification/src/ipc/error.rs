//! Errors of the IPC framing.

use vstd::prelude::*;

verus! {

/// Why an IPC frame was refused.
#[derive(Debug, Clone, Copy, PartialEq, Eq)]
pub enum IpcError {
    /// A frame with no payload.
    EmptyFrame,
    /// A frame longer than the maximum.
    FrameTooLarge { len: usize, max: usize },
    /// A frame whose message did not use all of its bytes.
    TrailingBytes { bytes_read: usize, frame_len: usize },
    /// The platform has no local IPC transport.
    UnsupportedPlatform(&'static str),
}

} // verus!
