//! Error kinds of the fabric, as semantic variants rather than strings.

use vstd::prelude::*;

verus! {

/// What went wrong in a channel operation, a spawn, or the child lifecycle.
///
/// End-of-stream at a frame boundary is not an error: the typed layer
/// surfaces it as `Ok(None)`.
#[derive(Clone, Copy, Debug, PartialEq, Eq, Structural)]
pub enum Error {
    /// An operating-system call failed; carries the raw errno value.
    Os { errno: i32 },
    /// The peer closed the stream in the middle of a frame, or closed it
    /// instead of answering a request.
    UnexpectedEof,
    /// The payload bytes do not parse as the expected type, or the frame's
    /// handle list is too short or too long.
    Corrupt,
    /// A kill was attempted on a child that has already been joined.
    AlreadyJoined,
    /// The child terminated unsuccessfully; carries the raw wait status.
    ChildStatus { status: i32 },
    /// The child exited cleanly but never sent a return value.
    NoReturnValue,
}

impl Error {
    /// Whether this error reports an operating-system failure.
    pub open spec fn is_os(self) -> bool {
        self matches Error::Os { errno: _ }
    }
}

} // verus!
