//! What a file or device operation reports: its errors and its readiness.
use vstd::prelude::*;

verus! {

/// Why a file or device operation failed.
#[derive(Clone, Copy, Debug, PartialEq, Eq, Structural)]
pub enum FileError {
    /// The operation does not apply to this end or buffer.
    BadOperation,
    /// Nothing is available yet; the caller may wait and retry.
    WouldBlock,
    /// The other end of a pipe is closed.
    BrokenPipe,
    /// A signal arrived while the caller waited.
    Interrupted,
}

/// Why a seek failed.
#[derive(Clone, Copy, Debug, PartialEq, Eq, Structural)]
pub enum SeekError {
    NotSeekable,
}

/// How many of `available` buffered bytes a read of up to `capacity` bytes takes.
pub open spec fn read_count(available: int, capacity: int) -> int {
    if capacity < available {
        capacity
    } else {
        available
    }
}

/// Readiness of a file for `poll`.
#[derive(Clone, Copy, Debug, PartialEq, Eq, Structural)]
pub struct PollEvents {
    pub readable: bool,
    pub writable: bool,
    pub hangup: bool,
}

} // verus!
