//! Process, group, session and thread identities, exit statuses, and the subsystem's errors.
use vstd::prelude::*;

use super::signal::Signal;

verus! {

/// A non-zero process identifier.
#[derive(Clone, Copy, Debug, PartialEq, Eq, Structural, PartialOrd, Ord)]
pub struct ProcessId(u64);

/// Identifies a process group, whose value is the PID of the group's leader process.
#[derive(Clone, Copy, Debug, PartialEq, Eq, Structural, PartialOrd, Ord)]
pub struct ProcessGroupId(u64);

/// Identifies a session, whose value is the PID of the session's leader process.
#[derive(Clone, Copy, Debug, PartialEq, Eq, Structural, PartialOrd, Ord)]
pub struct SessionId(u64);

/// Identifies a kernel thread.
#[derive(Clone, Copy, Debug, PartialEq, Eq, Structural)]
pub struct ThreadId(pub u64);

impl ProcessId {
    pub closed spec fn value(self) -> u64 {
        self.0
    }

    pub fn new(value: u64) -> (result: Option<Self>)
        ensures
            result is Some <==> value != 0,
            result matches Some(id) ==> id.value() == value,
    {
        if value == 0 {
            None
        } else {
            Some(ProcessId(value))
        }
    }

    pub fn as_u64(self) -> (value: u64)
        ensures
            value == self.value(),
    {
        self.0
    }
}

impl ProcessGroupId {
    pub closed spec fn value(self) -> u64 {
        self.0
    }

    pub fn new(value: u64) -> (result: Option<Self>)
        ensures
            result is Some <==> value != 0,
            result matches Some(id) ==> id.value() == value,
    {
        if value == 0 {
            None
        } else {
            Some(ProcessGroupId(value))
        }
    }

    pub fn as_u64(self) -> (value: u64)
        ensures
            value == self.value(),
    {
        self.0
    }

    /// The group led by `pid`.
    pub fn from_process(pid: ProcessId) -> (group: Self)
        ensures
            group.value() == pid.value(),
    {
        ProcessGroupId(pid.0)
    }
}

impl SessionId {
    pub closed spec fn value(self) -> u64 {
        self.0
    }

    pub fn new(value: u64) -> (result: Option<Self>)
        ensures
            result is Some <==> value != 0,
            result matches Some(id) ==> id.value() == value,
    {
        if value == 0 {
            None
        } else {
            Some(SessionId(value))
        }
    }

    pub fn as_u64(self) -> (value: u64)
        ensures
            value == self.value(),
    {
        self.0
    }

    /// The session led by `pid`.
    pub fn from_process(pid: ProcessId) -> (session: Self)
        ensures
            session.value() == pid.value(),
    {
        SessionId(pid.0)
    }
}

/// How a process ended: a normal exit with an eight-bit code, or termination by a signal.
#[derive(Clone, Copy, Debug, PartialEq, Eq)]
pub enum ExitStatus {
    Exited(u8),
    Signaled(Signal),
}

impl ExitStatus {
    /// A normal exit; only the low byte of `raw` is kept.
    pub fn exited(raw: u64) -> (status: Self)
        ensures
            status == ExitStatus::Exited((raw % 256) as u8),
    {
        let code = (raw & 0xff) as u8;
        assert(raw & 0xff == raw % 256) by (bit_vector);
        ExitStatus::Exited(code)
    }

    pub fn signaled(signal: Signal) -> (status: Self)
        ensures
            status == ExitStatus::Signaled(signal),
    {
        ExitStatus::Signaled(signal)
    }
}

#[derive(Clone, Copy, Debug, PartialEq, Eq)]
pub enum ProcessError {
    ArgumentsTooLarge,
    FileNotFound,
    InvalidElf,
    InvalidAddressSpace,
    OutOfMemory,
    UnsupportedElf,
    UnsupportedFile,
}

#[derive(Clone, Copy, Debug, PartialEq, Eq)]
pub enum DescriptorError {
    NotOpen,
    NoSpace,
}

#[derive(Clone, Copy, Debug, PartialEq, Eq)]
pub enum ForkError {
    OutOfMemory,
    InvalidAddressSpace,
}

#[derive(Clone, Copy, Debug, PartialEq, Eq)]
pub enum MemoryError {
    InvalidRange,
    OutOfMemory,
    Fault,
}

#[derive(Clone, Copy, Debug, PartialEq, Eq)]
pub enum SetPgidError {
    NoSuchProcess,
}

#[derive(Clone, Copy, Debug, PartialEq, Eq)]
pub enum CreateSessionError {
    NoSuchProcess,
    /// The caller is already a process group leader; POSIX forbids it from starting a new
    /// session (`EPERM`).
    AlreadyGroupLeader,
}

#[derive(Clone, Copy, Debug, PartialEq, Eq)]
pub enum WaitError {
    NoChild,
}

/// Process, group and session ids are their values: two ids of one kind with the same value are
/// the same id, so an id read back through `as_u64` and rebuilt with `new` or `from_process` is
/// the id it came from.
pub proof fn lemma_ids_are_values(
    a: ProcessId,
    b: ProcessId,
    g: ProcessGroupId,
    h: ProcessGroupId,
    s: SessionId,
    t: SessionId,
)
    ensures
        a.value() == b.value() ==> a == b,
        g.value() == h.value() ==> g == h,
        s.value() == t.value() ==> s == t,
{
}

} // verus!
