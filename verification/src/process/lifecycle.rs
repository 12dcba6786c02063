//! The decisions around a process's life: how fork's child resumes, how the errors of the
//! address-space, thread, file and ELF layers surface, where a program is entered, and what
//! default actions and thread exits do to the table.
use vstd::prelude::*;

use crate::address::UserAddress;

use super::actions::signal_actions_contents;
use super::frame::UserContext;
use super::ids::{DescriptorError, ExitStatus, ForkError, MemoryError, ProcessError, ProcessId, ThreadId};
use super::actions::SignalActions;
use super::signal::{DefaultAction, PendingSignal, Signal, SignalSet};
use super::table::{ExitNotification, Process, ProcessState, ProcessTable};

verus! {

/// Where the interpreter of a dynamically linked program is loaded.
pub const INTERPRETER_BASE: u64 = 0x0000_2000_0000_0000;

/// Why an address-space operation failed.
#[derive(Clone, Copy, Debug, PartialEq, Eq, Structural)]
pub enum VmError {
    OutOfMemory,
    InvalidRange,
    PartialUnmap,
    AddressInUse,
    NotMapped,
    MappingFailed,
    PermissionDenied,
}

/// Why a thread could not be created.
#[derive(Clone, Copy, Debug, PartialEq, Eq, Structural)]
pub enum ThreadCreateError {
    OutOfMemory,
}

/// Why a file could not be read.
#[derive(Clone, Copy, Debug, PartialEq, Eq, Structural)]
pub enum VfsError {
    NotFound,
    Unsupported,
    /// Any other file-system failure.
    Other,
}

/// Why an ELF image could not be loaded.
#[derive(Clone, Copy, Debug, PartialEq, Eq, Structural)]
pub enum ElfError {
    OutOfMemory,
    UnsupportedFormat,
    /// Any other malformed image.
    Other,
}

impl UserContext {
    /// The context with `value` as the system call's result.
    pub fn with_syscall_result(self, value: u64) -> (context: UserContext)
        ensures
            context == (UserContext { rax: value, ..self }),
    {
        UserContext { rax: value, ..self }
    }
}

/// The context fork's child resumes with: the parent's, with the system call returning zero.
pub fn child_context(context: UserContext) -> (child: UserContext)
    ensures
        child == (UserContext { rax: 0, ..context }),
{
    context.with_syscall_result(0)
}

/// How an address-space failure surfaces from fork: out of memory stays out of memory, any
/// other failure is an invalid address space.
pub fn map_vm_error(error: VmError) -> (mapped: ForkError)
    ensures
        mapped == (if error is OutOfMemory {
            ForkError::OutOfMemory
        } else {
            ForkError::InvalidAddressSpace
        }),
{
    match error {
        VmError::OutOfMemory => ForkError::OutOfMemory,
        VmError::InvalidRange | VmError::PartialUnmap | VmError::AddressInUse | VmError::NotMapped
        | VmError::MappingFailed | VmError::PermissionDenied => ForkError::InvalidAddressSpace,
    }
}

/// How a thread-creation failure surfaces from fork.
pub fn map_thread_error(error: ThreadCreateError) -> (mapped: ForkError)
    ensures
        mapped == ForkError::OutOfMemory,
{
    match error {
        ThreadCreateError::OutOfMemory => ForkError::OutOfMemory,
    }
}

/// How an address-space failure surfaces while building a process image.
pub fn process_vm_error(error: VmError) -> (mapped: ProcessError)
    ensures
        mapped == (if error is OutOfMemory {
            ProcessError::OutOfMemory
        } else {
            ProcessError::InvalidAddressSpace
        }),
{
    match error {
        VmError::OutOfMemory => ProcessError::OutOfMemory,
        VmError::InvalidRange | VmError::PartialUnmap | VmError::AddressInUse | VmError::NotMapped
        | VmError::MappingFailed | VmError::PermissionDenied => ProcessError::InvalidAddressSpace,
    }
}

/// How a failure to read a program surfaces: a missing file, an unsupported file, or else an
/// invalid image.
pub fn map_vfs_error(error: VfsError) -> (mapped: ProcessError)
    ensures
        mapped == (match error {
            VfsError::NotFound => ProcessError::FileNotFound,
            VfsError::Unsupported => ProcessError::UnsupportedFile,
            VfsError::Other => ProcessError::InvalidElf,
        }),
{
    match error {
        VfsError::NotFound => ProcessError::FileNotFound,
        VfsError::Unsupported => ProcessError::UnsupportedFile,
        VfsError::Other => ProcessError::InvalidElf,
    }
}

/// How a failure to load a program surfaces: out of memory, an unsupported format, or else an
/// invalid image.
pub fn map_elf_error(error: ElfError) -> (mapped: ProcessError)
    ensures
        mapped == (match error {
            ElfError::OutOfMemory => ProcessError::OutOfMemory,
            ElfError::UnsupportedFormat => ProcessError::UnsupportedElf,
            ElfError::Other => ProcessError::InvalidElf,
        }),
{
    match error {
        ElfError::OutOfMemory => ProcessError::OutOfMemory,
        ElfError::UnsupportedFormat => ProcessError::UnsupportedElf,
        ElfError::Other => ProcessError::InvalidElf,
    }
}

/// How an address-space failure surfaces from the anonymous-memory calls: a bad range, out of
/// memory, or a fault.
pub fn memory_vm_error(error: VmError) -> (mapped: MemoryError)
    ensures
        mapped == (match error {
            VmError::InvalidRange | VmError::PartialUnmap | VmError::AddressInUse
            | VmError::NotMapped => MemoryError::InvalidRange,
            VmError::OutOfMemory => MemoryError::OutOfMemory,
            VmError::MappingFailed | VmError::PermissionDenied => MemoryError::Fault,
        }),
{
    match error {
        VmError::InvalidRange | VmError::PartialUnmap | VmError::AddressInUse | VmError::NotMapped => {
            MemoryError::InvalidRange
        },
        VmError::OutOfMemory => MemoryError::OutOfMemory,
        VmError::MappingFailed | VmError::PermissionDenied => MemoryError::Fault,
    }
}

/// Why a descriptor-table operation failed.
#[derive(Clone, Copy, Debug, PartialEq, Eq, Structural)]
pub enum DupError {
    /// The source descriptor is not open.
    NotOpen,
    /// No descriptor is free in the requested range.
    NoSpace,
}

/// How a descriptor-table failure surfaces from the descriptor calls.
pub fn map_dup_error(error: DupError) -> (mapped: DescriptorError)
    ensures
        mapped == (match error {
            DupError::NotOpen => DescriptorError::NotOpen,
            DupError::NoSpace => DescriptorError::NoSpace,
        }),
{
    match error {
        DupError::NotOpen => DescriptorError::NotOpen,
        DupError::NoSpace => DescriptorError::NoSpace,
    }
}

/// Where a program starts: its entry address and where its interpreter was loaded (zero
/// without one).
#[derive(Clone, Copy, Debug, PartialEq, Eq)]
pub struct EntryPoint {
    pub address: UserAddress,
    pub interpreter_base: u64,
}

/// The address the interpreter is loaded at.
pub fn interpreter_base() -> (base: Result<UserAddress, ProcessError>)
    ensures
        base matches Ok(address) && address.value() == INTERPRETER_BASE,
{
    match UserAddress::new(INTERPRETER_BASE) {
        Some(address) => Ok(address),
        None => Err(ProcessError::InvalidAddressSpace),
    }
}

/// Where a program starts: at its own entry without an interpreter, or at the interpreter's
/// entry, given with the interpreter's load base, when it has one.
pub fn entry_point(executable_entry: UserAddress, interpreter: Option<(UserAddress, u64)>) -> (entry: EntryPoint)
    ensures
        entry == (match interpreter {
            None => EntryPoint { address: executable_entry, interpreter_base: 0 },
            Some((address, base)) => EntryPoint { address, interpreter_base: base },
        }),
{
    match interpreter {
        None => EntryPoint { address: executable_entry, interpreter_base: 0 },
        Some((address, base)) => EntryPoint { address, interpreter_base: base },
    }
}

/// What applying a signal's default action to the current process comes to.
#[derive(Clone, Copy, Debug)]
pub enum DefaultOutcome {
    /// The process began to exit; publish the notification and end the thread.
    Exiting(ExitNotification),
    /// The process stopped; wake a waiting parent and block the thread.
    Stopped(ProcessId),
    /// Nothing to do.
    Nothing,
}

impl ProcessTable {
    /// Removes every installed disposition of the process owning `thread`, as `execve` does.
    pub fn clear_signal_actions(&mut self, thread: ThreadId)
        requires
            old(self).wf(),
        ensures
            final(self).wf(),
            !old(self).has_current(thread.0) ==> *final(self) == *old(self),
            old(self).has_current(thread.0) ==> {
                let pid = old(self).owners()[thread.0].value();
                let p = old(self).procs()[pid];
                let q = final(self).procs()[pid];
                &&& ProcessTable::only_changed(*old(self), *final(self), pid)
                &&& q == Process { signal_actions: q.signal_actions, ..p }
                &&& signal_actions_contents(q.signal_actions) =~= Map::empty()
            },
    {
        let pid = match self.current_id(thread) {
            Some(pid) => pid,
            None => return,
        };
        let mut process = self.take_process(pid).unwrap();
        process.signal_actions.clear();
        self.put_process(process);
        proof {
            assert(self.procs().dom() =~= old(self).procs().dom());
        }
    }

    /// Applies the default action `action` of `signal` to the process owning `thread`:
    /// termination begins its exit with the signal as status, a stop suspends it, and the other
    /// actions change nothing.
    pub fn apply_default_action(&mut self, thread: ThreadId, signal: Signal, action: DefaultAction) -> (outcome: DefaultOutcome)
        requires
            old(self).wf(),
            old(self).has_current(thread.0),
            action != DefaultAction::Unsupported,
            action == DefaultAction::Terminate ==> old(self).current_of(thread.0).state == ProcessState::Running,
        ensures
            final(self).wf(),
            final(self).owners() == old(self).owners(),
            final(self).waiters() == old(self).waiters(),
            ({
                let pid = old(self).owners()[thread.0].value();
                let p = old(self).procs()[pid];
                match action {
                    DefaultAction::Terminate => {
                        &&& final(self).procs() == old(self).procs().insert(
                            pid,
                            Process { state: ProcessState::Exiting(ExitStatus::Signaled(signal)), ..p },
                        )
                        &&& outcome matches DefaultOutcome::Exiting(n) && n.process.value() == pid
                    },
                    DefaultAction::Stop => {
                        &&& final(self).procs() == old(self).procs().insert(
                            pid,
                            Process { state: ProcessState::Stopped(signal), ..p },
                        )
                        &&& outcome matches DefaultOutcome::Stopped(s) && s.value() == pid
                    },
                    _ => final(self).procs() == old(self).procs() && outcome is Nothing,
                }
            }),
    {
        match action {
            DefaultAction::Terminate => {
                DefaultOutcome::Exiting(self.begin_exit(thread, ExitStatus::signaled(signal)))
            },
            DefaultAction::Stop => DefaultOutcome::Stopped(self.mark_stopped(thread, signal)),
            _ => DefaultOutcome::Nothing,
        }
    }

    /// Ends `thread`: when it is the last thread of its process, the process begins to exit
    /// with status zero and the notification to publish is returned.
    pub fn thread_exit(&mut self, thread: ThreadId) -> (notification: Option<ExitNotification>)
        requires
            old(self).wf(),
            old(self).has_current(thread.0),
            (forall|t: u64| old(self).owns_thread(old(self).owners()[thread.0].value(), t) ==> t == thread.0)
                ==> old(self).current_of(thread.0).state == ProcessState::Running,
        ensures
            final(self).wf(),
            final(self).owners() == old(self).owners(),
            final(self).waiters() == old(self).waiters(),
            ({
                let pid = old(self).owners()[thread.0].value();
                let p = old(self).procs()[pid];
                if forall|t: u64| old(self).owns_thread(pid, t) ==> t == thread.0 {
                    &&& final(self).procs() == old(self).procs().insert(
                        pid,
                        Process { state: ProcessState::Exiting(ExitStatus::Exited(0)), ..p },
                    )
                    &&& notification matches Some(n) && n.process.value() == pid
                } else {
                    final(self).procs() == old(self).procs() && notification is None
                }
            }),
    {
        let pid = self.current_process_id(thread);
        if self.is_last_thread(pid, thread) {
            let status = ExitStatus::exited(0);
            Some(self.begin_exit(thread, status))
        } else {
            None
        }
    }
}

/// Hands out process ids, counting up from one.
pub struct ProcessIdAllocator {
    next: u64,
}

impl ProcessIdAllocator {
    pub closed spec fn upcoming(&self) -> u64 {
        self.next
    }

    pub fn new() -> (ids: Self)
        ensures
            ids.upcoming() == 1,
    {
        ProcessIdAllocator { next: 1 }
    }

    /// A fresh process id: every id handed out is larger than all before it.
    pub fn allocate(&mut self) -> (id: ProcessId)
        requires
            0 < old(self).upcoming() < u64::MAX,
        ensures
            id.value() == old(self).upcoming(),
            final(self).upcoming() == old(self).upcoming() + 1,
    {
        let value = self.next;
        self.next = value + 1;
        ProcessId::new(value).unwrap()
    }
}

impl ProcessTable {
    /// Publishes the child of a fork by the process owning `thread`: process `child` with main
    /// thread `child_thread`, in its parent's group and session, with copies of its parent's
    /// dispositions and nothing pending, masked or stacked.
    pub fn fork_process(&mut self, thread: ThreadId, child: ProcessId, child_thread: ThreadId) -> (parent: ProcessId)
        requires
            old(self).wf(),
            old(self).has_current(thread.0),
            !old(self).procs().contains_key(child.value()),
            !old(self).owners().contains_key(child_thread.0),
        ensures
            final(self).wf(),
            parent == old(self).owners()[thread.0],
            final(self).owners() == old(self).owners().insert(child_thread.0, child),
            final(self).waiters() == old(self).waiters(),
            final(self).procs().dom() == old(self).procs().dom().insert(child.value()),
            forall|k: u64| k != child.value() && #[trigger] old(self).procs().contains_key(k) ==> final(self).procs()[k]
                == old(self).procs()[k],
            ({
                let p = old(self).current_of(thread.0);
                let c = final(self).procs()[child.value()];
                &&& c.id == child
                &&& c.pgid == p.pgid
                &&& c.session_id == p.session_id
                &&& c.parent_process_id == Some(parent)
                &&& c.main_thread_id == child_thread
                &&& signal_actions_contents(c.signal_actions) == signal_actions_contents(p.signal_actions)
                &&& c.pending_signals@.len() == 0
                &&& c.masked_signals.bits_of() == 0
                &&& c.signal_frames@.len() == 0
                &&& c.thread_masks@ == Map::<u64, SignalSet>::empty()
                &&& c.thread_pending@ == Map::<u64, Vec<PendingSignal>>::empty()
                &&& c.state == ProcessState::Running
                &&& !c.continued
            }),
    {
        let parent = self.current_process_id(thread);
        let record = self.get_process(parent).unwrap();
        let actions: SignalActions = record.signal_actions.duplicate();
        let child_record = Process::from_fork(
            child,
            parent,
            record.pgid,
            record.session_id,
            child_thread,
            actions,
        );
        self.insert(child_record);
        proof {
            assert(self.procs().dom() =~= old(self).procs().dom().insert(child.value()));
        }
        parent
    }
}

} // verus!
