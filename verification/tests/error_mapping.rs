use roxy_kernel::process::deliver::FrameError;
use roxy_kernel::process::ids::{CreateSessionError, ForkError, MemoryError, ProcessError, ProcessId, ThreadId};
use roxy_kernel::process::lifecycle::{map_elf_error, map_thread_error, map_vfs_error, memory_vm_error, ElfError, ThreadCreateError, VfsError, VmError};
use roxy_kernel::process::signal::{PendingSignal, Signal, SignalAction, SignalSet, SignalSource};
use roxy_kernel::process::frame::UserContext;
use roxy_kernel::process::table::ProcessTable;

#[test]
fn program_loading_errors() {
    assert_eq!(map_vfs_error(VfsError::NotFound), ProcessError::FileNotFound);
    assert_eq!(map_vfs_error(VfsError::Unsupported), ProcessError::UnsupportedFile);
    assert_eq!(map_vfs_error(VfsError::Other), ProcessError::InvalidElf);
    assert_eq!(map_elf_error(ElfError::OutOfMemory), ProcessError::OutOfMemory);
    assert_eq!(map_elf_error(ElfError::UnsupportedFormat), ProcessError::UnsupportedElf);
    assert_eq!(map_elf_error(ElfError::Other), ProcessError::InvalidElf);
}

#[test]
fn fork_and_memory_errors() {
    assert_eq!(map_thread_error(ThreadCreateError::OutOfMemory), ForkError::OutOfMemory);
    assert_eq!(memory_vm_error(VmError::PartialUnmap), MemoryError::InvalidRange);
    assert_eq!(memory_vm_error(VmError::OutOfMemory), MemoryError::OutOfMemory);
    assert_eq!(memory_vm_error(VmError::PermissionDenied), MemoryError::Fault);
    assert_eq!(memory_vm_error(VmError::MappingFailed), MemoryError::Fault);
}

#[test]
fn session_of_a_missing_process() {
    let mut table = ProcessTable::new();
    table.attach_thread(ThreadId(5), ProcessId::new(9).unwrap());
    assert_eq!(table.create_session(ThreadId(5)), Err(CreateSessionError::NoSuchProcess));
}

#[test]
fn unreportable_sender_faults_delivery() {
    let mut table = ProcessTable::new();
    table.insert(roxy_kernel::process::table::Process::new(ProcessId::new(1).unwrap(), ThreadId(10)));
    let signal = Signal::new(10).unwrap();
    let handler = SignalAction::Handler { address: 0x40_1000, mask: SignalSet::empty(), include_siginfo: true, restart: false };
    table.replace_signal_action(ThreadId(10), signal, handler).unwrap();
    // A sender id that does not fit in `si_pid`.
    let pending = PendingSignal { signal, sender_pid: 1 << 40, source: SignalSource::Process, value: None };
    let context = UserContext {
        r15: 0, r14: 0, r13: 0, r12: 0, rbp: 0, rbx: 0, rax: 0, rdi: 0, rsi: 0, rdx: 0, r10: 0, r8: 0, r9: 0,
        instruction_pointer: 0x2000,
        flags: 0x202,
        stack_pointer: 0x7fff_ffff_f000,
        fs_base: 0,
    };
    let result = table.prepare_handler_resume(ThreadId(10), &context, false, pending, handler);
    assert!(matches!(result, Err(FrameError::SenderOutOfRange)));
    assert!(table.currently_blocked_signals(ThreadId(10)).is_empty());
}
