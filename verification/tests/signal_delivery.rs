use roxy_kernel::address::UserAddress;
use roxy_kernel::process::deliver::{signal_frame_base, DeliveryOutcome, FrameError, SigWait};
use roxy_kernel::process::frame::{
    abi_si_code, build_bytes, build_siginfo, checked_siginfo, restore_context, restore_old_mask, Siginfo,
    UserContext, OLD_MASK_OFFSET, RETURN_ADDRESS_SIZE, SIGINFO_OFFSET, SIGNAL_FRAME_SIZE, SI_KERNEL, SI_TIMER,
    SI_TKILL, SI_USER, TRAMPOLINE_BASE, USER_CONTEXT_OFFSET, USER_CONTEXT_SIZE,
};
use roxy_kernel::process::ids::{DescriptorError, ProcessError, ProcessId, ThreadId};
use roxy_kernel::process::lifecycle::{
    child_context, entry_point, interpreter_base, map_dup_error, map_vm_error, process_vm_error, DupError,
    EntryPoint, VmError,
};
use roxy_kernel::process::signal::{PendingSignal, Signal, SignalAction, SignalSet, SignalSource, SIGINT, SIGTERM};
use roxy_kernel::process::startup::{
    encode, header_size, plan_startup_stack, stack_pointer, strings_size, ProgramImage, StartupStackData, UserStack,
    AT_EXECFN, AT_PHDR,
};
use roxy_kernel::process::table::{Process, ProcessTable};

fn sample_context() -> UserContext {
    UserContext {
        r15: 0x1000,
        r14: 0x1001,
        r13: 0x1002,
        r12: 0x1003,
        rbp: 0x1004,
        rbx: 0x1005,
        rax: 0x1006,
        rdi: 0x1007,
        rsi: 0x1008,
        rdx: 0x1009,
        r10: 0x100a,
        r8: 0x100b,
        r9: 0x100c,
        instruction_pointer: 0x2000,
        flags: 0x202,
        stack_pointer: 0x7fff_ffff_f000,
        fs_base: 0x3000,
    }
}

fn signal(number: u8) -> Signal {
    Signal::new(number).unwrap()
}

fn pending(number: u8, sender_pid: u64, source: SignalSource, value: Option<u64>) -> PendingSignal {
    PendingSignal { signal: signal(number), sender_pid, source, value }
}

fn info() -> Siginfo {
    build_siginfo(pending(SIGINT, 3, SignalSource::Process, None))
}

fn word(bytes: &[u8], offset: usize) -> u64 {
    u64::from_le_bytes(bytes[offset..offset + 8].try_into().unwrap())
}

fn u32_at(bytes: &[u8], offset: usize) -> u32 {
    u32::from_le_bytes(bytes[offset..offset + 4].try_into().unwrap())
}

#[test]
fn round_trips_context_and_mask() {
    let context = sample_context();
    let old_mask = SignalSet::from_signal(signal(10)).union(SignalSet::from_signal(signal(14)));
    let frame = build_bytes(&context, old_mask, &info());
    assert_eq!(frame.len(), SIGNAL_FRAME_SIZE);
    assert_eq!(restore_context(&frame[USER_CONTEXT_OFFSET..USER_CONTEXT_OFFSET + USER_CONTEXT_SIZE]), context);
    assert_eq!(restore_old_mask(&frame), old_mask);
}

#[test]
fn aims_return_address_at_trampoline() {
    let frame = build_bytes(&sample_context(), SignalSet::empty(), &info());
    assert_eq!(word(&frame, 0), TRAMPOLINE_BASE);
    assert_eq!(frame.len() - SIGINFO_OFFSET, 40);
    assert_eq!(word(&frame, OLD_MASK_OFFSET), 0);
}

#[test]
fn siginfo_reports_sender_or_timer_value() {
    let from_process = build_siginfo(pending(SIGINT, 3, SignalSource::Process, None));
    assert_eq!(from_process.si_signo, 2);
    assert_eq!(from_process.si_code, SI_USER);
    assert_eq!(from_process.si_pid, 3);
    assert_eq!(from_process.si_value, 0);
    let from_timer = build_siginfo(pending(14, 0, SignalSource::Timer, Some(99)));
    assert_eq!(from_timer.si_code, SI_TIMER);
    assert_eq!(from_timer.si_pid, 0);
    assert_eq!(from_timer.si_value, 99);
    assert_eq!(abi_si_code(SignalSource::Tkill), SI_TKILL);
    assert_eq!(abi_si_code(SignalSource::Kernel), SI_KERNEL);
    assert!(checked_siginfo(pending(SIGINT, 1 << 40, SignalSource::Process, None)).is_none());
    assert!(checked_siginfo(pending(SIGINT, 1 << 40, SignalSource::Timer, None)).is_some());
}

#[test]
fn siginfo_is_encoded_after_the_mask() {
    let frame = build_bytes(&sample_context(), SignalSet::empty(), &build_siginfo(pending(14, 0, SignalSource::Timer, Some(7))));
    assert_eq!(u32_at(&frame, SIGINFO_OFFSET), 14);
    assert_eq!(u32_at(&frame, SIGINFO_OFFSET + 4), SI_TIMER as u32);
    assert_eq!(word(&frame, SIGINFO_OFFSET + 24), 7);
}

#[test]
fn frame_base_is_aligned_below_the_red_zone() {
    let base = signal_frame_base(0x7fff_ffff_f000).unwrap();
    assert_eq!(base % 16, 8);
    assert!(base + SIGNAL_FRAME_SIZE as u64 + 128 <= 0x7fff_ffff_f000);
    assert_eq!(base, 0x7fff_ffff_f000 - 128 - 192 - 8);
    assert_eq!(signal_frame_base(100), None);
}

fn table_with_handler(action: SignalAction) -> ProcessTable {
    let mut table = ProcessTable::new();
    table.insert(Process::new(ProcessId::new(1).unwrap(), ThreadId(10)));
    table.replace_signal_action(ThreadId(10), signal(SIGINT), action).unwrap();
    table
}

#[test]
fn handler_delivery_builds_frame_and_masks() {
    let action = SignalAction::Handler {
        address: 0x40_1000,
        mask: SignalSet::from_signal(signal(SIGTERM)),
        include_siginfo: true,
        restart: false,
    };
    let mut table = table_with_handler(action);
    table.send_signal(None, ProcessId::new(1).unwrap(), signal(SIGINT), roxy_kernel::process::signal::DefaultAction::Terminate).unwrap();
    let context = sample_context();
    let delivery = table.deliver_pending_signal(ThreadId(10), &context, false).expect("a signal is pending");
    assert_eq!(delivery.pending.signal, signal(SIGINT));
    let entry = match delivery.outcome {
        DeliveryOutcome::Handler(entry) => entry,
        _ => panic!("handler expected"),
    };
    assert_eq!(entry.resume.instruction_pointer, 0x40_1000);
    assert_eq!(entry.resume.stack_pointer, entry.frame_base);
    assert_eq!(entry.resume.arguments, (2, entry.frame_base + SIGINFO_OFFSET as u64, 0));
    let mask = table.currently_blocked_signals(ThreadId(10));
    assert!(mask.contains_signal(signal(SIGINT)));
    assert!(mask.contains_signal(signal(SIGTERM)));
    assert!(table.deliver_pending_signal(ThreadId(10), &context, false).is_none());

    let popped = table.pop_signal_frame(ThreadId(10), entry.frame_base + RETURN_ADDRESS_SIZE as u64);
    assert_eq!(popped, Some(entry.frame_base));
    let restored = table.finish_sigreturn(ThreadId(10), &entry.frame).unwrap();
    assert_eq!(restored, context);
    assert!(table.currently_blocked_signals(ThreadId(10)).is_empty());
    assert_eq!(table.pop_signal_frame(ThreadId(10), entry.frame_base + RETURN_ADDRESS_SIZE as u64), None);
}

#[test]
fn restarting_handler_steps_back_over_syscall() {
    let action = SignalAction::Handler { address: 0x40_1000, mask: SignalSet::empty(), include_siginfo: false, restart: true };
    let mut table = table_with_handler(action);
    table.send_signal(None, ProcessId::new(1).unwrap(), signal(SIGINT), roxy_kernel::process::signal::DefaultAction::Terminate).unwrap();
    let delivery = table.deliver_pending_signal(ThreadId(10), &sample_context(), true).unwrap();
    match delivery.outcome {
        DeliveryOutcome::Handler(entry) => {
            let saved = restore_context(&entry.frame[USER_CONTEXT_OFFSET..USER_CONTEXT_OFFSET + USER_CONTEXT_SIZE]);
            assert_eq!(saved.instruction_pointer, 0x2000 - 2);
            assert_eq!(entry.resume.arguments, (2, 0, 0));
        }
        _ => panic!("handler expected"),
    }
}

#[test]
fn exhausted_stack_faults_without_changes() {
    let action = SignalAction::Handler { address: 0x40_1000, mask: SignalSet::empty(), include_siginfo: false, restart: false };
    let mut table = table_with_handler(action);
    table.send_signal(None, ProcessId::new(1).unwrap(), signal(SIGINT), roxy_kernel::process::signal::DefaultAction::Terminate).unwrap();
    let context = UserContext { stack_pointer: 64, ..sample_context() };
    let delivery = table.deliver_pending_signal(ThreadId(10), &context, false).unwrap();
    assert!(matches!(delivery.outcome, DeliveryOutcome::Fault(FrameError::StackExhausted)));
    assert!(table.currently_blocked_signals(ThreadId(10)).is_empty());
}

#[test]
fn ignored_and_default_dispositions() {
    let mut table = table_with_handler(SignalAction::Ignore);
    table.replace_signal_action(ThreadId(10), signal(SIGINT), SignalAction::Default).unwrap();
    table.send_signal(None, ProcessId::new(1).unwrap(), signal(SIGINT), roxy_kernel::process::signal::DefaultAction::Terminate).unwrap();
    let delivery = table.deliver_pending_signal(ThreadId(10), &sample_context(), false).unwrap();
    assert!(matches!(delivery.outcome, DeliveryOutcome::Default));
    assert!(table.deliver_pending_signal(ThreadId(99), &sample_context(), false).is_none());
}

#[test]
fn sigwait_reports_number_and_record() {
    let report = SigWait::from_pending(pending(SIGTERM, 4, SignalSource::Tkill, None)).unwrap();
    assert_eq!(report.number, 15);
    assert_eq!(report.info.si_code, SI_TKILL);
    assert_eq!(report.info.si_pid, 4);
    assert!(SigWait::from_pending(pending(SIGTERM, 1 << 33, SignalSource::Process, None)).is_none());
}

fn startup_data() -> StartupStackData {
    StartupStackData {
        path: b"/bin/sh".to_vec(),
        argv: vec![b"sh".to_vec(), b"-c".to_vec()],
        envp: vec![b"A=1".to_vec()],
        executable: ProgramImage {
            program_headers_address: 0x40_0040,
            program_header_size: 56,
            program_header_count: 9,
            entry: 0x40_1000,
        },
        interpreter_base: 0,
    }
}

#[test]
fn startup_stack_layout() {
    let stack = UserStack { top: 0x7fff_0000, bottom: 0x7ffe_0000 };
    let (pointer, bytes) = plan_startup_stack(&stack, &startup_data()).unwrap();
    assert_eq!(pointer.as_u64(), 0x7fff_0000 - 224);
    assert_eq!(bytes.len(), 210);
    let strings = pointer.as_u64() + 192;
    assert_eq!(word(&bytes, 0), 2);
    assert_eq!(word(&bytes, 8), strings + 8);
    assert_eq!(word(&bytes, 16), strings + 11);
    assert_eq!(word(&bytes, 24), 0);
    assert_eq!(word(&bytes, 32), strings + 14);
    assert_eq!(word(&bytes, 40), 0);
    assert_eq!((word(&bytes, 48), word(&bytes, 56)), (AT_PHDR, 0x40_0040));
    assert_eq!((word(&bytes, 144), word(&bytes, 152)), (AT_EXECFN, strings));
    assert_eq!((word(&bytes, 176), word(&bytes, 184)), (0, 0));
    assert_eq!(&bytes[192..], b"/bin/sh\0sh\0-c\0A=1\0");
    assert_eq!(encode(&startup_data(), 210, strings).unwrap(), bytes);
    assert_eq!(encode(&startup_data(), 210, u64::MAX - 10), Err(ProcessError::InvalidAddressSpace));
}

#[test]
fn startup_stack_sizes() {
    assert_eq!(header_size(2, 1), Ok(192));
    assert_eq!(header_size(usize::MAX, 1), Err(ProcessError::ArgumentsTooLarge));
    let data = startup_data();
    assert_eq!(strings_size(&data.path, &data.argv, &data.envp), Ok(18));
    let stack = UserStack { top: 0x7fff_0000, bottom: 0x7fff_0000 - 0x20 };
    assert_eq!(stack_pointer(&stack, 17).unwrap().as_u64(), 0x7fff_0000 - 32);
    assert_eq!(stack_pointer(&stack, 33), Err(ProcessError::ArgumentsTooLarge));
    assert!(matches!(plan_startup_stack(&stack, &data), Err(ProcessError::ArgumentsTooLarge)));
}

#[test]
fn fork_child_returns_zero() {
    let child = child_context(sample_context());
    assert_eq!(child.rax, 0);
    assert_eq!(child.instruction_pointer, 0x2000);
    assert_eq!(sample_context().with_syscall_result(5).rax, 5);
}

#[test]
fn program_entry_prefers_the_interpreter() {
    let own = UserAddress::new(0x40_1000).unwrap();
    let interp = UserAddress::new(0x7000_1000).unwrap();
    assert_eq!(entry_point(own, None), EntryPoint { address: own, interpreter_base: 0 });
    assert_eq!(
        entry_point(own, Some((interp, 0x7000_0000))),
        EntryPoint { address: interp, interpreter_base: 0x7000_0000 }
    );
    assert!(interpreter_base().is_ok());
}

#[test]
fn address_space_errors_map() {
    assert_eq!(process_vm_error(VmError::OutOfMemory), ProcessError::OutOfMemory);
    assert_eq!(format!("{:?}", map_vm_error(VmError::OutOfMemory)), "OutOfMemory");
    assert_eq!(format!("{:?}", map_vm_error(VmError::NotMapped)), "InvalidAddressSpace");
    assert_eq!(map_dup_error(DupError::NotOpen), DescriptorError::NotOpen);
    assert_eq!(map_dup_error(DupError::NoSpace), DescriptorError::NoSpace);
}
