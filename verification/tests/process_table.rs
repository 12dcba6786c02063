use roxy_kernel::process::ids::{
    CreateSessionError, ExitStatus, ProcessGroupId, ProcessId, SessionId, SetPgidError, ThreadId,
    WaitError,
};
use roxy_kernel::process::lifecycle::{DefaultOutcome, ProcessIdAllocator};
use roxy_kernel::process::signal::{
    DefaultAction, PendingSignal, Signal, SignalAction, SignalSet, SignalSource, SIGCONT, SIGINT,
    SIGKILL, SIGSTOP, SIGTERM,
};
use roxy_kernel::process::signals::{SignalDelivery, SignalError};
use roxy_kernel::process::table::{Process, ProcessState, ProcessTable, WaitResult, WaitStep, WaitTarget};

fn pid(value: u64) -> ProcessId {
    ProcessId::new(value).unwrap()
}

fn signal(number: u8) -> Signal {
    Signal::new(number).unwrap()
}

/// A table with process 1 (thread 10) and its forked children 2 (thread 20) and 3 (thread 30).
fn family() -> ProcessTable {
    let mut table = ProcessTable::new();
    table.insert(Process::new(pid(1), ThreadId(10)));
    table.fork_process(ThreadId(10), pid(2), ThreadId(20));
    table.fork_process(ThreadId(10), pid(3), ThreadId(30));
    table
}

fn exit_thread(table: &mut ProcessTable, thread: u64, code: u64) -> Option<ThreadId> {
    table.begin_exit(ThreadId(thread), ExitStatus::exited(code));
    table.finish_thread_reap(ThreadId(thread))
}

#[test]
fn process_ids_count_up_from_one() {
    let mut ids = ProcessIdAllocator::new();
    assert_eq!(ids.allocate().as_u64(), 1);
    assert_eq!(ids.allocate().as_u64(), 2);
    assert!(pid(1) < pid(2));
    assert!(ProcessGroupId::new(3).unwrap() > ProcessGroupId::new(2).unwrap());
}

#[test]
fn exit_status_keeps_the_low_byte() {
    assert_eq!(ExitStatus::exited(42), ExitStatus::Exited(42));
    assert_eq!(ExitStatus::exited(0x1ff), ExitStatus::Exited(0xff));
}

#[test]
fn table_lifecycle() {
    let mut table = ProcessTable::new();
    table.insert(Process::new(pid(1), ThreadId(10)));
    let parent = table.fork_process(ThreadId(10), pid(2), ThreadId(20));
    assert_eq!(parent, pid(1));
    assert_eq!(table.get_process(pid(1)).unwrap().parent_process_id, None);
    assert_eq!(table.get_process(pid(2)).unwrap().parent_process_id, Some(pid(1)));

    let notification = table.begin_exit(ThreadId(10), ExitStatus::exited(42));
    assert_eq!(notification.process, pid(1));
    assert_eq!(notification.session, Some(SessionId::from_process(pid(1))));
    table.finish_thread_reap(ThreadId(10));
    assert_eq!(table.reap_exited_process(pid(1)), Some(ExitStatus::exited(42)));
    assert_eq!(table.get_process(pid(2)).unwrap().parent_process_id, None);
}

#[test]
fn reap_secondary() {
    let mut table = ProcessTable::new();
    table.insert(Process::new(pid(1), ThreadId(10)));
    table.attach_thread(ThreadId(11), pid(1));

    table.finish_thread_reap(ThreadId(11));
    assert_eq!(table.get_process(pid(1)).unwrap().state, ProcessState::Running);
    assert!(table.process_has_threads(pid(1)));
    assert_eq!(table.signal_target_thread(pid(1)), ThreadId(10));

    table.begin_exit(ThreadId(10), ExitStatus::exited(7));
    table.finish_thread_reap(ThreadId(10));
    assert_eq!(table.reap_exited_process(pid(1)), Some(ExitStatus::exited(7)));
}

#[test]
fn signal_target_survives_main_thread() {
    let mut table = ProcessTable::new();
    table.insert(Process::new(pid(1), ThreadId(10)));
    table.attach_thread(ThreadId(12), pid(1));
    table.attach_thread(ThreadId(11), pid(1));
    table.finish_thread_reap(ThreadId(10));
    assert_eq!(table.signal_target_thread(pid(1)), ThreadId(11));
    assert!(!table.is_last_thread(pid(1), ThreadId(11)));
}

#[test]
fn wait_selection() {
    let mut table = family();
    assert_eq!(table.wait_step(ThreadId(10), WaitTarget::Process(pid(3)), false), Ok(WaitStep::Block));
    // Child 2 exiting does not wake a parent waiting for child 3.
    assert_eq!(exit_thread(&mut table, 20, 22), None);
    // Child 3 exiting wakes it.
    assert_eq!(exit_thread(&mut table, 30, 33), Some(ThreadId(10)));

    assert_eq!(table.find_exited_matching_child(pid(1), WaitTarget::Any), Some(pid(2)));
    assert_eq!(
        table.wait_step(ThreadId(10), WaitTarget::Any, true),
        Ok(WaitStep::Done(WaitResult::Exited { process_id: pid(2), status: ExitStatus::exited(22) }))
    );
    assert_eq!(
        table.wait_step(ThreadId(10), WaitTarget::Process(pid(3)), true),
        Ok(WaitStep::Done(WaitResult::Exited { process_id: pid(3), status: ExitStatus::exited(33) }))
    );
    assert!(!table.has_matching_child(pid(1), WaitTarget::Any));
    assert_eq!(table.wait_step(ThreadId(10), WaitTarget::Any, true), Err(WaitError::NoChild));
}

#[test]
fn wait_without_hang_reports_pending() {
    let mut table = family();
    assert_eq!(
        table.wait_step(ThreadId(10), WaitTarget::Any, true),
        Ok(WaitStep::Done(WaitResult::Pending))
    );
    assert_eq!(
        table.wait_step(ThreadId(10), WaitTarget::Process(pid(9)), true),
        Err(WaitError::NoChild)
    );
}

#[test]
fn groups_and_sessions() {
    let mut table = family();
    assert_eq!(table.process_pgid(pid(2)), Some(ProcessGroupId::from_process(pid(1))));
    assert_eq!(table.process_session_id(pid(3)), Some(SessionId::from_process(pid(1))));
    assert_eq!(table.process_ids_in_group(ProcessGroupId::from_process(pid(1))), vec![pid(1), pid(2), pid(3)]);

    assert_eq!(table.set_pgid(pid(3), ProcessGroupId::from_process(pid(3))), Ok(()));
    assert_eq!(table.process_ids_in_group(ProcessGroupId::from_process(pid(1))), vec![pid(1), pid(2)]);
    assert_eq!(table.set_pgid(pid(9), ProcessGroupId::from_process(pid(3))), Err(SetPgidError::NoSuchProcess));
    assert_eq!(
        table.process_session_of_pgid(ProcessGroupId::from_process(pid(3))),
        Some(SessionId::from_process(pid(1)))
    );

    // A group leader may not start a session; another process may.
    assert_eq!(table.create_session(ThreadId(10)), Err(CreateSessionError::AlreadyGroupLeader));
    assert_eq!(table.create_session(ThreadId(20)), Ok(ProcessGroupId::from_process(pid(2))));
    assert!(table.is_current_session_leader(ThreadId(20)));
    assert_eq!(table.current_process_session_id(ThreadId(20)), Some(SessionId::from_process(pid(2))));
    assert_eq!(table.current_process_group_id(ThreadId(20)), ProcessGroupId::from_process(pid(2)));
    assert_eq!(table.current_parent_process_id(ThreadId(20)), Some(pid(1)));
    assert_eq!(table.current_process_id(ThreadId(30)), pid(3));
    assert_eq!(table.try_current_process_id(Some(ThreadId(99))), None);
}

#[test]
fn sending_queues_and_wakes() {
    let mut table = family();
    let delivery = table
        .send_signal(Some(ThreadId(20)), pid(3), signal(SIGTERM), DefaultAction::Terminate)
        .unwrap();
    assert_eq!(delivery, SignalDelivery { wake: Some(ThreadId(30)), resumed: false });
    assert_eq!(
        table.get_process(pid(3)).unwrap().pending_signals,
        vec![PendingSignal { signal: signal(SIGTERM), sender_pid: 2, source: SignalSource::Process, value: None }]
    );
    assert!(table.has_pending_signal(Some(ThreadId(30))));
    assert!(table.has_unmasked_pending_signal(Some(ThreadId(30))));
    assert_eq!(
        table.send_signal(None, pid(9), signal(SIGTERM), DefaultAction::Terminate),
        Err(SignalError::NoSuchProcess)
    );
}

#[test]
fn kernel_sends_carry_no_sender() {
    let mut table = family();
    table.send_timer_signal(pid(2), signal(SIGINT), DefaultAction::Terminate, 77).unwrap();
    table.send_signal(None, pid(2), signal(SIGTERM), DefaultAction::Terminate).unwrap();
    let queue = &table.get_process(pid(2)).unwrap().pending_signals;
    assert_eq!(queue[0].source, SignalSource::Timer);
    assert_eq!(queue[0].value, Some(77));
    assert_eq!(queue[1].source, SignalSource::Kernel);
    assert_eq!(queue[1].sender_pid, 0);
}

#[test]
fn ignored_and_unsupported_signals() {
    let mut table = family();
    table.replace_signal_action(ThreadId(20), signal(SIGINT), SignalAction::Ignore).unwrap();
    assert_eq!(
        table.send_signal(None, pid(2), signal(SIGINT), DefaultAction::Terminate),
        Ok(SignalDelivery { wake: None, resumed: false })
    );
    assert!(table.get_process(pid(2)).unwrap().pending_signals.is_empty());
    assert_eq!(
        table.send_signal(None, pid(2), signal(40), DefaultAction::Unsupported),
        Err(SignalError::UnsupportedAction)
    );
    assert_eq!(
        table.replace_signal_action(ThreadId(20), signal(SIGKILL), SignalAction::Ignore),
        Err(SignalError::UnsupportedAction)
    );
}

#[test]
fn stop_and_continue() {
    let mut table = family();
    assert_eq!(table.mark_stopped(ThreadId(20), signal(SIGSTOP)), pid(2));
    // Signals other than SIGCONT and SIGKILL are queued without a wake until the continue.
    let quiet = SignalDelivery { wake: None, resumed: false };
    assert_eq!(table.send_signal(None, pid(2), signal(SIGSTOP), DefaultAction::Stop), Ok(quiet));
    assert_eq!(table.send_signal(None, pid(2), signal(SIGTERM), DefaultAction::Terminate), Ok(quiet));
    let queued: Vec<u8> =
        table.get_process(pid(2)).unwrap().pending_signals.iter().map(|p| p.signal.number()).collect();
    assert_eq!(queued, vec![SIGSTOP, SIGTERM]);
    assert_eq!(table.get_process(pid(2)).unwrap().state, ProcessState::Stopped(signal(SIGSTOP)));
    let resumed = table.send_signal(None, pid(2), signal(SIGCONT), DefaultAction::Continue).unwrap();
    assert_eq!(resumed, SignalDelivery { wake: Some(ThreadId(20)), resumed: true });
    let process = table.get_process(pid(2)).unwrap();
    assert_eq!(process.state, ProcessState::Running);
    assert!(process.continued);
}

#[test]
fn group_sends_reach_every_member() {
    let mut table = family();
    let sent = table.send_signal_to_pgid(Some(ThreadId(10)), ProcessGroupId::from_process(pid(1)), signal(SIGTERM), DefaultAction::Terminate);
    let targets: Vec<ProcessId> = sent.iter().map(|(target, _)| *target).collect();
    assert_eq!(targets, vec![pid(1), pid(2), pid(3)]);
    for id in [1, 2, 3] {
        assert_eq!(table.get_process(pid(id)).unwrap().pending_signals.len(), 1);
    }
}

#[test]
fn thread_directed_sends() {
    let mut table = family();
    table.attach_thread(ThreadId(31), pid(3));
    let delivery = table.send_thread_signal(None, ThreadId(31), signal(SIGTERM), DefaultAction::Terminate).unwrap();
    assert_eq!(delivery.wake, Some(ThreadId(31)));
    assert_eq!(
        table.send_thread_timer_signal(ThreadId(99), signal(SIGTERM), DefaultAction::Terminate, 1),
        Err(SignalError::NoSuchProcess)
    );
    assert!(table.thread_belongs_to_current_process(ThreadId(30), ThreadId(31)));
    assert!(!table.thread_belongs_to_current_process(ThreadId(30), ThreadId(20)));
}

#[test]
fn masks_through_the_table() {
    let mut table = family();
    let term = SignalSet::from_signal(signal(SIGTERM));
    let int = SignalSet::from_signal(signal(SIGINT));
    assert!(table.block_signals(ThreadId(20), term).is_empty());
    assert_eq!(table.block_signals(ThreadId(20), int), term);
    assert_eq!(table.unblock_signals(ThreadId(20), term), term.union(int));
    assert_eq!(table.currently_blocked_signals(ThreadId(20)), int);
    assert_eq!(table.replace_masked_signals(ThreadId(20), SignalSet::empty()), int);
}

#[test]
fn default_actions_apply_to_the_table() {
    let mut table = family();
    match table.apply_default_action(ThreadId(20), signal(SIGSTOP), DefaultAction::Stop) {
        DefaultOutcome::Stopped(stopped) => assert_eq!(stopped, pid(2)),
        _ => panic!("stop expected"),
    }
    assert_eq!(table.get_process(pid(2)).unwrap().state, ProcessState::Stopped(signal(SIGSTOP)));
    match table.apply_default_action(ThreadId(30), signal(SIGTERM), DefaultAction::Terminate) {
        DefaultOutcome::Exiting(notification) => assert_eq!(notification.process, pid(3)),
        _ => panic!("exit expected"),
    }
    assert_eq!(
        table.get_process(pid(3)).unwrap().state,
        ProcessState::Exiting(ExitStatus::Signaled(signal(SIGTERM)))
    );
    assert!(matches!(
        table.apply_default_action(ThreadId(10), signal(SIGCONT), DefaultAction::Continue),
        DefaultOutcome::Nothing
    ));
}

#[test]
fn last_thread_exit_begins_process_exit() {
    let mut table = family();
    table.attach_thread(ThreadId(21), pid(2));
    assert!(table.thread_exit(ThreadId(21)).is_none());
    table.finish_thread_reap(ThreadId(21));
    let notification = table.thread_exit(ThreadId(20)).unwrap();
    assert_eq!(notification.process, pid(2));
    assert_eq!(notification.session, None);
    assert_eq!(
        table.get_process(pid(2)).unwrap().state,
        ProcessState::Exiting(ExitStatus::exited(0))
    );
}

#[test]
fn exec_clears_dispositions() {
    let mut table = family();
    table.replace_signal_action(ThreadId(20), signal(SIGINT), SignalAction::Ignore).unwrap();
    table.clear_signal_actions(ThreadId(20));
    assert_eq!(table.signal_action_of(ThreadId(20), signal(SIGINT)), SignalAction::Default);
}
