use roxy_kernel::process::ids::{ProcessId, ThreadId};
use roxy_kernel::process::signal::{
    filter_unmaskable_signals, PendingSignal, Signal, SignalAction, SignalSet, SignalSource,
    SIGCONT, SIGHUP, SIGINT, SIGKILL, SIGSTOP, SIGTERM,
};
use roxy_kernel::process::table::Process;

fn signal(number: u8) -> Signal {
    Signal::new(number).unwrap()
}

fn pending(number: u8) -> PendingSignal {
    PendingSignal { signal: signal(number), sender_pid: 1, source: SignalSource::Process, value: None }
}

fn process() -> Process {
    Process::new(ProcessId::new(7).unwrap(), ThreadId(70))
}

#[test]
fn signal_numbers_are_one_to_sixty_four() {
    assert!(Signal::new(0).is_none());
    assert_eq!(Signal::new(1).unwrap().number(), 1);
    assert_eq!(Signal::new(64).unwrap().number(), 64);
    assert!(Signal::new(65).is_none());
}

#[test]
fn signal_set_bit_of_each_signal() {
    assert_eq!(SignalSet::from_signal(signal(SIGHUP)).bits(), 1);
    assert_eq!(SignalSet::from_signal(signal(SIGINT)).bits(), 2);
    assert_eq!(SignalSet::from_signal(signal(SIGKILL)).bits(), 1 << 8);
    assert_eq!(SignalSet::from_signal(signal(64)).bits(), 1 << 63);
    let set = SignalSet::from_signal(signal(SIGINT)).union(SignalSet::from_signal(signal(SIGTERM)));
    assert!(set.contains_signal(signal(SIGTERM)));
    assert!(!set.contains_signal(signal(SIGHUP)));
    assert_eq!(set.difference(SignalSet::from_signal(signal(SIGINT))), SignalSet::from_signal(signal(SIGTERM)));
    assert!(SignalSet::empty().is_empty());
}

#[test]
fn signal_actions_default_and_ignore() {
    let mut process = process();
    assert_eq!(process.signal_action_of(signal(SIGINT)), SignalAction::Default);
    process.queue_signal(pending(SIGINT));
    assert_eq!(
        process.replace_signal_action(signal(SIGINT), SignalAction::Ignore),
        SignalAction::Default
    );
    assert_eq!(process.take_latest_signal(), None);
    assert_eq!(
        process.replace_signal_action(signal(SIGINT), SignalAction::Default),
        SignalAction::Ignore
    );
    assert_eq!(process.signal_action_of(signal(SIGINT)), SignalAction::Default);
}

#[test]
fn pending_signals_keep_order() {
    let mut process = process();
    assert!(process.masked_signals.is_empty());
    process.queue_signal(pending(SIGTERM));
    process.queue_signal(pending(SIGINT));
    assert_eq!(process.take_latest_signal(), Some(pending(SIGINT)));
    assert_eq!(process.take_latest_signal(), Some(pending(SIGTERM)));
    assert_eq!(process.take_latest_signal(), None);
}

#[test]
fn masked_signals_stay_pending() {
    let mut process = process();
    let main = process.main_thread_id;
    process.queue_signal(pending(SIGTERM));
    process.queue_signal(pending(SIGINT));
    process.set_thread_mask(main, SignalSet::from_signal(signal(SIGINT)));
    assert_eq!(process.masked_signals, SignalSet::from_signal(signal(SIGINT)));
    assert_eq!(process.take_latest_signal(), Some(pending(SIGTERM)));
    assert_eq!(process.take_latest_signal(), None);
    assert!(!process.has_pending_signal());
    process.set_thread_mask(main, SignalSet::empty());
    assert!(process.masked_signals.is_empty());
    assert!(process.has_pending_signal());
    assert_eq!(process.take_latest_signal(), Some(pending(SIGINT)));
}

#[test]
fn kill_and_stop_cannot_be_masked() {
    let mut process = process();
    let main = process.main_thread_id;
    let requested = SignalSet::from_signal(signal(SIGKILL))
        .union(SignalSet::from_signal(signal(SIGSTOP)))
        .union(SignalSet::from_signal(signal(SIGTERM)));
    process.set_thread_mask(main, requested);
    assert_eq!(process.masked_signals, SignalSet::from_signal(signal(SIGTERM)));
}

#[test]
fn filter_unmaskable() {
    let requested = SignalSet::from_signal(signal(SIGKILL))
        .union(SignalSet::from_signal(signal(SIGINT)))
        .union(SignalSet::from_signal(signal(SIGSTOP)));
    assert_eq!(filter_unmaskable_signals(requested), SignalSet::from_signal(signal(SIGINT)));
    assert_eq!(filter_unmaskable_signals(SignalSet(u64::MAX)).bits(), u64::MAX & !0x40100);
}

#[test]
fn thread_queue_is_consulted_before_the_process_queue() {
    let mut process = process();
    let other = ThreadId(71);
    process.queue_signal(pending(SIGTERM));
    process.queue_thread_signal(other, pending(SIGHUP));
    assert_eq!(process.take_pending_for(other), Some(pending(SIGHUP)));
    assert_eq!(process.take_pending_for(other), Some(pending(SIGTERM)));
    assert_eq!(process.take_pending_for(other), None);
}

#[test]
fn secondary_thread_masks_only_itself() {
    let mut process = process();
    let other = ThreadId(71);
    process.set_thread_mask(other, SignalSet::from_signal(signal(SIGTERM)));
    assert_eq!(process.effective_mask(other), SignalSet::from_signal(signal(SIGTERM)));
    assert!(process.effective_mask(process.main_thread_id).is_empty());
    process.queue_signal(pending(SIGTERM));
    assert!(!process.has_pending_for(other));
    assert!(process.has_pending_for(process.main_thread_id));
}

#[test]
fn take_matching_consumes_blocked_signals() {
    let mut process = process();
    let main = process.main_thread_id;
    process.set_thread_mask(main, SignalSet::from_signal(signal(SIGTERM)));
    process.queue_signal(pending(SIGTERM));
    process.queue_signal(pending(SIGCONT));
    assert_eq!(
        process.take_matching(main, SignalSet::from_signal(signal(SIGTERM))),
        Some(pending(SIGTERM))
    );
    assert_eq!(process.take_matching(main, SignalSet::from_signal(signal(SIGTERM))), None);
}
