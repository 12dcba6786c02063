use roxy_kernel::process::ids::ProcessId;
use roxy_kernel::process::signal::Signal;
use roxy_kernel::time::Duration;
use roxy_kernel::timer::{PosixTimerError, PosixTimers, TimerClock, TimerId, TimerNotify, OVERRUN_LIMIT};

fn owner() -> ProcessId {
    ProcessId::new(7).unwrap()
}

fn other() -> ProcessId {
    ProcessId::new(9).unwrap()
}

fn none() -> TimerNotify {
    TimerNotify::Silent
}

fn ms(millis: u64) -> Duration {
    Duration::from_millis(millis)
}

fn new_timer() -> (PosixTimers, TimerId) {
    let mut timers = PosixTimers::new();
    let id = timers.create(owner(), TimerClock::Monotonic, none(), 0).unwrap();
    (timers, id)
}

#[test]
fn create_assigns_ids() {
    let mut timers = PosixTimers::new();
    let a = timers.create(owner(), TimerClock::Monotonic, none(), 0).unwrap();
    let b = timers.create(owner(), TimerClock::Realtime, none(), 0).unwrap();
    assert_ne!(a, b);
    assert_eq!(a.as_u32(), 1);
    assert_eq!(b.as_u32(), 2);
    assert_eq!(timers.clock(a, owner()), Ok(TimerClock::Monotonic));
    assert_eq!(timers.clock(b, owner()), Ok(TimerClock::Realtime));
}

#[test]
fn periodic_fire_advances() {
    let (mut timers, id) = new_timer();
    timers.arm(id, owner(), ms(10), ms(10)).unwrap();

    timers.fire_due(ms(9));
    assert_eq!(timers.current(id, owner(), ms(9)).unwrap(), (ms(10), ms(1)));

    timers.fire_due(ms(10));
    assert_eq!(timers.overrun(id, owner()), Ok(0));
    assert_eq!(timers.current(id, owner(), ms(10)).unwrap(), (ms(10), ms(10)));
}

#[test]
fn tiny_interval_overrun() {
    let (mut timers, id) = new_timer();
    timers.arm(id, owner(), ms(1), ms(1)).unwrap();

    timers.fire_due(ms(9));
    assert!(timers.overrun(id, owner()).unwrap() > 0);
    assert!(!timers.current(id, owner(), ms(9)).unwrap().1.is_zero());
}

#[test]
fn tiny_interval_overrun_counts_missed_periods() {
    let (mut timers, id) = new_timer();
    timers.arm(id, owner(), ms(1), ms(1)).unwrap();
    // Deadlines 1..=9 ms have passed: one delivery, eight coalesced; next deadline 10 ms.
    timers.fire_due(ms(9));
    assert_eq!(timers.overrun(id, owner()), Ok(8));
    assert_eq!(timers.current(id, owner(), ms(9)).unwrap(), (ms(1), ms(1)));
}

#[test]
fn oneshot_disarms() {
    let (mut timers, id) = new_timer();
    timers.arm(id, owner(), ms(5), Duration::zero()).unwrap();

    timers.fire_due(ms(5));
    let (_, remaining) = timers.current(id, owner(), ms(100)).unwrap();
    assert_eq!(remaining, Duration::zero());
    timers.fire_due(ms(100));
    assert_eq!(timers.overrun(id, owner()), Ok(0));
}

#[test]
fn delete_removes() {
    let (mut timers, id) = new_timer();
    assert_eq!(timers.delete(id, owner()), Ok(()));
    assert_eq!(timers.current(id, owner(), Duration::zero()), Err(PosixTimerError::NoEntry));
}

#[test]
fn owner_scoping() {
    let (mut timers, id) = new_timer();
    let other = other();
    assert_eq!(timers.arm(id, other, ms(1), Duration::zero()), Err(PosixTimerError::NoEntry));
    assert_eq!(timers.current(id, other, Duration::zero()), Err(PosixTimerError::NoEntry));
    assert_eq!(timers.delete(id, other), Err(PosixTimerError::NoEntry));
    assert_eq!(timers.delete(id, owner()), Ok(()));
}

#[test]
fn due_signal_timers_report_their_expiry() {
    let mut timers = PosixTimers::new();
    let alarm = Signal::new(14).unwrap();
    let id = timers.create(owner(), TimerClock::Realtime, TimerNotify::Signal(alarm), 42).unwrap();
    let quiet = timers.create(other(), TimerClock::Monotonic, none(), 5).unwrap();
    timers.arm(id, owner(), ms(3), Duration::zero()).unwrap();
    timers.arm(quiet, other(), ms(3), Duration::zero()).unwrap();

    assert!(timers.fire_due(ms(2)).is_empty());
    let sent = timers.fire_due(ms(3));
    assert_eq!(sent.len(), 1);
    assert_eq!(sent[0].owner, owner());
    assert_eq!(sent[0].signal, alarm);
    assert_eq!(sent[0].value, 42);
    assert!(timers.fire_due(ms(4)).is_empty());
}

#[test]
fn disarm_clears_remaining_time() {
    let (mut timers, id) = new_timer();
    timers.arm(id, owner(), ms(50), ms(20)).unwrap();
    assert_eq!(timers.current(id, owner(), ms(10)).unwrap(), (ms(20), ms(40)));
    assert_eq!(timers.disarm(id, owner()), Ok(()));
    assert_eq!(timers.current(id, owner(), ms(10)).unwrap(), (Duration::zero(), Duration::zero()));
    assert_eq!(timers.disarm(id, other()), Err(PosixTimerError::NoEntry));
}

#[test]
fn overrun_is_capped() {
    let (mut timers, id) = new_timer();
    let one_ns = Duration::from_parts(0, 1).unwrap();
    timers.arm(id, owner(), one_ns, one_ns).unwrap();
    timers.fire_due(Duration::from_parts(1, 0).unwrap());
    assert_eq!(timers.overrun(id, owner()), Ok(OVERRUN_LIMIT));
}

#[test]
fn timer_ids_are_never_zero() {
    assert!(TimerId::new(0).is_none());
    assert_eq!(TimerId::new(3).unwrap().as_u32(), 3);
}

#[test]
fn duration_arithmetic_saturates() {
    assert_eq!(ms(1500).as_secs(), 1);
    assert_eq!(ms(1500).subsec_nanos(), 500_000_000);
    assert!(Duration::from_parts(0, 1_000_000_000).is_none());
    assert_eq!(ms(300).saturating_sub(ms(500)), Duration::zero());
    assert_eq!(ms(800).saturating_add(ms(400)), ms(1200));
    assert_eq!(Duration::max().saturating_add(ms(1)), Duration::max());
    assert!(ms(3).le(ms(3)));
    assert!(!ms(4).le(ms(3)));
    assert!(Duration::zero().is_zero());
    assert_eq!(ms(1500).as_nanos(), Some(1_500_000_000));
    assert_eq!(Duration::from_parts(18_446_744_073, 709_551_615).unwrap().as_nanos(), Some(u64::MAX));
    assert_eq!(Duration::from_parts(18_446_744_073, 709_551_616).unwrap().as_nanos(), None);
    assert_eq!(Duration::max().as_nanos(), None);
}

#[test]
fn ids_keep_counting_past_deleted_timers() {
    let mut timers = PosixTimers::new();
    let a = timers.create(owner(), TimerClock::Monotonic, none(), 0).unwrap();
    let b = timers.create(other(), TimerClock::Monotonic, none(), 0).unwrap();
    timers.delete(a, owner()).unwrap();
    let c = timers.create(owner(), TimerClock::Monotonic, none(), 0).unwrap();
    assert_eq!((a.as_u32(), b.as_u32(), c.as_u32()), (1, 2, 3));
    assert_eq!(TimerId::new(c.as_u32()), Some(c));
    assert_eq!(TimerId::new(0), None);
}
