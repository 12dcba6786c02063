//! POSIX timer objects: the per-owner registry, arming and disarming, and the catch-up that
//! fires due timers and counts the expirations coalesced into one delivery as overrun.
use vstd::prelude::*;

use crate::process::ids::ProcessId;
use crate::process::signal::Signal;
use crate::time::{max_nanos, Duration};

verus! {

/// Upper bound on the overrun coalesced into one delivered expiration per catch-up, so a
/// pathological interval cannot spin the tick handler.
pub const OVERRUN_LIMIT: u32 = 1_000_000;

/// The clock a timer measures against.
#[derive(Clone, Copy, Debug, PartialEq, Eq, Structural)]
pub enum TimerClock {
    Monotonic,
    Realtime,
}

/// The notification a timer raises on expiration.
#[derive(Clone, Copy, Debug, PartialEq, Eq)]
pub enum TimerNotify {
    /// No notification (`SIGEV_NONE`); a periodic timer is only re-armed.
    Silent,
    /// Queue this signal to the owning process with the timer's payload.
    Signal(Signal),
}

/// An opaque, per-process handle to a timer. Zero is never a valid id.
#[derive(Clone, Copy, Debug, PartialEq, Eq, Structural)]
pub struct TimerId(u32);

impl TimerId {
    pub closed spec fn value(self) -> u32 {
        self.0
    }

    #[verifier::type_invariant]
    closed spec fn inv(self) -> bool {
        self.0 != 0
    }

    pub fn new(value: u32) -> (id: Option<Self>)
        ensures
            id is Some <==> value != 0,
            id matches Some(id) ==> id.value() == value,
    {
        if value == 0 {
            None
        } else {
            Some(TimerId(value))
        }
    }

    /// A timer id is its value: two ids with the same value are the same id, so the id `new`
    /// builds from `t.as_u32()` is `t` itself.
    pub proof fn lemma_round_trip(a: TimerId, b: TimerId)
        ensures
            a.value() == b.value() ==> a == b,
    {
    }

    pub fn as_u32(self) -> (value: u32)
        ensures
            value == self.value(),
            value != 0,
    {
        proof {
            use_type_invariant(&self);
        }
        self.0
    }
}

#[derive(Clone, Copy, Debug, PartialEq, Eq, Structural)]
pub enum PosixTimerError {
    /// No timer with this id is owned by the requesting process.
    NoEntry,
}

/// Whether a timer is armed, and if so its next absolute deadline, its period (zero for a
/// one-shot timer) and the overrun it has accumulated.
#[derive(Clone, Copy, Debug)]
pub enum TimerState {
    Disarmed,
    Armed { next_deadline: Duration, interval: Duration, overrun: u32 },
}

/// A timer state in nanoseconds.
pub enum StateView {
    Disarmed,
    Armed { next_deadline: int, interval: int, overrun: u32 },
}

impl TimerState {
    pub open spec fn view(self) -> StateView {
        match self {
            TimerState::Disarmed => StateView::Disarmed,
            TimerState::Armed { next_deadline, interval, overrun } => StateView::Armed {
                next_deadline: next_deadline.total(),
                interval: interval.total(),
                overrun,
            },
        }
    }
}

/// A single timer: identity, owner, configuration, and arming state.
#[derive(Clone, Copy, Debug)]
pub struct Timer {
    pub id: u32,
    pub owner: ProcessId,
    pub clock: TimerClock,
    pub notify: TimerNotify,
    pub value: u64,
    pub state: TimerState,
}

/// `overrun` after `count` more coalesced expirations, capped at `OVERRUN_LIMIT`.
pub open spec fn bumped(overrun: u32, count: int) -> u32 {
    if count == 0 {
        overrun
    } else if overrun + count >= OVERRUN_LIMIT {
        OVERRUN_LIMIT
    } else {
        (overrun + count) as u32
    }
}

/// `n` capped at the longest span.
pub open spec fn saturated(n: int) -> int {
    if n <= max_nanos() {
        n
    } else {
        max_nanos()
    }
}

/// The state after catching an armed timer up to `now`. Nothing changes before the deadline. A
/// one-shot timer disarms. A periodic one moves to the first deadline after `now`, `k` periods
/// on, counting the `k - 1` skipped expirations as overrun; when more than `OVERRUN_LIMIT`
/// periods are due (or no deadline can lie after `now`), it stops counting at the limit and
/// resynchronises one period after `now`.
pub open spec fn advanced(state: StateView, now: int) -> StateView {
    match state {
        StateView::Disarmed => StateView::Disarmed,
        StateView::Armed { next_deadline, interval, overrun } => {
            if next_deadline > now {
                state
            } else if interval == 0 {
                StateView::Disarmed
            } else {
                let k = (now - next_deadline) / interval + 1;
                if k <= OVERRUN_LIMIT && now < max_nanos() {
                    StateView::Armed {
                        next_deadline: saturated(next_deadline + k * interval),
                        interval,
                        overrun: bumped(overrun, k - 1),
                    }
                } else {
                    StateView::Armed {
                        next_deadline: saturated(now + interval),
                        interval,
                        overrun: bumped(overrun, OVERRUN_LIMIT as int),
                    }
                }
            }
        },
    }
}

/// Whether timer `t` is armed with a deadline no later than `now`.
pub open spec fn is_due(t: Timer, now: int) -> bool {
    t.state@ matches StateView::Armed { next_deadline, .. } && next_deadline <= now
}

proof fn lemma_quotient(x: int, d: int, q: int)
    requires
        d > 0,
        0 <= x,
        q * d <= x < (q + 1) * d,
    ensures
        x / d == q,
{
    assert(x - q * d < d) by (nonlinear_arith)
        requires
            x < (q + 1) * d,
    ;
    vstd::arithmetic::div_mod::lemma_fundamental_div_mod_converse_div(x, d, q, x - q * d);
}

/// Advances an armed timer past `now`, counting coalesced expirations as overrun.
pub fn advance_armed(state: &mut TimerState, now: Duration)
    ensures
        final(state)@ == advanced(old(state)@, now.total()),
{
    let (deadline, interval, overrun) = match *state {
        TimerState::Armed { next_deadline, interval, overrun } => (next_deadline, interval, overrun),
        TimerState::Disarmed => return,
    };
    let ghost d = deadline.total();
    let ghost i = interval.total();
    let ghost n = now.total();
    now.known_in_range();
    deadline.known_in_range();
    interval.known_in_range();
    let mut next = deadline;
    let mut over = overrun;
    let mut steps: u64 = 0;
    let mut oneshot = false;
    while next.le(now)
        invariant_except_break
            steps <= OVERRUN_LIMIT,
            !oneshot,
            steps > 0 ==> i > 0,
            steps > 0 ==> saturated(d + (steps - 1) * i) <= n,
            next.total() == saturated(d + steps * i),
            over == bumped(overrun, if steps == 0 { 0 } else { steps - 1 }),
        invariant
            d == deadline.total(),
            i == interval.total(),
            n == now.total(),
            0 <= n <= max_nanos(),
            0 <= d <= max_nanos(),
            0 <= i <= max_nanos(),
        ensures
            oneshot ==> d <= n && i == 0,
            !oneshot ==> {
                ||| steps == 0 && next.total() == d && over == overrun && d > n
                ||| 0 < steps <= OVERRUN_LIMIT && i > 0 && saturated(d + (steps - 1) * i) <= n
                    && next.total() == saturated(d + steps * i) && next.total() > n && over
                    == bumped(overrun, steps - 1)
                ||| steps == OVERRUN_LIMIT + 1 && i > 0 && saturated(d + OVERRUN_LIMIT * i) <= n
                    && next.total() == saturated(n + i) && over == bumped(
                    overrun,
                    OVERRUN_LIMIT as int,
                )
            },
        decreases OVERRUN_LIMIT + 1 - steps,
    {
        let ghost done = steps as int;
        if steps > 0 {
            over = if over >= OVERRUN_LIMIT - 1 {
                OVERRUN_LIMIT
            } else {
                over + 1
            };
        }
        steps = steps + 1;
        proof {
            assert((steps - 1) * i == done * i);
        }
        if interval.is_zero() {
            oneshot = true;
            break;
        }
        if steps > OVERRUN_LIMIT as u64 {
            next = now.saturating_add(interval);
            break;
        }
        proof {
            assert(d + steps * i == d + done * i + i) by (nonlinear_arith)
                requires
                    steps == done + 1,
            ;
        }
        next = next.saturating_add(interval);
    }
    proof {
        if !oneshot && steps > 0 && steps <= OVERRUN_LIMIT {
            let x = n - d;
            let q = (steps - 1) as int;
            assert(q * i <= x);
            assert(x < (q + 1) * i) by (nonlinear_arith)
                requires
                    d + steps * i > n,
                    q == steps - 1,
                    x == n - d,
            ;
            lemma_quotient(x, i, q);
        }
        if !oneshot && steps == OVERRUN_LIMIT + 1 {
            let x = n - d;
            if x / i + 1 <= OVERRUN_LIMIT && n < max_nanos() {
                vstd::arithmetic::div_mod::lemma_fundamental_div_mod(x, i);
                assert(d + (x / i + 1) * i > n) by (nonlinear_arith)
                    requires
                        x == i * (x / i) + x % i,
                        x % i < i,
                        x == n - d,
                ;
                assert((x / i + 1) * i <= OVERRUN_LIMIT * i) by (nonlinear_arith)
                    requires
                        x / i + 1 <= OVERRUN_LIMIT,
                        i > 0,
                ;
                assert(false);
            }
        }
    }
    if oneshot {
        *state = TimerState::Disarmed;
    } else {
        *state = TimerState::Armed { next_deadline: next, interval, overrun: over };
    }
}

/// Whether `t` is the timer `id` of `owner`.
pub open spec fn owns(t: Timer, id: u32, owner: ProcessId) -> bool {
    t.id == id && t.owner == owner
}

/// The position of the first timer `id` of `owner` in `s`.
pub open spec fn first_match(s: Seq<Timer>, id: u32, owner: ProcessId) -> Option<int> {
    if exists|i: int|
        0 <= i < s.len() && owns(s[i], id, owner) && (forall|j: int|
            0 <= j < i ==> !owns(#[trigger] s[j], id, owner)) {
        Some(
            choose|i: int|
                0 <= i < s.len() && owns(s[i], id, owner) && (forall|j: int|
                    0 <= j < i ==> !owns(#[trigger] s[j], id, owner)),
        )
    } else {
        None
    }
}

/// What an expiring timer that notifies by signal asks to be sent.
#[derive(Clone, Copy, Debug)]
pub struct TimerExpiry {
    pub owner: ProcessId,
    pub signal: Signal,
    pub value: u64,
}

/// The expiries that firing the timers `s` at `now` raises, in table order.
pub open spec fn expiries(s: Seq<Timer>, now: int) -> Seq<TimerExpiry>
    decreases s.len(),
{
    if s.len() == 0 {
        Seq::empty()
    } else {
        let t = s.last();
        let rest = expiries(s.drop_last(), now);
        if is_due(t, now) && t.notify is Signal {
            rest.push(TimerExpiry { owner: t.owner, signal: t.notify->Signal_0, value: t.value })
        } else {
            rest
        }
    }
}

/// Whether some timer of `s` has id `value`, whatever its owner.
pub open spec fn id_in_use(s: Seq<Timer>, value: u32) -> bool {
    exists|i: int| 0 <= i < s.len() && s[i].id == value
}

/// Where the search for a free id starts: the upcoming id, or one in place of zero.
pub open spec fn start_id(upcoming: u32) -> u32 {
    if upcoming == 0 {
        1
    } else {
        upcoming
    }
}

/// The id after `value`, wrapping past zero.
pub open spec fn next_id_after(value: u32) -> u32 {
    if value == u32::MAX {
        1
    } else {
        (value + 1) as u32
    }
}

/// The id `k` steps after `start`, counting through the nonzero ids and wrapping past zero.
pub open spec fn id_after(start: u32, k: int) -> u32 {
    (((start - 1 + k) % (u32::MAX as int)) + 1) as u32
}

proof fn lemma_id_after_start(start: u32)
    requires
        1 <= start,
    ensures
        id_after(start, 0) == start,
{
    vstd::arithmetic::div_mod::lemma_small_mod((start - 1) as nat, u32::MAX as nat);
}

proof fn lemma_id_after_range(start: u32, k: int)
    requires
        1 <= start,
        0 <= k,
    ensures
        1 <= id_after(start, k),
{
    let m = u32::MAX as int;
    vstd::arithmetic::div_mod::lemma_mod_bound(start - 1 + k, m);
}

proof fn lemma_id_after_step(start: u32, k: int)
    requires
        1 <= start,
        0 <= k,
    ensures
        id_after(start, k + 1) == next_id_after(id_after(start, k)),
{
    let m = u32::MAX as int;
    let a = start - 1 + k;
    let x = a % m;
    vstd::arithmetic::div_mod::lemma_mod_bound(a, m);
    vstd::arithmetic::div_mod::lemma_add_mod_noop(a, 1, m);
    vstd::arithmetic::div_mod::lemma_small_mod(1, m as nat);
    assert((a + 1) % m == (x + 1) % m);
    if x + 1 < m {
        vstd::arithmetic::div_mod::lemma_small_mod((x + 1) as nat, m as nat);
    } else {
        vstd::arithmetic::div_mod::lemma_mod_self_0(m);
    }
}

proof fn lemma_id_after_hits(start: u32, v: u32) -> (k: int)
    requires
        1 <= start,
        v != 0,
    ensures
        0 <= k < u32::MAX,
        id_after(start, k) == v,
{
    let m = u32::MAX as int;
    let k = if v >= start {
        v - start
    } else {
        v - start + m
    };
    if v >= start {
        vstd::arithmetic::div_mod::lemma_small_mod((v - 1) as nat, m as nat);
    } else {
        vstd::arithmetic::div_mod::lemma_mod_add_multiples_vanish(v - 1, m);
        vstd::arithmetic::div_mod::lemma_small_mod((v - 1) as nat, m as nat);
    }
    k
}

/// The timers of all processes, each identified by a small integer and its owner.
pub struct PosixTimers {
    entries: Vec<Timer>,
    next_id: u32,
}

impl PosixTimers {
    /// The timers, in creation order up to deletions.
    pub closed spec fn timers(self) -> Seq<Timer> {
        self.entries@
    }

    /// The id the next created timer gets.
    pub closed spec fn upcoming_id(self) -> u32 {
        self.next_id
    }

    pub fn new() -> (timers: Self)
        ensures
            timers.timers() == Seq::<Timer>::empty(),
            timers.upcoming_id() == 1,
    {
        PosixTimers { entries: Vec::new(), next_id: 1 }
    }

    /// Whether some timer in the table has id `value`.
    fn id_in_use(&self, value: u32) -> (used: bool)
        ensures
            used == id_in_use(self.timers(), value),
    {
        let mut i: usize = 0;
        while i < self.entries.len()
            invariant
                0 <= i <= self.entries.len(),
                forall|j: int| 0 <= j < i ==> (#[trigger] self.entries@[j]).id != value,
            decreases self.entries.len() - i,
        {
            if self.entries[i].id == value {
                return true;
            }
            i = i + 1;
        }
        false
    }

    /// Adds a disarmed timer owned by `owner` and returns its id: the first id, counting up from
    /// the upcoming one and wrapping past zero, that no timer holds. Fails when every id is
    /// held, leaving the table as it is.
    pub fn create(&mut self, owner: ProcessId, clock: TimerClock, notify: TimerNotify, value: u64) -> (result:
        Result<TimerId, PosixTimerError>)
        ensures
            (result is Err) == (forall|v: u32| v != 0 ==> #[trigger] id_in_use(old(self).timers(), v)),
            result is Err ==> result == Err::<TimerId, PosixTimerError>(PosixTimerError::NoEntry)
                && final(self).timers() == old(self).timers() && final(self).upcoming_id()
                == old(self).upcoming_id(),
            result matches Ok(id) ==> {
                &&& !id_in_use(old(self).timers(), id.value())
                &&& exists|k: int|
                    0 <= k < u32::MAX && id.value() == id_after(start_id(old(self).upcoming_id()), k)
                        && forall|j: int|
                        0 <= j < k ==> id_in_use(
                            old(self).timers(),
                            #[trigger] id_after(start_id(old(self).upcoming_id()), j),
                        )
                &&& final(self).timers() == old(self).timers().push(
                    Timer { id: id.value(), owner, clock, notify, value, state: TimerState::Disarmed },
                )
                &&& final(self).upcoming_id() == next_id_after(id.value())
            },
    {
        let start: u32 = if self.next_id == 0 {
            1
        } else {
            self.next_id
        };
        let ghost s = start;
        let mut candidate: u32 = start;
        let mut tried: u32 = 0;
        proof {
            lemma_id_after_start(s);
        }
        while tried < u32::MAX
            invariant
                s == start_id(self.next_id),
                self.entries@ == old(self).entries@,
                self.next_id == old(self).next_id,
                1 <= s,
                candidate == id_after(s, tried as int),
                forall|j: int| 0 <= j < tried ==> id_in_use(self.timers(), #[trigger] id_after(s, j)),
            decreases u32::MAX - tried,
        {
            if !self.id_in_use(candidate) {
                self.next_id = if candidate == u32::MAX {
                    1
                } else {
                    candidate + 1
                };
                self.entries.push(
                    Timer { id: candidate, owner, clock, notify, value, state: TimerState::Disarmed },
                );
                proof {
                    lemma_id_after_range(s, tried as int);
                    assert(!id_in_use(old(self).timers(), candidate));
                    assert(s == start_id(old(self).upcoming_id()));
                    assert(self.upcoming_id() == next_id_after(candidate));
                    assert(0 <= tried < u32::MAX && candidate == id_after(s, tried as int) && forall|j: int|
                        0 <= j < tried ==> id_in_use(old(self).timers(), #[trigger] id_after(s, j)));
                    assert(self.timers() == old(self).timers().push(
                        Timer { id: candidate, owner, clock, notify, value, state: TimerState::Disarmed },
                    ));
                }
                return match TimerId::new(candidate) {
                    Some(id) => Ok(id),
                    None => Err(PosixTimerError::NoEntry),
                };
            }
            proof {
                lemma_id_after_step(s, tried as int);
            }
            candidate = if candidate == u32::MAX {
                1
            } else {
                candidate + 1
            };
            tried = tried + 1;
        }
        proof {
            assert forall|v: u32| v != 0 implies #[trigger] id_in_use(old(self).timers(), v) by {
                let j = lemma_id_after_hits(s, v);
                assert(id_in_use(self.timers(), id_after(s, j)));
            }
        }
        Err(PosixTimerError::NoEntry)
    }

    /// The position of timer `id` of `owner`.
    fn position(&self, id: TimerId, owner: ProcessId) -> (index: Option<usize>)
        ensures
            match index {
                Some(k) => k < self.timers().len() && first_match(self.timers(), id.value(), owner)
                    == Some(k as int),
                None => first_match(self.timers(), id.value(), owner) is None,
            },
    {
        let wanted = id.as_u32();
        let mut i: usize = 0;
        while i < self.entries.len()
            invariant
                0 <= i <= self.entries.len(),
                wanted == id.value(),
                forall|j: int| 0 <= j < i ==> !owns(#[trigger] self.entries@[j], wanted, owner),
            decreases self.entries.len() - i,
        {
            let timer = &self.entries[i];
            if timer.id == wanted && timer.owner == owner {
                proof {
                    let s = self.timers();
                    assert(0 <= i < s.len() && owns(s[i as int], wanted, owner) && (forall|j: int|
                        0 <= j < i ==> !owns(#[trigger] s[j], wanted, owner)));
                    let c = first_match(s, wanted, owner)->Some_0;
                    assert(c == i) by {
                        if c < i {
                            assert(!owns(s[c], wanted, owner));
                        }
                        if c > i {
                            assert(!owns(s[i as int], wanted, owner));
                        }
                    }
                }
                return Some(i);
            }
            i = i + 1;
        }
        None
    }

    /// Arms timer `id` of `owner` with an absolute deadline and a period (zero for a one-shot
    /// timer), resetting its overrun.
    pub fn arm(&mut self, id: TimerId, owner: ProcessId, deadline: Duration, interval: Duration) -> (result:
        Result<(), PosixTimerError>)
        ensures
            final(self).upcoming_id() == old(self).upcoming_id(),
            match first_match(old(self).timers(), id.value(), owner) {
                Some(i) => result == Ok::<(), PosixTimerError>(()) && final(self).timers()
                    == old(self).timers().update(
                    i,
                    Timer {
                        state: TimerState::Armed { next_deadline: deadline, interval, overrun: 0 },
                        ..old(self).timers()[i]
                    },
                ),
                None => result == Err::<(), PosixTimerError>(PosixTimerError::NoEntry)
                    && final(self).timers() == old(self).timers(),
            },
    {
        match self.position(id, owner) {
            Some(index) => {
                let mut timer = self.entries[index];
                timer.state = TimerState::Armed { next_deadline: deadline, interval, overrun: 0 };
                self.entries.set(index, timer);
                Ok(())
            },
            None => Err(PosixTimerError::NoEntry),
        }
    }

    /// Disarms timer `id` of `owner`, clearing its overrun and keeping it in the table.
    pub fn disarm(&mut self, id: TimerId, owner: ProcessId) -> (result: Result<(), PosixTimerError>)
        ensures
            final(self).upcoming_id() == old(self).upcoming_id(),
            match first_match(old(self).timers(), id.value(), owner) {
                Some(i) => result == Ok::<(), PosixTimerError>(()) && final(self).timers()
                    == old(self).timers().update(
                    i,
                    Timer { state: TimerState::Disarmed, ..old(self).timers()[i] },
                ),
                None => result == Err::<(), PosixTimerError>(PosixTimerError::NoEntry)
                    && final(self).timers() == old(self).timers(),
            },
    {
        match self.position(id, owner) {
            Some(index) => {
                let mut timer = self.entries[index];
                timer.state = TimerState::Disarmed;
                self.entries.set(index, timer);
                Ok(())
            },
            None => Err(PosixTimerError::NoEntry),
        }
    }

    /// The period of timer `id` of `owner` and the time left until its next expiration at `now`;
    /// both zero when it is disarmed.
    pub fn current(&self, id: TimerId, owner: ProcessId, now: Duration) -> (result: Result<
        (Duration, Duration),
        PosixTimerError,
    >)
        ensures
            match first_match(self.timers(), id.value(), owner) {
                Some(i) => result matches Ok((interval, remaining)) && match self.timers()[i].state@ {
                    StateView::Disarmed => interval.total() == 0 && remaining.total() == 0,
                    StateView::Armed { next_deadline, interval: period, .. } => interval.total()
                        == period && remaining.total() == if next_deadline >= now.total() {
                        next_deadline - now.total()
                    } else {
                        0
                    },
                },
                None => result matches Err(e) && e == PosixTimerError::NoEntry,
            },
    {
        match self.position(id, owner) {
            Some(index) => {
                match self.entries[index].state {
                    TimerState::Disarmed => Ok((Duration::zero(), Duration::zero())),
                    TimerState::Armed { next_deadline, interval, .. } => Ok(
                        (interval, next_deadline.saturating_sub(now)),
                    ),
                }
            },
            None => Err(PosixTimerError::NoEntry),
        }
    }

    /// The clock timer `id` of `owner` was created against.
    pub fn clock(&self, id: TimerId, owner: ProcessId) -> (result: Result<TimerClock, PosixTimerError>)
        ensures
            match first_match(self.timers(), id.value(), owner) {
                Some(i) => result == Ok::<TimerClock, PosixTimerError>(self.timers()[i].clock),
                None => result == Err::<TimerClock, PosixTimerError>(PosixTimerError::NoEntry),
            },
    {
        match self.position(id, owner) {
            Some(index) => Ok(self.entries[index].clock),
            None => Err(PosixTimerError::NoEntry),
        }
    }

    /// The overrun accumulated by timer `id` of `owner`; zero when it is disarmed.
    pub fn overrun(&self, id: TimerId, owner: ProcessId) -> (result: Result<u32, PosixTimerError>)
        ensures
            match first_match(self.timers(), id.value(), owner) {
                Some(i) => result == Ok::<u32, PosixTimerError>(
                    match self.timers()[i].state {
                        TimerState::Armed { overrun, .. } => overrun,
                        TimerState::Disarmed => 0,
                    },
                ),
                None => result == Err::<u32, PosixTimerError>(PosixTimerError::NoEntry),
            },
    {
        match self.position(id, owner) {
            Some(index) => match self.entries[index].state {
                TimerState::Armed { overrun, .. } => Ok(overrun),
                TimerState::Disarmed => Ok(0),
            },
            None => Err(PosixTimerError::NoEntry),
        }
    }

    /// Removes timer `id` of `owner`; the last timer takes its place.
    pub fn delete(&mut self, id: TimerId, owner: ProcessId) -> (result: Result<(), PosixTimerError>)
        ensures
            final(self).upcoming_id() == old(self).upcoming_id(),
            match first_match(old(self).timers(), id.value(), owner) {
                Some(i) => result == Ok::<(), PosixTimerError>(()) && final(self).timers()
                    == old(self).timers().update(i, old(self).timers().last()).drop_last(),
                None => result == Err::<(), PosixTimerError>(PosixTimerError::NoEntry)
                    && final(self).timers() == old(self).timers(),
            },
    {
        match self.position(id, owner) {
            Some(index) => {
                self.entries.swap_remove(index);
                Ok(())
            },
            None => Err(PosixTimerError::NoEntry),
        }
    }

    /// Fires every armed timer whose deadline has passed at `now`: each is caught up to its next
    /// period (a one-shot timer is disarmed, not removed), and the signals the fired timers
    /// notify by are returned in table order, for the caller to send to their owners.
    pub fn fire_due(&mut self, now: Duration) -> (sent: Vec<TimerExpiry>)
        ensures
            final(self).upcoming_id() == old(self).upcoming_id(),
            final(self).timers().len() == old(self).timers().len(),
            forall|i: int|
                0 <= i < old(self).timers().len() ==> {
                    let before = #[trigger] old(self).timers()[i];
                    let after = final(self).timers()[i];
                    if is_due(before, now.total()) {
                        after == Timer { state: after.state, ..before } && after.state@ == advanced(
                            before.state@,
                            now.total(),
                        )
                    } else {
                        after == before
                    }
                },
            sent@ == expiries(old(self).timers(), now.total()),
    {
        let ghost start = self.entries@;
        let mut sent: Vec<TimerExpiry> = Vec::new();
        let mut index: usize = 0;
        proof {
            assert(start.take(0) =~= Seq::<Timer>::empty());
        }
        while index < self.entries.len()
            invariant
                self.entries@.len() == start.len(),
                0 <= index <= start.len(),
                self.next_id == old(self).next_id,
                start == old(self).entries@,
                forall|i: int| index <= i < start.len() ==> self.entries@[i] == start[i],
                forall|i: int|
                    0 <= i < index ==> {
                        let before = #[trigger] start[i];
                        let after = self.entries@[i];
                        if is_due(before, now.total()) {
                            after == Timer { state: after.state, ..before } && after.state@
                                == advanced(before.state@, now.total())
                        } else {
                            after == before
                        }
                    },
                sent@ == expiries(start.take(index as int), now.total()),
            decreases start.len() - index,
        {
            let mut timer = self.entries[index];
            let due = match timer.state {
                TimerState::Armed { next_deadline, .. } => next_deadline.le(now),
                TimerState::Disarmed => false,
            };
            proof {
                assert(start.take(index + 1).drop_last() =~= start.take(index as int));
            }
            if due {
                advance_armed(&mut timer.state, now);
                self.entries.set(index, timer);
                match timer.notify {
                    TimerNotify::Signal(signal) => {
                        sent.push(TimerExpiry { owner: timer.owner, signal, value: timer.value });
                    },
                    TimerNotify::Silent => {},
                }
            }
            index = index + 1;
        }
        proof {
            assert(start.take(index as int) =~= start);
        }
        sent
    }
}

/// A caught-up periodic timer is due strictly after `now`, unless `now` is the end of time.
pub proof fn lemma_advanced_is_ahead(state: StateView, now: int)
    requires
        state matches StateView::Armed { next_deadline, interval, .. } && 0 <= next_deadline <= now
            && 0 < interval,
        0 <= now < max_nanos(),
    ensures
        advanced(state, now) matches StateView::Armed { next_deadline, .. } && next_deadline > now,
{
    if let StateView::Armed { next_deadline, interval, .. } = state {
        let x = now - next_deadline;
        let k = x / interval + 1;
        vstd::arithmetic::div_mod::lemma_fundamental_div_mod(x, interval);
        assert(next_deadline + k * interval > now) by (nonlinear_arith)
            requires
                x == interval * (x / interval) + x % interval,
                x % interval < interval,
                x == now - next_deadline,
                k == x / interval + 1,
        ;
    }
}

/// Catching up never takes the overrun past `OVERRUN_LIMIT` once it is within it.
pub proof fn lemma_advanced_overrun_bounded(state: StateView, now: int)
    requires
        state matches StateView::Armed { overrun, interval, .. } && overrun <= OVERRUN_LIMIT
            && interval >= 0,
    ensures
        advanced(state, now) matches StateView::Armed { overrun, .. } ==> overrun <= OVERRUN_LIMIT,
{
    if let StateView::Armed { next_deadline, interval, .. } = state {
        if next_deadline <= now && interval > 0 {
            vstd::arithmetic::div_mod::lemma_div_pos_is_pos(now - next_deadline, interval);
        }
    }
}

} // verus!
