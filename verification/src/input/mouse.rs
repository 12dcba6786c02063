//! Mouse events and the `/dev/mouse` device state: one record per hardware sample, queued in a
//! bounded queue that drops its oldest record when full, and served as 24-byte records.
use vstd::prelude::*;

use heapless::Deque;
use vstd::bytes::{spec_u32_to_le_bytes, spec_u64_to_le_bytes};

use crate::device::FileError;
use crate::encoding::{push_u32_le, push_u64_le};

verus! {

/// File id of `/dev/mouse` within the device file system.
pub const MOUSE_FILE_ID: u64 = 5;

/// Samples queued before the oldest is dropped.
pub const EVENT_QUEUE_CAPACITY: usize = 256;

/// Left button bit in a record's `buttons`.
pub const BUTTON_LEFT: u32 = 1;

/// Right button bit in a record's `buttons`.
pub const BUTTON_RIGHT: u32 = 2;

/// Middle button bit in a record's `buttons`.
pub const BUTTON_MIDDLE: u32 = 4;

/// Size of one record as userspace reads it.
pub const RECORD_SIZE: usize = 24;

/// A physical mouse button.
#[derive(Clone, Copy, Debug, PartialEq, Eq, Structural)]
pub enum MouseButton {
    Left,
    Right,
    Middle,
}

/// A semantic mouse input event; one hardware sample may produce several.
#[derive(Clone, Copy, Debug, PartialEq, Eq, Structural)]
pub enum MouseEvent {
    /// Relative motion: `right` positive to the right, `down` positive downward.
    Move { right: i32, down: i32 },
    /// Wheel steps, positive upward.
    Scroll { up: i32 },
    ButtonPressed(MouseButton),
    ButtonReleased(MouseButton),
}

/// Receives the events of each hardware sample, in the producer's (interrupt) context.
pub trait MouseListener {
    /// Called once per hardware sample.
    fn on_receive_input(&self, events: &[MouseEvent]);
}

/// The items of `items` whose flag in `alive` is set, in their order.
pub open spec fn live_filter<T>(items: Seq<T>, alive: Seq<bool>) -> Seq<T>
    decreases items.len(),
{
    if items.len() == 0 || alive.len() == 0 {
        Seq::empty()
    } else {
        let rest = live_filter(items.drop_last(), alive.drop_last());
        if alive.last() {
            rest.push(items.last())
        } else {
            rest
        }
    }
}

/// The positions `0, 1, ..` of `n` registered items.
pub open spec fn positions(n: nat) -> Seq<usize> {
    Seq::new(n, |i: int| i as usize)
}

/// The positions of the listeners still alive, in registration order: the order in which a
/// sample is handed to them.
pub fn live_positions(alive: &[bool]) -> (order: Vec<usize>)
    ensures
        order@ == live_filter(positions(alive@.len()), alive@),
{
    let mut order: Vec<usize> = Vec::new();
    let mut i: usize = 0;
    proof {
        assert(positions(alive@.len()).take(0) =~= Seq::<usize>::empty());
    }
    while i < alive.len()
        invariant
            i <= alive@.len(),
            order@ == live_filter(positions(alive@.len()).take(i as int), alive@.take(i as int)),
        decreases alive@.len() - i,
    {
        proof {
            let all = positions(alive@.len());
            assert(all.take(i + 1).drop_last() =~= all.take(i as int));
            assert(alive@.take(i + 1).drop_last() =~= alive@.take(i as int));
        }
        if alive[i] {
            order.push(i);
        }
        i = i + 1;
    }
    proof {
        assert(positions(alive@.len()).take(i as int) =~= positions(alive@.len()));
        assert(alive@.take(i as int) =~= alive@);
    }
    order
}

/// The registrations still alive, in registration order; the others are forgotten.
pub fn prune_listeners<T>(listeners: Vec<T>, alive: &[bool]) -> (kept: Vec<T>)
    requires
        alive@.len() == listeners@.len(),
    ensures
        kept@ == live_filter(listeners@, alive@),
{
    let ghost all = listeners@;
    let mut rest = listeners;
    let mut kept: Vec<T> = Vec::new();
    let mut i: usize = 0;
    proof {
        assert(all.take(0) =~= Seq::<T>::empty());
        assert(all.skip(0) =~= all);
    }
    while i < alive.len()
        invariant
            i <= alive@.len(),
            alive@.len() == all.len(),
            rest@ == all.skip(i as int),
            kept@ == live_filter(all.take(i as int), alive@.take(i as int)),
        decreases alive@.len() - i,
    {
        proof {
            assert(all.take(i + 1).drop_last() =~= all.take(i as int));
            assert(alive@.take(i + 1).drop_last() =~= alive@.take(i as int));
            assert(all.skip(i as int)[0] == all[i as int]);
            assert(all.skip(i as int).remove(0) =~= all.skip(i + 1));
        }
        let item = rest.remove(0);
        if alive[i] {
            kept.push(item);
        }
        i = i + 1;
    }
    proof {
        assert(all.take(i as int) =~= all);
        assert(alive@.take(i as int) =~= alive@);
    }
    kept
}

/// One hardware sample as served to userspace: a realtime timestamp in nanoseconds, relative
/// motion, the wheel steps of the sample, and the button state after it.
#[derive(Clone, Copy, Debug, PartialEq, Eq, Structural)]
pub struct RoxyMouseEvent {
    pub timestamp_ns: u64,
    pub dx: i32,
    pub dy: i32,
    pub wheel: i32,
    pub buttons: u32,
}

/// The bit of `button` in a record's `buttons`.
pub open spec fn button_mask(button: MouseButton) -> u32 {
    match button {
        MouseButton::Left => BUTTON_LEFT,
        MouseButton::Right => BUTTON_RIGHT,
        MouseButton::Middle => BUTTON_MIDDLE,
    }
}

/// Maps a button to its bit in a record's `buttons`.
pub fn button_bit(button: MouseButton) -> (bit: u32)
    ensures
        bit == button_mask(button),
{
    match button {
        MouseButton::Left => BUTTON_LEFT,
        MouseButton::Right => BUTTON_RIGHT,
        MouseButton::Middle => BUTTON_MIDDLE,
    }
}

/// `n` clamped to the range of `i32`.
pub open spec fn clamp_i32(n: int) -> i32 {
    if n > i32::MAX {
        i32::MAX
    } else if n < i32::MIN {
        i32::MIN
    } else {
        n as i32
    }
}

fn saturating_add_i32(a: i32, b: i32) -> (sum: i32)
    ensures
        sum == clamp_i32(a + b),
{
    let wide = a as i64 + b as i64;
    if wide > i32::MAX as i64 {
        i32::MAX
    } else if wide < i32::MIN as i64 {
        i32::MIN
    } else {
        wide as i32
    }
}

/// What a sample adds up to: its motion, its wheel steps, and the button state after it.
#[derive(Clone, Copy, Debug, PartialEq, Eq, Structural)]
pub struct SampleTotals {
    pub dx: i32,
    pub dy: i32,
    pub wheel: i32,
    pub buttons: u32,
}

/// The totals of `events` starting from button state `buttons`: motion and wheel steps add up,
/// saturating, wheel steps counting only with a wheel; a press sets its button's bit and a
/// release clears it.
pub open spec fn fold_events(events: Seq<MouseEvent>, wheel_supported: bool, buttons: u32) -> SampleTotals
    decreases events.len(),
{
    if events.len() == 0 {
        SampleTotals { dx: 0, dy: 0, wheel: 0, buttons }
    } else {
        let t = fold_events(events.drop_last(), wheel_supported, buttons);
        match events.last() {
            MouseEvent::Move { right, down } => SampleTotals {
                dx: clamp_i32(t.dx + right),
                dy: clamp_i32(t.dy + down),
                ..t
            },
            MouseEvent::Scroll { up } => if wheel_supported {
                SampleTotals { wheel: clamp_i32(t.wheel + up), ..t }
            } else {
                t
            },
            MouseEvent::ButtonPressed(b) => SampleTotals { buttons: t.buttons | button_mask(b), ..t },
            MouseEvent::ButtonReleased(b) => SampleTotals {
                buttons: t.buttons & !button_mask(b),
                ..t
            },
        }
    }
}

/// Folds the events of one sample into its totals.
pub fn fold_sample(events: &[MouseEvent], wheel_supported: bool, buttons: u32) -> (totals: SampleTotals)
    ensures
        totals == fold_events(events@, wheel_supported, buttons),
{
    let mut totals = SampleTotals { dx: 0, dy: 0, wheel: 0, buttons };
    let mut i: usize = 0;
    proof {
        assert(events@.take(0) =~= Seq::<MouseEvent>::empty());
    }
    while i < events.len()
        invariant
            0 <= i <= events@.len(),
            totals == fold_events(events@.take(i as int), wheel_supported, buttons),
        decreases events@.len() - i,
    {
        proof {
            assert(events@.take(i + 1).drop_last() =~= events@.take(i as int));
        }
        match events[i] {
            MouseEvent::Move { right, down } => {
                totals.dx = saturating_add_i32(totals.dx, right);
                totals.dy = saturating_add_i32(totals.dy, down);
            },
            MouseEvent::Scroll { up } => {
                if wheel_supported {
                    totals.wheel = saturating_add_i32(totals.wheel, up);
                }
            },
            MouseEvent::ButtonPressed(button) => {
                totals.buttons = totals.buttons | button_bit(button);
            },
            MouseEvent::ButtonReleased(button) => {
                totals.buttons = totals.buttons & !button_bit(button);
            },
        }
        i = i + 1;
    }
    proof {
        assert(events@.take(i as int) =~= events@);
    }
    totals
}

/// The 24 bytes of a record: the timestamp, the motion, the wheel steps and the buttons, each
/// little-endian.
pub open spec fn record_bytes(r: RoxyMouseEvent) -> Seq<u8> {
    spec_u64_to_le_bytes(r.timestamp_ns) + spec_u32_to_le_bytes(r.dx as u32) + spec_u32_to_le_bytes(
        r.dy as u32,
    ) + spec_u32_to_le_bytes(r.wheel as u32) + spec_u32_to_le_bytes(r.buttons)
}

/// The records `s`, one after another.
pub open spec fn records_bytes(s: Seq<RoxyMouseEvent>) -> Seq<u8>
    decreases s.len(),
{
    if s.len() == 0 {
        Seq::empty()
    } else {
        records_bytes(s.drop_last()) + record_bytes(s.last())
    }
}

/// Appends the bytes of `record`.
pub fn push_record(out: &mut Vec<u8>, record: &RoxyMouseEvent)
    ensures
        final(out)@ == old(out)@ + record_bytes(*record),
        record_bytes(*record).len() == RECORD_SIZE,
{
    let ghost start = out@;
    proof {
        vstd::bytes::lemma_auto_spec_u64_to_from_le_bytes();
        vstd::bytes::lemma_auto_spec_u32_to_from_le_bytes();
    }
    push_u64_le(out, record.timestamp_ns);
    push_u32_le(out, record.dx as u32);
    push_u32_le(out, record.dy as u32);
    push_u32_le(out, record.wheel as u32);
    push_u32_le(out, record.buttons);
    proof {
        assert(out@ =~= start + record_bytes(*record));
    }
}

#[verifier::external_type_specification]
#[verifier::external_body]
#[verifier::reject_recursive_types(T)]
pub struct ExDeque<T, const N: usize>(Deque<T, N>);

/// The records in a mouse record queue, front first.
pub uninterp spec fn queued_records(queue: Deque<RoxyMouseEvent, 256>) -> Seq<RoxyMouseEvent>;

/// `Deque::new`: a record queue holding no record.
#[verifier::external_body]
fn records_new() -> (queue: Deque<RoxyMouseEvent, 256>)
    ensures
        queued_records(queue) == Seq::<RoxyMouseEvent>::empty(),
{
    Deque::new()
}

/// `Deque::is_full`: whether the record queue holds 256 records.
#[verifier::external_body]
fn records_is_full(queue: &Deque<RoxyMouseEvent, 256>) -> (full: bool)
    ensures
        full == (queued_records(*queue).len() == 256),
{
    queue.is_full()
}

/// `Deque::is_empty`: whether the record queue holds no record.
#[verifier::external_body]
fn records_is_empty(queue: &Deque<RoxyMouseEvent, 256>) -> (empty: bool)
    ensures
        empty == (queued_records(*queue).len() == 0),
{
    queue.is_empty()
}

/// `Deque::pop_front`: removes and returns the front record; `None`, leaving the queue as it
/// is, when it holds none.
#[verifier::external_body]
fn records_pop_front(queue: &mut Deque<RoxyMouseEvent, 256>) -> (front: Option<RoxyMouseEvent>)
    ensures
        queued_records(*old(queue)).len() == 0 ==> front is None && queued_records(*final(queue))
            == queued_records(*old(queue)),
        queued_records(*old(queue)).len() > 0 ==> front == Some(queued_records(*old(queue))[0])
            && queued_records(*final(queue)) == queued_records(*old(queue)).drop_first(),
{
    queue.pop_front()
}

/// `Deque::push_back`: appends the record at the back; when the queue already holds 256
/// records it is left as it is and the record is handed back.
#[verifier::external_body]
fn records_push_back(queue: &mut Deque<RoxyMouseEvent, 256>, record: RoxyMouseEvent) -> (result: Result<(), RoxyMouseEvent>)
    ensures
        queued_records(*old(queue)).len() >= 256 ==> (result matches Err(r) && r == record),
        queued_records(*old(queue)).len() >= 256 ==> queued_records(*final(queue)) == queued_records(
            *old(queue),
        ),
        queued_records(*old(queue)).len() < 256 ==> result is Ok,
        queued_records(*old(queue)).len() < 256 ==> queued_records(*final(queue)) == queued_records(
            *old(queue),
        ).push(record),
{
    queue.push_back(record)
}

/// `queue` after appending `record`, dropping the oldest record first when it is full.
pub open spec fn pushed_dropping_oldest<T>(queue: Seq<T>, record: T, capacity: nat) -> Seq<T> {
    if queue.len() >= capacity {
        queue.drop_first().push(record)
    } else {
        queue.push(record)
    }
}

/// `queue` after appending each of `items` in turn, dropping the oldest whenever it is full.
pub open spec fn pushed_all_dropping_oldest<T>(queue: Seq<T>, items: Seq<T>, capacity: nat) -> Seq<T>
    decreases items.len(),
{
    if items.len() == 0 {
        queue
    } else {
        pushed_dropping_oldest(
            pushed_all_dropping_oldest(queue, items.drop_last(), capacity),
            items.last(),
            capacity,
        )
    }
}

/// However many items are pushed onto a queue that holds at most `capacity`, it ends up holding
/// the latest `capacity` of everything it held and was given, oldest first: a full queue loses
/// its oldest items and never the newest.
pub proof fn lemma_queue_keeps_latest<T>(queue: Seq<T>, items: Seq<T>, capacity: nat)
    requires
        capacity > 0,
        queue.len() <= capacity,
    ensures
        pushed_all_dropping_oldest(queue, items, capacity) == (queue + items).skip(
            if queue.len() + items.len() > capacity {
                queue.len() + items.len() - capacity
            } else {
                0
            },
        ),
    decreases items.len(),
{
    if items.len() == 0 {
        assert((queue + items).skip(0) =~= queue);
    } else {
        let front = items.drop_last();
        lemma_queue_keeps_latest(queue, front, capacity);
        let all = queue + items;
        let before = queue + front;
        assert(before =~= all.drop_last());
        let d_before: int = if queue.len() + front.len() > capacity {
            queue.len() + front.len() - capacity
        } else {
            0
        };
        let r = before.skip(d_before);
        if r.len() >= capacity {
            assert(r.drop_first().push(items.last()) =~= all.skip(d_before + 1));
        } else {
            assert(r.push(items.last()) =~= all.skip(d_before));
        }
    }
}

/// The state behind `/dev/mouse`: the queued records, the button state carried between samples
/// (a sample reports transitions, a record reports state), and whether the mouse has a wheel.
pub struct MouseDeviceState {
    queue: Deque<RoxyMouseEvent, 256>,
    buttons: u32,
    wheel_supported: bool,
}

impl MouseDeviceState {
    pub closed spec fn records(&self) -> Seq<RoxyMouseEvent> {
        queued_records(self.queue)
    }

    /// The queue never holds more than its capacity.
    pub closed spec fn wf(&self) -> bool {
        queued_records(self.queue).len() <= 256
    }

    pub closed spec fn button_state(&self) -> u32 {
        self.buttons
    }

    pub closed spec fn has_wheel(&self) -> bool {
        self.wheel_supported
    }

    /// A device with an empty queue and no button down; without a wheel, wheel steps are dropped.
    pub fn new(wheel_supported: bool) -> (device: Self)
        ensures
            device.wf(),
            device.records() == Seq::<RoxyMouseEvent>::empty(),
            device.button_state() == 0,
            device.has_wheel() == wheel_supported,
    {
        MouseDeviceState { queue: records_new(), buttons: 0, wheel_supported }
    }

    /// Queues one record, dropping the oldest when the queue is full so the producer never
    /// blocks.
    pub fn push(&mut self, event: RoxyMouseEvent)
        requires
            old(self).wf(),
        ensures
            final(self).wf(),
            final(self).records() == pushed_dropping_oldest(old(self).records(), event, 256),
            final(self).button_state() == old(self).button_state(),
            final(self).has_wheel() == old(self).has_wheel(),
    {
        if records_is_full(&self.queue) {
            let _ = records_pop_front(&mut self.queue);
        }
        let _ = records_push_back(&mut self.queue, event);
    }

    /// Folds one hardware sample, taken at `timestamp_ns`, into a single record and queues it;
    /// the button state after the sample is carried to the next one.
    pub fn receive_sample(&mut self, events: &[MouseEvent], timestamp_ns: u64)
        requires
            old(self).wf(),
        ensures
            final(self).wf(),
            ({
                let t = fold_events(events@, old(self).has_wheel(), old(self).button_state());
                &&& final(self).button_state() == t.buttons
                &&& final(self).has_wheel() == old(self).has_wheel()
                &&& final(self).records() == pushed_dropping_oldest(
                    old(self).records(),
                    RoxyMouseEvent {
                        timestamp_ns,
                        dx: t.dx,
                        dy: t.dy,
                        wheel: t.wheel,
                        buttons: t.buttons,
                    },
                    256,
                )
            }),
    {
        let totals = fold_sample(events, self.wheel_supported, self.buttons);
        self.buttons = totals.buttons;
        self.push(
            RoxyMouseEvent {
                timestamp_ns,
                dx: totals.dx,
                dy: totals.dy,
                wheel: totals.wheel,
                buttons: totals.buttons,
            },
        );
    }

    /// Whether a record is queued.
    pub fn readable(&self) -> (readable: bool)
        ensures
            readable == (self.records().len() > 0),
    {
        !records_is_empty(&self.queue)
    }

    /// Reads as many whole records as fit in `capacity` bytes. `BadOperation` when not even one
    /// fits (a record is never split across reads), `WouldBlock` when none is queued; both leave
    /// the queue as it is.
    pub fn read(&mut self, capacity: usize) -> (result: Result<Vec<u8>, FileError>)
        requires
            old(self).wf(),
        ensures
            final(self).wf(),
            final(self).button_state() == old(self).button_state(),
            final(self).has_wheel() == old(self).has_wheel(),
            capacity < RECORD_SIZE ==> result == Err::<Vec<u8>, FileError>(FileError::BadOperation)
                && final(self).records() == old(self).records(),
            capacity >= RECORD_SIZE && old(self).records().len() == 0 ==> result == Err::<
                Vec<u8>,
                FileError,
            >(FileError::WouldBlock) && final(self).records() == old(self).records(),
            capacity >= RECORD_SIZE && old(self).records().len() > 0 ==> {
                let k = if old(self).records().len() < capacity / 24 {
                    old(self).records().len() as int
                } else {
                    (capacity / 24) as int
                };
                &&& result matches Ok(bytes)
                &&& bytes@ == records_bytes(old(self).records().take(k))
                &&& final(self).records() == old(self).records().skip(k)
            },
    {
        if capacity < RECORD_SIZE {
            return Err(FileError::BadOperation);
        }
        let ghost start = self.records();
        let mut bytes: Vec<u8> = Vec::new();
        let mut taken: usize = 0;
        proof {
            assert(start.take(0) =~= Seq::<RoxyMouseEvent>::empty());
            assert(start.skip(0) =~= start);
        }
        while capacity - bytes.len() >= RECORD_SIZE
            invariant_except_break
                bytes@.len() == 24 * taken,
                bytes@.len() <= capacity,
                taken <= start.len(),
                self.records() == start.skip(taken as int),
                bytes@ == records_bytes(start.take(taken as int)),
                self.buttons == old(self).buttons,
                self.wheel_supported == old(self).wheel_supported,
                start.len() <= 256,
            ensures
                bytes@.len() == 24 * taken,
                bytes@.len() <= capacity,
                taken <= start.len(),
                self.records() == start.skip(taken as int),
                bytes@ == records_bytes(start.take(taken as int)),
                self.buttons == old(self).buttons,
                self.wheel_supported == old(self).wheel_supported,
                taken == start.len() || capacity - 24 * taken < 24,
            decreases capacity - bytes@.len(),
        {
            match records_pop_front(&mut self.queue) {
                Some(record) => {
                    proof {
                        assert(start.take(taken + 1).drop_last() =~= start.take(taken as int));
                        assert(start.skip(taken as int)[0] == start[taken as int]);
                        assert(start.skip(taken as int).drop_first() =~= start.skip(taken + 1));
                    }
                    push_record(&mut bytes, &record);
                    taken = taken + 1;
                },
                None => {
                    break;
                },
            }
        }
        if taken == 0 {
            return Err(FileError::WouldBlock);
        }
        proof {
            let k = if start.len() < capacity / 24 {
                start.len() as int
            } else {
                (capacity / 24) as int
            };
            assert(taken == k) by {
                vstd::arithmetic::div_mod::lemma_fundamental_div_mod(capacity as int, 24);
                let q = capacity as int / 24;
                if capacity - 24 * taken < 24 {
                    assert(taken == q);
                } else {
                    assert(taken <= q);
                }
            }
        }
        Ok(bytes)
    }
}

} // verus!
