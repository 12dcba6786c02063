//! The keyboard's input side: scan codes parsed into key events, held in a bounded queue that
//! keeps the oldest events and refuses new ones while it is full.
use vstd::prelude::*;

use heapless::Deque;

use super::keyboard::{key_event_of, set1_report, KeyEvent, ScancodeParser};

verus! {

/// Key events queued before new ones are refused.
pub const INPUT_CAPACITY: usize = 256;

/// The events in a key event queue, front first.
pub uninterp spec fn queued_keys(queue: Deque<KeyEvent, 256>) -> Seq<KeyEvent>;

/// `Deque::new`: a key event queue holding no event.
#[verifier::external_body]
fn keys_new() -> (queue: Deque<KeyEvent, 256>)
    ensures
        queued_keys(queue) == Seq::<KeyEvent>::empty(),
{
    Deque::new()
}

/// `Deque::pop_front`: removes and returns the front event; `None`, leaving the queue as it is,
/// when it holds none.
#[verifier::external_body]
fn keys_pop_front(queue: &mut Deque<KeyEvent, 256>) -> (front: Option<KeyEvent>)
    ensures
        queued_keys(*old(queue)).len() == 0 ==> front is None && queued_keys(*final(queue))
            == queued_keys(*old(queue)),
        queued_keys(*old(queue)).len() > 0 ==> front == Some(queued_keys(*old(queue))[0])
            && queued_keys(*final(queue)) == queued_keys(*old(queue)).drop_first(),
{
    queue.pop_front()
}

/// `Deque::push_back`: appends the event at the back; when the queue already holds 256 events
/// it is left as it is and the event is handed back.
#[verifier::external_body]
fn keys_push_back(queue: &mut Deque<KeyEvent, 256>, event: KeyEvent) -> (result: Result<(), KeyEvent>)
    ensures
        queued_keys(*old(queue)).len() >= 256 ==> (result matches Err(e) && e == event),
        queued_keys(*old(queue)).len() >= 256 ==> queued_keys(*final(queue)) == queued_keys(*old(queue)),
        queued_keys(*old(queue)).len() < 256 ==> result is Ok,
        queued_keys(*old(queue)).len() < 256 ==> queued_keys(*final(queue)) == queued_keys(
            *old(queue),
        ).push(event),
{
    queue.push_back(event)
}

/// Scan-code parsing and the bounded queue of the key events it produces.
pub struct KeyboardInput {
    scancode_parser: ScancodeParser,
    events: Deque<KeyEvent, 256>,
}

impl KeyboardInput {
    /// The queued events, oldest first.
    pub closed spec fn events(&self) -> Seq<KeyEvent> {
        queued_keys(self.events)
    }

    /// The scan codes parsed so far.
    pub closed spec fn history(&self) -> Seq<u8> {
        self.scancode_parser.history()
    }

    /// The queue never holds more than its capacity.
    pub closed spec fn wf(&self) -> bool {
        queued_keys(self.events).len() <= 256
    }

    /// No event queued and no scan code parsed.
    pub fn new() -> (input: Self)
        ensures
            input.wf(),
            input.events() == Seq::<KeyEvent>::empty(),
            input.history() == Seq::<u8>::empty(),
    {
        KeyboardInput { scancode_parser: ScancodeParser::new(), events: keys_new() }
    }

    /// Parses `scancode` and queues the key event it completes. `Err` when it completes none, or
    /// when the queue is full, in which case the new event is dropped and the queue kept.
    pub fn process_scancode(&mut self, scancode: u8) -> (result: Result<(), ()>)
        requires
            old(self).wf(),
        ensures
            final(self).wf(),
            final(self).history() == old(self).history().push(scancode),
            ({
                let event = key_event_of(set1_report(old(self).history().push(scancode)));
                match event {
                    None => result is Err && final(self).events() == old(self).events(),
                    Some(e) => if old(self).events().len() < 256 {
                        result is Ok && final(self).events() == old(self).events().push(e)
                    } else {
                        result is Err && final(self).events() == old(self).events()
                    },
                }
            }),
    {
        let event = match self.scancode_parser.parse(scancode) {
            Some(event) => event,
            None => return Err(()),
        };
        self.enqueue_event(event)
    }

    /// Takes the oldest queued event; `None` when none is queued.
    pub fn read(&mut self) -> (event: Option<KeyEvent>)
        requires
            old(self).wf(),
        ensures
            final(self).wf(),
            final(self).history() == old(self).history(),
            old(self).events().len() == 0 ==> event is None && final(self).events() == old(
                self,
            ).events(),
            old(self).events().len() > 0 ==> event == Some(old(self).events()[0])
                && final(self).events() == old(self).events().drop_first(),
    {
        keys_pop_front(&mut self.events)
    }

    /// Queues `event` behind the others; `Err`, keeping the queue, when it is full.
    pub fn enqueue_event(&mut self, event: KeyEvent) -> (result: Result<(), ()>)
        requires
            old(self).wf(),
        ensures
            final(self).wf(),
            final(self).history() == old(self).history(),
            old(self).events().len() < 256 ==> result is Ok && final(self).events() == old(
                self,
            ).events().push(event),
            old(self).events().len() >= 256 ==> result is Err && final(self).events() == old(
                self,
            ).events(),
    {
        match keys_push_back(&mut self.events, event) {
            Ok(()) => Ok(()),
            Err(_) => Err(()),
        }
    }
}

} // verus!
