//! Decodes the PS/2 mouse byte stream into one batch of semantic mouse events per packet.
//!
//! X and Y are 9-bit signed deltas: the delta byte with the sign bit from the first byte (bit 4
//! for X, bit 5 for Y); a zero delta byte is no motion whatever the sign bit. The Y delta is
//! negated, so `down` is positive downward. The `IntelliMouse` wheel byte is a signed byte,
//! negated, so `up` is positive upward. Buttons are the low three bits of the first byte, and
//! only changes are reported, right, then middle, then left. Overflow bits are ignored.
use vstd::prelude::*;

use heapless::Vec as EventBuffer;

use super::mouse::{MouseButton, MouseEvent};

verus! {

/// Most events one packet produces: three button changes, a move and a scroll.
pub const MAX_EVENTS_PER_PACKET: usize = 5;

/// Bit 3 of a packet's first byte is always set; a first byte without it is skipped.
pub const SYNC_BIT: u8 = 0x08;

/// The button bits of a packet's first byte.
pub const BUTTON_BITS: u8 = 0x07;

/// The negotiated packet format.
#[derive(Clone, Copy, Debug, PartialEq, Eq, Structural)]
pub enum PacketMode {
    /// Three-byte packets, no wheel.
    Standard,
    /// Four-byte packets with a wheel byte.
    Intellimouse,
}

impl PacketMode {
    pub open spec fn len(self) -> usize {
        match self {
            PacketMode::Standard => 3,
            PacketMode::Intellimouse => 4,
        }
    }

    /// Bytes in one packet.
    pub fn packet_len(self) -> (length: usize)
        ensures
            length == self.len(),
    {
        match self {
            PacketMode::Standard => 3,
            PacketMode::Intellimouse => 4,
        }
    }
}

#[verifier::external_type_specification]
#[verifier::external_body]
#[verifier::reject_recursive_types(T)]
pub struct ExEventBuffer<T, const N: usize>(EventBuffer<T, N>);

/// The events in a batch, in order.
pub uninterp spec fn batch_events(batch: EventBuffer<MouseEvent, 5>) -> Seq<MouseEvent>;

/// `heapless::Vec::new`: a batch holding no event.
#[verifier::external_body]
fn batch_new() -> (batch: EventBuffer<MouseEvent, 5>)
    ensures
        batch_events(batch) == Seq::<MouseEvent>::empty(),
{
    EventBuffer::new()
}

/// `heapless::Vec::push`: appends the event at the end; when the batch already holds five
/// events it is left as it is and the event is handed back.
#[verifier::external_body]
fn batch_push(batch: &mut EventBuffer<MouseEvent, 5>, event: MouseEvent) -> (result: Result<(), MouseEvent>)
    ensures
        batch_events(*old(batch)).len() >= 5 ==> (result matches Err(e) && e == event),
        batch_events(*old(batch)).len() >= 5 ==> batch_events(*final(batch)) == batch_events(*old(batch)),
        batch_events(*old(batch)).len() < 5 ==> result is Ok,
        batch_events(*old(batch)).len() < 5 ==> batch_events(*final(batch)) == batch_events(*old(batch)).push(event),
{
    batch.push(event)
}

/// The 9-bit delta of a delta byte and its sign bit; a zero byte is no motion.
pub open spec fn delta_value(byte: u8, negative: bool) -> int {
    if byte == 0 {
        0
    } else if negative {
        byte - 256
    } else {
        byte as int
    }
}

/// The 9-bit signed delta of `byte`, whose sign bit sits in `b0` at bit `8 - shift` (bit 4 for
/// X, bit 5 for Y).
pub fn delta(byte: u8, b0: u8, shift: u8) -> (value: i32)
    requires
        shift == 3 || shift == 4,
    ensures
        value == delta_value(byte, b0 & (if shift == 4 { 0x10u8 } else { 0x20u8 }) != 0),
{
    if byte == 0 {
        0
    } else {
        let sign = ((b0 as i32) << (shift as i32)) & 0x100;
        proof {
            if shift == 4 {
                assert(((b0 as i32) << 4i32) & 0x100i32 == if b0 & 0x10u8 != 0 { 0x100i32 } else { 0i32 })
                    by (bit_vector);
            } else {
                assert(((b0 as i32) << 3i32) & 0x100i32 == if b0 & 0x20u8 != 0 { 0x100i32 } else { 0i32 })
                    by (bit_vector);
            }
        }
        byte as i32 - sign
    }
}

/// The wheel steps of an `IntelliMouse` wheel byte: the byte as a signed value, negated.
pub open spec fn wheel_value(byte: u8) -> int {
    if byte < 128 {
        -(byte as int)
    } else {
        256 - byte
    }
}

/// The button change for bit `bit` between the previous and the current button bits, if any.
pub open spec fn button_change(b0: u8, previous: u8, bit: u8, button: MouseButton) -> Seq<MouseEvent> {
    let pressed = b0 & (1u8 << bit) != 0;
    let was_pressed = previous & (1u8 << bit) != 0;
    if pressed == was_pressed {
        Seq::empty()
    } else if pressed {
        seq![MouseEvent::ButtonPressed(button)]
    } else {
        seq![MouseEvent::ButtonReleased(button)]
    }
}

/// The events of the packet `b0 b1 b2 b3` after button bits `previous`: button changes (right,
/// middle, left), then the move if there is any motion, then the scroll of a wheel packet if it
/// scrolled.
pub open spec fn packet_events(mode: PacketMode, b0: u8, b1: u8, b2: u8, b3: u8, previous: u8) -> Seq<MouseEvent> {
    let x = delta_value(b1, b0 & 0x10 != 0);
    let y = delta_value(b2, b0 & 0x20 != 0);
    let buttons = button_change(b0, previous, 1, MouseButton::Right) + button_change(
        b0,
        previous,
        2,
        MouseButton::Middle,
    ) + button_change(b0, previous, 0, MouseButton::Left);
    let motion = if x != 0 || y != 0 {
        seq![MouseEvent::Move { right: x as i32, down: (-y) as i32 }]
    } else {
        Seq::empty()
    };
    let wheel = if mode is Intellimouse && wheel_value(b3) != 0 {
        seq![MouseEvent::Scroll { up: wheel_value(b3) as i32 }]
    } else {
        Seq::empty()
    };
    buttons + motion + wheel
}

/// Buttons are reported only when they change: a packet whose button bits equal the previous
/// packet's reports no press or release.
pub proof fn lemma_held_buttons_report_nothing(mode: PacketMode, b0: u8, b1: u8, b2: u8, b3: u8)
    ensures
        forall|i: int|
            0 <= i < packet_events(mode, b0, b1, b2, b3, b0 & BUTTON_BITS).len() ==> !(#[trigger] packet_events(
                mode,
                b0,
                b1,
                b2,
                b3,
                b0 & BUTTON_BITS,
            )[i] is ButtonPressed) && !(packet_events(mode, b0, b1, b2, b3, b0 & BUTTON_BITS)[i] is ButtonReleased),
{
    let previous = b0 & BUTTON_BITS;
    assert forall|bit: u8| bit < 3 implies (b0 & (1u8 << bit) != 0) == (previous & (1u8 << bit) != 0) by {
        assert(bit < 3 ==> ((b0 & (1u8 << bit) != 0) == ((b0 & 7u8) & (1u8 << bit) != 0))) by (bit_vector);
    }
    assert(button_change(b0, previous, 1, MouseButton::Right) =~= Seq::<MouseEvent>::empty());
    assert(button_change(b0, previous, 2, MouseButton::Middle) =~= Seq::<MouseEvent>::empty());
    assert(button_change(b0, previous, 0, MouseButton::Left) =~= Seq::<MouseEvent>::empty());
}

/// Accumulates bytes and decodes each completed packet.
pub struct MousePacketParser {
    mode: PacketMode,
    b0: u8,
    b1: u8,
    b2: u8,
    b3: u8,
    count: usize,
    previous_buttons: u8,
}

impl MousePacketParser {
    pub closed spec fn packet_mode(&self) -> PacketMode {
        self.mode
    }

    /// Bytes of the current packet received so far.
    pub closed spec fn received(&self) -> Seq<u8> {
        seq![self.b0, self.b1, self.b2, self.b3].take(self.count as int)
    }

    /// The button bits of the last decoded packet.
    pub closed spec fn buttons(&self) -> u8 {
        self.previous_buttons
    }

    /// A partial packet is shorter than a packet.
    pub closed spec fn wf(&self) -> bool {
        self.count < self.mode.len()
    }

    pub fn new() -> (parser: Self)
        ensures
            parser.wf(),
            parser.packet_mode() == PacketMode::Standard,
            parser.received() == Seq::<u8>::empty(),
            parser.buttons() == 0,
    {
        MousePacketParser { mode: PacketMode::Standard, b0: 0, b1: 0, b2: 0, b3: 0, count: 0, previous_buttons: 0 }
    }

    /// Selects the packet format and starts over.
    pub fn set_mode(&mut self, mode: PacketMode)
        ensures
            final(self).wf(),
            final(self).packet_mode() == mode,
            final(self).received() == Seq::<u8>::empty(),
            final(self).buttons() == 0,
    {
        self.mode = mode;
        self.reset();
    }

    /// Drops a partial packet and forgets the button state.
    pub fn reset(&mut self)
        ensures
            final(self).packet_mode() == old(self).packet_mode(),
            final(self).received() == Seq::<u8>::empty(),
            final(self).buttons() == 0,
            final(self).wf(),
    {
        self.count = 0;
        self.previous_buttons = 0;
    }

    /// Feeds one byte and returns the packet's events when it completes a packet. A first byte
    /// without the sync bit is dropped.
    pub fn feed(&mut self, byte: u8) -> (batch: Option<EventBuffer<MouseEvent, 5>>)
        requires
            old(self).wf(),
        ensures
            final(self).wf(),
            final(self).packet_mode() == old(self).packet_mode(),
            ({
                let received = old(self).received().push(byte);
                let mode = old(self).packet_mode();
                if old(self).received().len() == 0 && byte & SYNC_BIT == 0 {
                    batch is None && final(self).received() == old(self).received()
                        && final(self).buttons() == old(self).buttons()
                } else if received.len() < mode.len() {
                    batch is None && final(self).received() == received && final(self).buttons() == old(
                        self,
                    ).buttons()
                } else {
                    &&& final(self).received() == Seq::<u8>::empty()
                    &&& final(self).buttons() == received[0] & BUTTON_BITS
                    &&& batch matches Some(b) && batch_events(b) == packet_events(
                        mode,
                        received[0],
                        received[1],
                        received[2],
                        if mode is Intellimouse {
                            received[3]
                        } else {
                            0
                        },
                        old(self).buttons(),
                    )
                }
            }),
    {
        if self.count == 0 {
            if byte & SYNC_BIT == 0 {
                return None;
            }
            self.b0 = byte;
            self.count = 1;
            proof {
                assert(self.received() =~= old(self).received().push(byte));
            }
            return None;
        }
        if self.count == 1 {
            self.b1 = byte;
        } else if self.count == 2 {
            self.b2 = byte;
        } else {
            self.b3 = byte;
        }
        self.count = self.count + 1;
        proof {
            assert(seq![self.b0, self.b1, self.b2, self.b3].take(self.count as int) =~= old(self).received().push(byte));
        }
        if self.count < self.mode.packet_len() {
            return None;
        }
        self.count = 0;
        proof {
            assert(self.received() =~= Seq::<u8>::empty());
        }
        Some(self.decode())
    }

    /// Appends the change of button bit `bit`, if any.
    fn emit_button(&self, events: &mut EventBuffer<MouseEvent, 5>, b0: u8, bit: u8, button: MouseButton)
        requires
            bit < 3,
            batch_events(*old(events)).len() < 5,
        ensures
            batch_events(*final(events)) == batch_events(*old(events)) + button_change(
                b0,
                self.previous_buttons,
                bit,
                button,
            ),
            batch_events(*final(events)).len() <= batch_events(*old(events)).len() + 1,
    {
        let mask = 1u8 << bit;
        let pressed = b0 & mask != 0;
        let was_pressed = self.previous_buttons & mask != 0;
        if pressed != was_pressed {
            let event = if pressed {
                MouseEvent::ButtonPressed(button)
            } else {
                MouseEvent::ButtonReleased(button)
            };
            let _ = batch_push(events, event);
            proof {
                assert(batch_events(*events) =~= batch_events(*old(events)) + button_change(
                    b0,
                    self.previous_buttons,
                    bit,
                    button,
                ));
            }
        } else {
            proof {
                assert(batch_events(*events) =~= batch_events(*old(events)) + button_change(
                    b0,
                    self.previous_buttons,
                    bit,
                    button,
                ));
            }
        }
    }

    /// Decodes the completed packet and records its button bits.
    fn decode(&mut self) -> (events: EventBuffer<MouseEvent, 5>)
        ensures
            final(self).mode == old(self).mode,
            final(self).b0 == old(self).b0 && final(self).b1 == old(self).b1 && final(self).b2 == old(
                self,
            ).b2 && final(self).b3 == old(self).b3,
            final(self).count == old(self).count,
            final(self).previous_buttons == old(self).b0 & BUTTON_BITS,
            batch_events(events) == packet_events(
                old(self).mode,
                old(self).b0,
                old(self).b1,
                old(self).b2,
                old(self).b3,
                old(self).previous_buttons,
            ),
    {
        let mut events = batch_new();
        let b0 = self.b0;
        self.emit_button(&mut events, b0, 1, MouseButton::Right);
        self.emit_button(&mut events, b0, 2, MouseButton::Middle);
        self.emit_button(&mut events, b0, 0, MouseButton::Left);
        self.previous_buttons = b0 & BUTTON_BITS;
        let x = delta(self.b1, b0, 4);
        let y = delta(self.b2, b0, 3);
        if x != 0 || y != 0 {
            let _ = batch_push(&mut events, MouseEvent::Move { right: x, down: -y });
        }
        if self.mode == PacketMode::Intellimouse {
            let wheel = -((self.b3 as i8) as i32);
            proof {
                let b3 = self.b3;
                assert(b3 < 128u8 ==> (b3 as i8) as i32 == b3 as i32) by (bit_vector);
                assert(b3 >= 128u8 ==> (b3 as i8) as i32 == b3 as i32 - 256i32) by (bit_vector);
            }
            if wheel != 0 {
                let _ = batch_push(&mut events, MouseEvent::Scroll { up: wheel });
            }
        }
        proof {
            assert(batch_events(events) =~= packet_events(
                old(self).mode,
                old(self).b0,
                old(self).b1,
                old(self).b2,
                old(self).b3,
                old(self).previous_buttons,
            ));
        }
        events
    }
}

} // verus!
