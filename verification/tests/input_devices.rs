use roxy_kernel::device::FileError;
use roxy_kernel::input::keyboard::{
    key_event_from, map_key, DecodedState, KeyCode, KeyEvent, KeyState, ScancodeParser, PC_A, PC_ARROW_LEFT,
    PC_PRINT_SCREEN,
};
use roxy_kernel::input::key_queue::{KeyboardInput, INPUT_CAPACITY};
use roxy_kernel::input::mouse::{
    live_positions, prune_listeners,
    button_bit, fold_sample, MouseButton, MouseDeviceState, MouseEvent, RoxyMouseEvent, BUTTON_LEFT,
    BUTTON_MIDDLE, BUTTON_RIGHT, RECORD_SIZE,
};
use roxy_kernel::input::packet::{delta, MousePacketParser, PacketMode};
use roxy_kernel::input::psaux::{MouseInput, PsauxDevice, MOUSE_CAPACITY};

fn press(decoder: &mut ScancodeParser, scancode: u8) -> Option<KeyEvent> {
    decoder.parse(scancode)
}

fn event(code: KeyCode, state: KeyState) -> KeyEvent {
    KeyEvent { code, state }
}

#[test]
fn basic_keys() {
    let mut decoder = ScancodeParser::new();
    assert_eq!(press(&mut decoder, 0x1e), Some(event(KeyCode::A, KeyState::Pressed)));
    assert_eq!(press(&mut decoder, 0x9e), Some(event(KeyCode::A, KeyState::Released)));
    assert_eq!(press(&mut decoder, 0x1c), Some(event(KeyCode::Return, KeyState::Pressed)));
    assert_eq!(press(&mut decoder, 0x0e), Some(event(KeyCode::Backspace, KeyState::Pressed)));
    assert_eq!(press(&mut decoder, 0x0f), Some(event(KeyCode::Tab, KeyState::Pressed)));
    assert_eq!(press(&mut decoder, 0x39), Some(event(KeyCode::Space, KeyState::Pressed)));
    assert_eq!(press(&mut decoder, 0x01), Some(event(KeyCode::Escape, KeyState::Pressed)));
}

#[test]
fn modifiers_press_and_release() {
    let mut decoder = ScancodeParser::new();
    assert_eq!(press(&mut decoder, 0x2a), Some(event(KeyCode::LeftShift, KeyState::Pressed)));
    assert_eq!(press(&mut decoder, 0xaa), Some(event(KeyCode::LeftShift, KeyState::Released)));
    assert_eq!(press(&mut decoder, 0x3a), Some(event(KeyCode::CapsLock, KeyState::Pressed)));
    assert_eq!(press(&mut decoder, 0x1d), Some(event(KeyCode::LeftCtrl, KeyState::Pressed)));
    assert_eq!(press(&mut decoder, 0x9d), Some(event(KeyCode::LeftCtrl, KeyState::Released)));
}

#[test]
fn number_row() {
    let mut decoder = ScancodeParser::new();
    assert_eq!(press(&mut decoder, 0x02), Some(event(KeyCode::Digit1, KeyState::Pressed)));
    assert_eq!(press(&mut decoder, 0x03), Some(event(KeyCode::Digit2, KeyState::Pressed)));
    assert_eq!(press(&mut decoder, 0x0c), Some(event(KeyCode::Minus, KeyState::Pressed)));
}

#[test]
fn extended_keys() {
    let mut decoder = ScancodeParser::new();
    assert_eq!(press(&mut decoder, 0xe0), None);
    assert_eq!(press(&mut decoder, 0x4b), Some(event(KeyCode::ArrowLeft, KeyState::Pressed)));
    assert_eq!(press(&mut decoder, 0xe0), None);
    assert_eq!(press(&mut decoder, 0xcb), Some(event(KeyCode::ArrowLeft, KeyState::Released)));
}

#[test]
fn decoder_codes_map_to_keys() {
    assert_eq!(map_key(PC_A), Some(KeyCode::A));
    assert_eq!(map_key(PC_ARROW_LEFT), Some(KeyCode::ArrowLeft));
    assert_eq!(map_key(PC_PRINT_SCREEN), Some(KeyCode::PrintScreen));
    assert_eq!(map_key(200), None);
    assert_eq!(
        key_event_from(PC_A, DecodedState::Up),
        Some(event(KeyCode::A, KeyState::Released))
    );
    assert_eq!(
        key_event_from(PC_A, DecodedState::SingleShot),
        Some(event(KeyCode::A, KeyState::Pressed))
    );
}

#[test]
fn queues_and_drains_bytes() {
    let mut input = MouseInput::new();
    assert!(input.is_empty());
    assert_eq!(input.read_into(4), Vec::<u8>::new());
    for value in 0..4u8 {
        input.push(value);
    }
    assert!(!input.is_empty());
    assert_eq!(input.read_into(2), vec![0, 1]);
    assert_eq!(input.read_into(2), vec![2, 3]);
    assert!(input.is_empty());
}

#[test]
fn drops_oldest_when_full() {
    let mut input = MouseInput::new();
    for value in 0..MOUSE_CAPACITY {
        input.push(u8::try_from(value).expect("value fits in u8"));
    }
    input.push(0xff);
    assert_eq!(input.read_into(2), vec![1, 2]);
    let rest = input.read_into(MOUSE_CAPACITY);
    assert_eq!(rest.len(), MOUSE_CAPACITY - 2);
    assert_eq!(rest[rest.len() - 1], 0xff);
}

#[test]
fn returns_queued_bytes() {
    let device = PsauxDevice;
    let mut input = MouseInput::new();
    assert_eq!(device.read(&mut input, 4), Err(FileError::WouldBlock));
    input.push(0x08);
    input.push(0x01);
    input.push(0x02);
    assert_eq!(device.read(&mut input, 4), Ok(vec![0x08, 0x01, 0x02]));
    assert_eq!(device.read(&mut input, 4), Err(FileError::WouldBlock));
    assert_eq!(device.read(&mut input, 0), Ok(Vec::new()));
}

#[test]
fn reflects_queue_state() {
    let device = PsauxDevice;
    let mut input = MouseInput::new();
    assert!(!device.readable(&input));
    input.push(0x08);
    assert!(device.readable(&input));
}

fn i32_at(bytes: &[u8], offset: usize) -> i32 {
    i32::from_le_bytes(bytes[offset..offset + 4].try_into().unwrap())
}

fn u32_at(bytes: &[u8], offset: usize) -> u32 {
    u32::from_le_bytes(bytes[offset..offset + 4].try_into().unwrap())
}

#[test]
fn folds_one_sample_into_one_record() {
    let mut device = MouseDeviceState::new(true);
    device.receive_sample(
        &[
            MouseEvent::Move { right: 3, down: -2 },
            MouseEvent::Scroll { up: 1 },
            MouseEvent::ButtonPressed(MouseButton::Left),
        ],
        77,
    );
    let output = device.read(RECORD_SIZE * 2).expect("one queued sample");
    assert_eq!(output.len(), RECORD_SIZE);
    assert_eq!(u64::from_le_bytes(output[0..8].try_into().unwrap()), 77);
    assert_eq!(i32_at(&output, 8), 3);
    assert_eq!(i32_at(&output, 12), -2);
    assert_eq!(i32_at(&output, 16), 1);
    assert_eq!(u32_at(&output, 20), BUTTON_LEFT);
    assert_eq!(device.read(RECORD_SIZE * 2), Err(FileError::WouldBlock));
}

#[test]
fn tracks_state_across_samples() {
    let mut device = MouseDeviceState::new(true);
    device.receive_sample(&[MouseEvent::ButtonPressed(MouseButton::Right)], 1);
    device.receive_sample(&[MouseEvent::ButtonPressed(MouseButton::Middle)], 2);
    device.receive_sample(&[MouseEvent::ButtonReleased(MouseButton::Right)], 3);
    let output = device.read(RECORD_SIZE * 3).unwrap();
    assert_eq!(output.len(), RECORD_SIZE * 3);
    assert_eq!(u32_at(&output, RECORD_SIZE + 20), BUTTON_RIGHT | BUTTON_MIDDLE);
    assert_eq!(u32_at(&output, 2 * RECORD_SIZE + 20), BUTTON_MIDDLE);
}

#[test]
fn drops_scroll_without_wheel() {
    let mut device = MouseDeviceState::new(false);
    device.receive_sample(&[MouseEvent::Scroll { up: 1 }], 0);
    let output = device.read(RECORD_SIZE).unwrap();
    assert_eq!(output.len(), RECORD_SIZE);
    assert_eq!(i32_at(&output, 16), 0);
}

#[test]
fn rejects_short_buffer() {
    let mut device = MouseDeviceState::new(true);
    assert_eq!(device.read(RECORD_SIZE - 1), Err(FileError::BadOperation));
    device.receive_sample(&[MouseEvent::Scroll { up: 1 }], 0);
    assert_eq!(device.read(RECORD_SIZE - 1), Err(FileError::BadOperation));
    assert!(device.readable());
}

#[test]
fn reads_only_whole_records() {
    let mut device = MouseDeviceState::new(true);
    for t in 0..3u64 {
        device.receive_sample(&[MouseEvent::Move { right: 1, down: 1 }], t);
    }
    let first = device.read(RECORD_SIZE * 2 + 5).unwrap();
    assert_eq!(first.len(), RECORD_SIZE * 2);
    let second = device.read(RECORD_SIZE * 2).unwrap();
    assert_eq!(second.len(), RECORD_SIZE);
    assert_eq!(u64::from_le_bytes(second[0..8].try_into().unwrap()), 2);
    assert!(!device.readable());
}

#[test]
fn mouse_queue_drops_oldest_record() {
    let mut device = MouseDeviceState::new(true);
    for t in 0..257u64 {
        device.push(RoxyMouseEvent { timestamp_ns: t, dx: 0, dy: 0, wheel: 0, buttons: 0 });
    }
    let output = device.read(RECORD_SIZE).unwrap();
    assert_eq!(u64::from_le_bytes(output[0..8].try_into().unwrap()), 1);
}

#[test]
fn mouse_queue_keeps_latest_records() {
    let mut device = MouseDeviceState::new(false);
    for t in 0..600u64 {
        device.push(RoxyMouseEvent { timestamp_ns: t, dx: 0, dy: 0, wheel: 0, buttons: 0 });
    }
    let output = device.read(RECORD_SIZE * 1000).unwrap();
    assert_eq!(output.len(), RECORD_SIZE * 256);
    let stamps: Vec<u64> = output
        .chunks(RECORD_SIZE)
        .map(|record| u64::from_le_bytes(record[0..8].try_into().unwrap()))
        .collect();
    let expected: Vec<u64> = (344..600u64).collect();
    assert_eq!(stamps, expected);
    assert_eq!(device.read(RECORD_SIZE), Err(FileError::WouldBlock));
}

#[test]
fn sample_totals_saturate() {
    let totals = fold_sample(
        &[MouseEvent::Move { right: i32::MAX, down: i32::MIN }, MouseEvent::Move { right: 5, down: -5 }],
        true,
        0,
    );
    assert_eq!(totals.dx, i32::MAX);
    assert_eq!(totals.dy, i32::MIN);
    assert_eq!(button_bit(MouseButton::Middle), BUTTON_MIDDLE);
    let released = fold_sample(&[MouseEvent::ButtonReleased(MouseButton::Left)], true, BUTTON_LEFT | BUTTON_RIGHT);
    assert_eq!(released.buttons, BUTTON_RIGHT);
}

fn packet_events(bytes: &[u8]) -> Vec<MouseEvent> {
    let mut parser = MousePacketParser::new();
    let mut output = Vec::new();
    for &byte in bytes {
        if let Some(batch) = parser.feed(byte) {
            output.extend_from_slice(batch.as_slice());
        }
    }
    output
}

#[test]
fn decodes_motion() {
    assert_eq!(packet_events(&[0x08, 0x02, 0x03]), vec![MouseEvent::Move { right: 2, down: -3 }]);
}

#[test]
fn decodes_negative() {
    assert_eq!(
        packet_events(&[0x08 | 0x10 | 0x20, 0xFE, 0xFD]),
        vec![MouseEvent::Move { right: -2, down: 3 }]
    );
}

#[test]
fn emits_only_on_change() {
    let mut parser = MousePacketParser::new();
    let mut run = |bytes: &[u8]| {
        let mut output = Vec::new();
        for &byte in bytes {
            if let Some(batch) = parser.feed(byte) {
                output.extend_from_slice(batch.as_slice());
            }
        }
        output
    };
    assert_eq!(run(&[0x09, 0x00, 0x00]), vec![MouseEvent::ButtonPressed(MouseButton::Left)]);
    assert!(run(&[0x09, 0x00, 0x00]).is_empty());
    assert_eq!(run(&[0x08, 0x00, 0x00]), vec![MouseEvent::ButtonReleased(MouseButton::Left)]);
}

#[test]
fn right_and_middle() {
    assert_eq!(
        packet_events(&[0x0e, 0x00, 0x00]),
        vec![
            MouseEvent::ButtonPressed(MouseButton::Right),
            MouseEvent::ButtonPressed(MouseButton::Middle),
        ]
    );
}

#[test]
fn discards_non_sync_first_byte() {
    let mut parser = MousePacketParser::new();
    assert!(parser.feed(0x55).is_none());
    assert!(parser.feed(0x08).is_none());
    assert!(parser.feed(0x01).is_none());
    let batch = parser.feed(0x00).expect("third byte completes the packet");
    assert_eq!(batch.as_slice(), &[MouseEvent::Move { right: 1, down: 0 }]);
}

#[test]
fn intellimouse_wheel() {
    let mut parser = MousePacketParser::new();
    parser.set_mode(PacketMode::Intellimouse);
    assert_eq!(PacketMode::Intellimouse.packet_len(), 4);
    let mut output = Vec::new();
    for &byte in &[0x08, 0x00, 0x00, 0xFF] {
        if let Some(batch) = parser.feed(byte) {
            output.extend_from_slice(batch.as_slice());
        }
    }
    assert_eq!(output, vec![MouseEvent::Scroll { up: 1 }]);
}

#[test]
fn no_wheel_in_standard() {
    let mut parser = MousePacketParser::new();
    parser.set_mode(PacketMode::Standard);
    let mut output = Vec::new();
    for &byte in &[0x08, 0x00, 0x00, 0xFF] {
        if let Some(batch) = parser.feed(byte) {
            output.extend_from_slice(batch.as_slice());
        }
    }
    assert!(output.is_empty());
}

#[test]
fn reset_forgets_partial_packet_and_buttons() {
    let mut parser = MousePacketParser::new();
    assert!(parser.feed(0x09).is_none());
    parser.reset();
    // The next byte starts a fresh packet; left is reported again because the button state was
    // forgotten.
    assert!(parser.feed(0x09).is_none());
    assert!(parser.feed(0x00).is_none());
    let batch = parser.feed(0x00).unwrap();
    assert_eq!(batch.as_slice(), &[MouseEvent::ButtonPressed(MouseButton::Left)]);
}

#[test]
fn nine_bit_deltas() {
    assert_eq!(delta(0x02, 0x08, 4), 2);
    assert_eq!(delta(0xFE, 0x18, 4), -2);
    assert_eq!(delta(0x00, 0x18, 4), 0);
    assert_eq!(delta(0xFD, 0x28, 3), -3);
    assert_eq!(delta(0xFD, 0x18, 3), 0xFD);
}

fn queued_event(index: usize) -> KeyEvent {
    KeyEvent {
        code: KeyCode::Digit0,
        state: if index % 2 == 0 { KeyState::Pressed } else { KeyState::Released },
    }
}

#[test]
fn queue_behavior() {
    let mut input = KeyboardInput::new();
    assert_eq!(input.read(), None);
    for index in 0..INPUT_CAPACITY {
        input.enqueue_event(queued_event(index)).unwrap();
    }
    assert_eq!(input.enqueue_event(queued_event(INPUT_CAPACITY)), Err(()));
    assert_eq!(input.read(), Some(queued_event(0)));
    assert_eq!(input.read(), Some(queued_event(1)));
    assert_eq!(input.read(), Some(queued_event(2)));
    assert_eq!(input.read(), Some(queued_event(3)));
}

#[test]
fn scan_codes_reach_the_key_queue() {
    let mut input = KeyboardInput::new();
    assert_eq!(input.process_scancode(0x1e), Ok(()));
    assert_eq!(input.process_scancode(0xe0), Err(()));
    assert_eq!(input.process_scancode(0x4b), Ok(()));
    assert_eq!(input.process_scancode(0x9e), Ok(()));
    assert_eq!(input.read(), Some(KeyEvent { code: KeyCode::A, state: KeyState::Pressed }));
    assert_eq!(input.read(), Some(KeyEvent { code: KeyCode::ArrowLeft, state: KeyState::Pressed }));
    assert_eq!(input.read(), Some(KeyEvent { code: KeyCode::A, state: KeyState::Released }));
    assert_eq!(input.read(), None);
}

#[test]
fn live_listeners_keep_their_order() {
    let alive = [true, false, true, true, false];
    assert_eq!(live_positions(&alive), vec![0, 2, 3]);
    assert_eq!(prune_listeners(vec!['a', 'b', 'c', 'd', 'e'], &alive), vec!['a', 'c', 'd']);
    assert_eq!(live_positions(&[]), Vec::<usize>::new());
}
