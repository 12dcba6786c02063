use roxy_kernel::address::VirtualAddress;
use roxy_kernel::input::controller::{
    input_full, keyboard_config, output_full, scanning_enabled, InitError, ResetHandshake, KEYBOARD_ACK,
    KEYBOARD_SELF_TEST_OK,
};
use roxy_kernel::memory::heap::{heap_pages, permanent_heap_layout, PERMANENT_HEAP_SIZE};
use roxy_kernel::poll::PollListeners;

#[test]
fn removes_only_its_registration() {
    let mut queue: PollListeners<&str> = PollListeners::new();
    let first = queue.register("first");
    let second = queue.register("second");
    assert_ne!(first, second);
    assert_eq!(queue.count(), 2);
    queue.unregister(first);
    assert_eq!(queue.count(), 1);
    assert_eq!(queue.listeners()[0].id, second);
    assert_eq!(queue.listeners()[0].listener, "second");
    queue.unregister(second);
    assert_eq!(queue.count(), 0);
}

#[test]
fn registration_ids_count_up_from_one() {
    let mut queue: PollListeners<u32> = PollListeners::new();
    assert!(queue.can_register());
    assert_eq!(queue.register(7), 1);
    assert_eq!(queue.register(8), 2);
    queue.unregister(1);
    assert_eq!(queue.register(9), 3);
    let ids: Vec<u64> = queue.listeners().iter().map(|entry| entry.id).collect();
    assert_eq!(ids, vec![2, 3]);
}

#[test]
fn status_bits() {
    assert!(output_full(0x01));
    assert!(!output_full(0x02));
    assert!(input_full(0x02));
    assert!(!input_full(0x01));
}

#[test]
fn keyboard_configuration_enables_first_port_and_translation() {
    assert_eq!(keyboard_config(0x00), 0x41);
    assert_eq!(keyboard_config(0x02), 0x41);
    assert_eq!(keyboard_config(0xff), 0xfd);
    assert_eq!(keyboard_config(0x30), 0x71);
}

#[test]
fn reset_needs_acknowledgement_before_self_test() {
    let mut handshake = ResetHandshake::new();
    assert!(!handshake.observe(KEYBOARD_SELF_TEST_OK));
    assert!(!handshake.observe(0x12));
    assert!(!handshake.observe(KEYBOARD_ACK));
    assert!(handshake.acknowledged);
    assert!(!handshake.observe(0x12));
    assert!(handshake.observe(KEYBOARD_SELF_TEST_OK));
}

#[test]
fn scanning_needs_acknowledgement() {
    assert_eq!(scanning_enabled(KEYBOARD_ACK), Ok(()));
    assert_eq!(scanning_enabled(0xfe), Err(InitError::EnableFailed));
}

#[test]
fn heap_lies_between_guard_pages() {
    let layout = permanent_heap_layout(0xffff_ffff_8020_1234).unwrap();
    assert_eq!(layout.start.as_u64(), 0xffff_ffff_8020_3000);
    assert_eq!(layout.lower_guard.as_u64(), 0xffff_ffff_8020_2000);
    assert_eq!(layout.upper_guard.as_u64(), 0xffff_ffff_8020_3000 + PERMANENT_HEAP_SIZE);
    let pages = heap_pages(&layout);
    assert_eq!(pages.len() as u64, PERMANENT_HEAP_SIZE / 4096);
    assert_eq!(pages[1], VirtualAddress::new(0xffff_ffff_8020_4000).unwrap());
    assert!(permanent_heap_layout(0x0000_7fff_ffff_0000).is_none());
    assert!(permanent_heap_layout(u64::MAX - 10).is_none());
}
