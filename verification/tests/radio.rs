use quadrupel::debug_message::{dequeue_debug_message, DebugQueue, enqueue_debug_message, debug_message_from_str};
use quadrupel::radio::{radio_state_message, record_radio_state};

fn text_of(m: &[u8; 32]) -> String {
    let end = m.iter().position(|b| *b == 0).unwrap_or(32);
    String::from_utf8(m[..end].to_vec()).unwrap()
}

#[test]
fn radio_state_zero() {
    assert_eq!(text_of(&radio_state_message(0)), "Radio State: 0");
}

#[test]
fn radio_state_small_numbers() {
    assert_eq!(text_of(&radio_state_message(3)), "Radio State: 3");
    assert_eq!(text_of(&radio_state_message(10)), "Radio State: 10");
    assert_eq!(text_of(&radio_state_message(1234)), "Radio State: 1234");
}

#[test]
fn radio_state_largest_value_fits() {
    let m = radio_state_message(u32::MAX);
    assert_eq!(text_of(&m), "Radio State: 4294967295");
    assert!(m[23..].iter().all(|b| *b == 0));
}

#[test]
fn radio_state_matches_format() {
    for state in [0u32, 1, 9, 11, 100, 65535, 1000000, 4000000000] {
        let expected = debug_message_from_str(&format!("Radio State: {}", state));
        assert_eq!(radio_state_message(state), expected);
    }
}

#[test]
fn record_radio_state_queues_after_earlier_messages() {
    let mut q = DebugQueue::new();
    let earlier = debug_message_from_str("earlier");
    enqueue_debug_message(&mut q, earlier);
    record_radio_state(&mut q, 11);
    assert_eq!(dequeue_debug_message(&mut q), Some(earlier));
    let m = dequeue_debug_message(&mut q).unwrap();
    assert_eq!(text_of(&m), "Radio State: 11");
    assert_eq!(dequeue_debug_message(&mut q), None);
}
