use quadrupel::debug_message::{
    debug_message_from_bytes, debug_message_from_str, dequeue_debug_message,
    enqueue_debug_message, is_debug_queue_empty, DebugQueue, DEBUG_MESSAGE_LEN,
};

fn expected(text: &[u8]) -> [u8; 32] {
    let mut m = [0u8; 32];
    for (i, b) in text.iter().take(32).enumerate() {
        m[i] = *b;
    }
    m
}

#[test]
fn message_from_short_str_is_zero_padded() {
    let m = debug_message_from_str("UART driver initialized");
    assert_eq!(&m[..23], b"UART driver initialized");
    assert!(m[23..].iter().all(|b| *b == 0));
}

#[test]
fn message_from_empty_str_is_all_zeros() {
    assert_eq!(debug_message_from_str(""), [0u8; 32]);
}

#[test]
fn message_from_str_of_exactly_32_bytes_keeps_all() {
    let s = "0123456789abcdefghijklmnopqrstuv";
    assert_eq!(s.len(), DEBUG_MESSAGE_LEN);
    assert_eq!(debug_message_from_str(s), expected(s.as_bytes()));
}

#[test]
fn message_from_long_str_is_cut_after_32_bytes() {
    let s = "this text is a good deal longer than thirty-two bytes";
    let m = debug_message_from_str(s);
    assert_eq!(&m[..], &s.as_bytes()[..32]);
}

#[test]
fn message_from_str_holds_utf8_bytes() {
    let m = debug_message_from_str("é!");
    assert_eq!(&m[..4], &[0xC3, 0xA9, b'!', 0]);
}

#[test]
fn message_cut_may_split_a_multibyte_character() {
    let s = "0123456789012345678901234567890é";
    let m = debug_message_from_str(s);
    assert_eq!(m[31], 0xC3);
}

#[test]
fn message_from_bytes_pads_and_cuts() {
    assert_eq!(debug_message_from_bytes(&[1, 2, 3]), expected(&[1, 2, 3]));
    let long: Vec<u8> = (0..40).collect();
    assert_eq!(debug_message_from_bytes(&long), expected(&long));
}

#[test]
fn new_queue_is_empty() {
    let mut q = DebugQueue::new();
    assert!(is_debug_queue_empty(&q));
    assert_eq!(dequeue_debug_message(&mut q), None);
    assert!(is_debug_queue_empty(&q));
}

#[test]
fn queue_is_first_in_first_out() {
    let mut q = DebugQueue::new();
    let a = debug_message_from_str("first");
    let b = debug_message_from_str("second");
    let c = debug_message_from_str("third");
    enqueue_debug_message(&mut q, a);
    enqueue_debug_message(&mut q, b);
    assert_eq!(dequeue_debug_message(&mut q), Some(a));
    enqueue_debug_message(&mut q, c);
    assert_eq!(dequeue_debug_message(&mut q), Some(b));
    assert_eq!(dequeue_debug_message(&mut q), Some(c));
    assert_eq!(dequeue_debug_message(&mut q), None);
}

#[test]
fn dequeue_after_enqueue_on_empty_queue_gives_the_message_back() {
    let mut q = DebugQueue::new();
    let m = debug_message_from_str("ping");
    enqueue_debug_message(&mut q, m);
    assert!(!is_debug_queue_empty(&q));
    assert_eq!(dequeue_debug_message(&mut q), Some(m));
    assert!(is_debug_queue_empty(&q));
}

#[test]
fn queue_keeps_equal_messages_apart() {
    let mut q = DebugQueue::new();
    let m = debug_message_from_str("same");
    enqueue_debug_message(&mut q, m);
    enqueue_debug_message(&mut q, m);
    assert_eq!(dequeue_debug_message(&mut q), Some(m));
    assert_eq!(dequeue_debug_message(&mut q), Some(m));
    assert!(is_debug_queue_empty(&q));
}
