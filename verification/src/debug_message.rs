//! Fixed-size debug messages and the first-in, first-out queue that holds them
//! until they are sent.
use std::collections::VecDeque;
use vstd::prelude::*;

verus! {

/// The number of bytes in one debug message.
pub const DEBUG_MESSAGE_LEN: usize = 32;

/// The bytes of a message built from `bytes`: the first `DEBUG_MESSAGE_LEN`
/// bytes of it, and zeros after its end.
pub open spec fn padded_message(bytes: Seq<u8>) -> Seq<u8> {
    Seq::new(DEBUG_MESSAGE_LEN as nat, |i: int| if i < bytes.len() { bytes[i] } else { 0u8 })
}

/// Builds a debug message from a byte string, cut after `DEBUG_MESSAGE_LEN`
/// bytes and filled up with zeros.
pub fn debug_message_from_bytes(bytes: &[u8]) -> (message: [u8; 32])
    ensures
        message@ == padded_message(bytes@),
        message@.len() == DEBUG_MESSAGE_LEN,
        forall|i: int|
            0 <= i < DEBUG_MESSAGE_LEN ==> #[trigger] message@[i] == if i < bytes@.len() {
                bytes@[i]
            } else {
                0u8
            },
{
    let mut message = [0u8; 32];
    let n: usize = if bytes.len() < DEBUG_MESSAGE_LEN { bytes.len() } else { DEBUG_MESSAGE_LEN };
    let mut i: usize = 0;
    while i < n
        invariant
            n <= bytes@.len(),
            n <= DEBUG_MESSAGE_LEN,
            n == bytes@.len() || n == DEBUG_MESSAGE_LEN,
            i <= n,
            message@.len() == DEBUG_MESSAGE_LEN,
            forall|j: int| 0 <= j < i ==> message@[j] == bytes@[j],
            forall|j: int| i <= j < DEBUG_MESSAGE_LEN ==> message@[j] == 0u8,
        decreases n - i,
    {
        message[i] = bytes[i];
        i = i + 1;
    }
    assert(message@ =~= padded_message(bytes@));
    message
}

/// Builds a debug message from the UTF-8 bytes of `s`, cut after
/// `DEBUG_MESSAGE_LEN` bytes and filled up with zeros.
pub fn debug_message_from_str(s: &str) -> (message: [u8; 32])
    ensures
        message@ == padded_message(vstd::utf8::encode_utf8(s@)),
        forall|i: int|
            0 <= i < DEBUG_MESSAGE_LEN ==> #[trigger] message@[i] == if i
                < vstd::utf8::encode_utf8(s@).len() {
                vstd::utf8::encode_utf8(s@)[i]
            } else {
                0u8
            },
        vstd::utf8::encode_utf8(s@).len() <= DEBUG_MESSAGE_LEN ==> vstd::utf8::decode_utf8(
            message@.subrange(0, vstd::utf8::encode_utf8(s@).len() as int),
        ) == s@,
{
    let message = debug_message_from_bytes(s.as_bytes());
    proof {
        lemma_short_string_round_trips(s@);
    }
    message
}

/// A message keeps each of the input's first `DEBUG_MESSAGE_LEN` bytes as it
/// is, at the same place, whatever the bytes are, and is zero after them: an
/// input that fits stands at the message's start, a longer one is cut after
/// `DEBUG_MESSAGE_LEN` bytes.
pub proof fn lemma_message_keeps_bytes(bytes: Seq<u8>)
    ensures
        padded_message(bytes).len() == DEBUG_MESSAGE_LEN,
        forall|i: int|
            0 <= i < DEBUG_MESSAGE_LEN ==> #[trigger] padded_message(bytes)[i] == if i
                < bytes.len() {
                bytes[i]
            } else {
                0u8
            },
        bytes.len() <= DEBUG_MESSAGE_LEN ==> padded_message(bytes).subrange(0, bytes.len() as int)
            == bytes,
        bytes.len() > DEBUG_MESSAGE_LEN ==> padded_message(bytes) == bytes.subrange(
            0,
            DEBUG_MESSAGE_LEN as int,
        ),
{
    assert(bytes.len() <= DEBUG_MESSAGE_LEN ==> padded_message(bytes).subrange(
        0,
        bytes.len() as int,
    ) =~= bytes);
    assert(bytes.len() > DEBUG_MESSAGE_LEN ==> padded_message(bytes) =~= bytes.subrange(
        0,
        DEBUG_MESSAGE_LEN as int,
    ));
}

/// Any string whose UTF-8 encoding fits in a message, ASCII or not, is given
/// back whole by decoding the message's bytes up to the encoding's length;
/// every byte after them is zero.
pub proof fn lemma_short_string_round_trips(s: Seq<char>)
    ensures
        vstd::utf8::encode_utf8(s).len() <= DEBUG_MESSAGE_LEN ==> vstd::utf8::decode_utf8(
            padded_message(vstd::utf8::encode_utf8(s)).subrange(
                0,
                vstd::utf8::encode_utf8(s).len() as int,
            ),
        ) == s,
        forall|i: int|
            vstd::utf8::encode_utf8(s).len() <= i < DEBUG_MESSAGE_LEN ==> #[trigger] padded_message(
                vstd::utf8::encode_utf8(s),
            )[i] == 0u8,
{
    let bytes = vstd::utf8::encode_utf8(s);
    lemma_message_keeps_bytes(bytes);
    vstd::utf8::encode_utf8_decode_utf8(s);
}

/// A first-in, first-out queue of debug messages.
pub struct DebugQueue {
    messages: VecDeque<[u8; 32]>,
}

impl View for DebugQueue {
    type V = Seq<[u8; 32]>;

    /// The queued messages, oldest first.
    closed spec fn view(&self) -> Seq<[u8; 32]> {
        self.messages@
    }
}

/// The queue `queue` with `message` added at its back.
pub open spec fn enqueued(queue: Seq<[u8; 32]>, message: [u8; 32]) -> Seq<[u8; 32]> {
    queue.push(message)
}

/// What taking the front of `queue` gives: its oldest message and the rest,
/// or nothing and the queue unchanged when it is empty.
pub open spec fn dequeued(queue: Seq<[u8; 32]>) -> (Option<[u8; 32]>, Seq<[u8; 32]>) {
    if queue.len() == 0 {
        (None, queue)
    } else {
        (Some(queue[0]), queue.drop_first())
    }
}

impl DebugQueue {
    /// An empty queue.
    pub fn new() -> (queue: DebugQueue)
        ensures
            queue@ == Seq::<[u8; 32]>::empty(),
    {
        DebugQueue { messages: VecDeque::new() }
    }
}

/// Adds `message` at the back of the queue.
pub fn enqueue_debug_message(queue: &mut DebugQueue, message: [u8; 32])
    ensures
        final(queue)@ == enqueued(old(queue)@, message),
{
    queue.messages.push_back(message);
}

/// Takes the oldest message from the queue; `None` when the queue is empty.
pub fn dequeue_debug_message(queue: &mut DebugQueue) -> (message: Option<[u8; 32]>)
    ensures
        (message, final(queue)@) == dequeued(old(queue)@),
{
    let message = queue.messages.pop_front();
    assert(queue.messages@ =~= dequeued(old(queue)@).1);
    message
}

/// Whether the queue holds no message.
pub fn is_debug_queue_empty(queue: &DebugQueue) -> (empty: bool)
    ensures
        empty == (queue@.len() == 0),
{
    queue.messages.len() == 0
}

/// The messages that taking the front of `queue` again and again delivers,
/// in the order they come out, until the queue is empty.
pub open spec fn drained(queue: Seq<[u8; 32]>) -> Seq<[u8; 32]>
    decreases queue.len(),
{
    if queue.len() == 0 {
        Seq::empty()
    } else {
        seq![dequeued(queue).0.unwrap()] + drained(dequeued(queue).1)
    }
}

/// The queue `queue` after each of `messages` was added at its back, first
/// to last.
pub open spec fn enqueued_all(queue: Seq<[u8; 32]>, messages: Seq<[u8; 32]>) -> Seq<[u8; 32]>
    decreases messages.len(),
{
    if messages.len() == 0 {
        queue
    } else {
        enqueued_all(enqueued(queue, messages[0]), messages.drop_first())
    }
}

proof fn lemma_enqueued_all_appends(queue: Seq<[u8; 32]>, messages: Seq<[u8; 32]>)
    ensures
        enqueued_all(queue, messages) == queue + messages,
    decreases messages.len(),
{
    if messages.len() > 0 {
        lemma_enqueued_all_appends(enqueued(queue, messages[0]), messages.drop_first());
        assert(enqueued(queue, messages[0]) + messages.drop_first() =~= queue + messages);
    } else {
        assert(queue + messages =~= queue);
    }
}

proof fn lemma_drained_is_queue(queue: Seq<[u8; 32]>)
    ensures
        drained(queue) == queue,
    decreases queue.len(),
{
    if queue.len() > 0 {
        lemma_drained_is_queue(queue.drop_first());
        assert(seq![queue[0]] + queue.drop_first() =~= queue);
    }
}

/// First in, first out: messages added to a queue one after another come out
/// after the messages it held before, in the order in which they were added.
pub proof fn lemma_first_in_first_out(queue: Seq<[u8; 32]>, messages: Seq<[u8; 32]>)
    ensures
        drained(enqueued_all(queue, messages)) == queue + messages,
{
    lemma_enqueued_all_appends(queue, messages);
    lemma_drained_is_queue(queue + messages);
}

/// Adding a message and then taking one: an empty queue gives back the
/// message just added; any other queue gives its oldest message and keeps
/// the new one at its back.
pub proof fn lemma_dequeue_after_enqueue(queue: Seq<[u8; 32]>, message: [u8; 32])
    ensures
        queue.len() == 0 ==> dequeued(enqueued(queue, message)) == (
        Some(message), Seq::<[u8; 32]>::empty()),
        queue.len() > 0 ==> dequeued(enqueued(queue, message)) == (
        Some(queue[0]), enqueued(queue.drop_first(), message)),
{
    assert(queue.len() == 0 ==> enqueued(queue, message).drop_first() =~= Seq::<
        [u8; 32],
    >::empty());
    assert(queue.len() > 0 ==> enqueued(queue, message).drop_first() =~= enqueued(
        queue.drop_first(),
        message,
    ));
}

/// A queue is empty exactly when taking from it gives nothing, and a queue
/// that a message was just added to is never empty.
pub proof fn lemma_empty_iff_nothing_to_dequeue(queue: Seq<[u8; 32]>, message: [u8; 32])
    ensures
        (queue.len() == 0) <==> dequeued(queue).0 is None,
        enqueued(queue, message).len() != 0,
{
}

/// For a string of ASCII characters, each of the message's first bytes is
/// the code of the character at the same place, and the rest are zeros.
pub proof fn lemma_ascii_message(s: Seq<char>)
    requires
        vstd::utf8::is_ascii_chars(s),
    ensures
        forall|i: int|
            0 <= i < DEBUG_MESSAGE_LEN ==> #[trigger] padded_message(vstd::utf8::encode_utf8(s))[i]
                == if i < s.len() {
                s[i] as u8
            } else {
                0u8
            },
{
    vstd::utf8::is_ascii_chars_encode_utf8(s);
}

} // verus!
