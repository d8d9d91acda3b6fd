//! The debug report of the radio's state: "Radio State: " followed by the
//! state number in decimal, as one debug message.
use crate::debug_message::{
    debug_message_from_bytes, enqueue_debug_message, lemma_message_keeps_bytes, padded_message,
    DebugQueue, DEBUG_MESSAGE_LEN,
};
use vstd::prelude::*;

verus! {

/// The ASCII decimal digits of `n`, most significant first, without leading
/// zeros ("0" for zero), as Rust's `Display` writes an unsigned integer.
pub open spec fn decimal_digits(n: nat) -> Seq<u8>
    decreases n,
{
    if n < 10 {
        seq![(48 + n) as u8]
    } else {
        decimal_digits(n / 10).push((48 + n % 10) as u8)
    }
}

/// The number that a string of ASCII decimal digits denotes.
pub open spec fn decimal_value(digits: Seq<u8>) -> nat
    decreases digits.len(),
{
    if digits.len() == 0 {
        0
    } else {
        decimal_value(digits.drop_last()) * 10 + (digits.last() - 48) as nat
    }
}

/// The text that reports radio state `state`.
pub open spec fn radio_state_text(state: u32) -> Seq<u8> {
    vstd::utf8::encode_utf8("Radio State: "@) + decimal_digits(state as nat)
}

/// Appends the decimal digits of `n` to `out`.
fn push_decimal(n: u32, out: &mut Vec<u8>)
    ensures
        final(out)@ == old(out)@ + decimal_digits(n as nat),
    decreases n,
{
    if n >= 10 {
        push_decimal(n / 10, out);
    }
    let digit: u8 = (n % 10) as u8;
    out.push(48 + digit);
    assert(final(out)@ =~= old(out)@ + decimal_digits(n as nat));
}

/// The debug message that reports radio state `state`.
pub fn radio_state_message(state: u32) -> (message: [u8; 32])
    ensures
        message@ == padded_message(radio_state_text(state)),
        states_radio_state(message@, state),
{
    let prefix: &[u8] = "Radio State: ".as_bytes();
    let mut text: Vec<u8> = Vec::new();
    let mut i: usize = 0;
    while i < prefix.len()
        invariant
            i <= prefix@.len(),
            text@ == prefix@.subrange(0, i as int),
        decreases prefix@.len() - i,
    {
        text.push(prefix[i]);
        i = i + 1;
        assert(text@ =~= prefix@.subrange(0, i as int));
    }
    assert(text@ =~= prefix@);
    push_decimal(state, &mut text);
    let message = debug_message_from_bytes(text.as_slice());
    proof {
        lemma_message_names_state(state);
    }
    message
}

/// Queues the debug message that reports radio state `state`.
pub fn record_radio_state(queue: &mut DebugQueue, state: u32)
    ensures
        final(queue)@.len() == old(queue)@.len() + 1,
        final(queue)@.drop_last() == old(queue)@,
        final(queue)@.last()@ == padded_message(radio_state_text(state)),
        states_radio_state(final(queue)@.last()@, state),
{
    let message = radio_state_message(state);
    enqueue_debug_message(queue, message);
    assert(final(queue)@.drop_last() =~= old(queue)@);
}

/// Ten to the power `k`.
pub open spec fn pow10(k: nat) -> nat
    decreases k,
{
    if k == 0 {
        1
    } else {
        10 * pow10((k - 1) as nat)
    }
}

proof fn lemma_decimal_len_bound(n: nat, k: nat)
    requires
        k >= 1,
        n < pow10(k),
    ensures
        decimal_digits(n).len() <= k,
    decreases k,
{
    if n >= 10 {
        assert(k >= 2) by {
            if k == 1 {
                assert(pow10(1) == 10 * pow10(0));
            }
        }
        assert(pow10(k) == 10 * pow10((k - 1) as nat));
        lemma_decimal_len_bound(n / 10, (k - 1) as nat);
    }
}

/// Each digit is an ASCII decimal digit, the first one is not `'0'` unless
/// `n` is zero, and reading the digits back gives `n`.
pub proof fn lemma_decimal_round_trip(n: nat)
    ensures
        forall|i: int|
            0 <= i < decimal_digits(n).len() ==> 48 <= #[trigger] decimal_digits(n)[i] <= 57,
        decimal_digits(n).len() >= 1,
        n != 0 ==> decimal_digits(n)[0] != 48,
        decimal_value(decimal_digits(n)) == n,
    decreases n,
{
    if n >= 10 {
        lemma_decimal_round_trip(n / 10);
        let d = decimal_digits(n);
        assert(d.drop_last() =~= decimal_digits(n / 10));
        assert(d.last() == (48 + n % 10) as u8);
        assert((d.last() - 48) as nat == n % 10);
        assert(n == (n / 10) * 10 + n % 10);
        assert(decimal_value(d) == decimal_value(d.drop_last()) * 10 + (d.last() - 48) as nat);
    } else {
        let d = decimal_digits(n);
        assert(d.drop_last() =~= Seq::<u8>::empty());
        assert(decimal_value(d.drop_last()) == 0);
        assert(decimal_value(d) == decimal_value(d.drop_last()) * 10 + (d.last() - 48) as nat);
    }
}

/// The whole report fits in one debug message: the message starts with the
/// bytes of "Radio State: ", then the digits of the state, then zeros.
pub proof fn lemma_radio_state_fits(state: u32)
    ensures
        radio_state_text(state).len() <= DEBUG_MESSAGE_LEN,
        padded_message(radio_state_text(state)).subrange(0, radio_state_text(state).len() as int)
            == radio_state_text(state),
        vstd::utf8::encode_utf8("Radio State: "@) =~= seq![
            82u8, 97, 100, 105, 111, 32, 83, 116, 97, 116, 101, 58, 32
        ],
{
    reveal_strlit("Radio State: ");
    let prefix = "Radio State: "@;
    assert(vstd::utf8::is_ascii_chars(prefix));
    vstd::utf8::is_ascii_chars_encode_utf8(prefix);
    reveal_with_fuel(pow10, 11);
    assert(pow10(10) == 10000000000);
    lemma_decimal_len_bound(state as nat, 10);
    assert(padded_message(radio_state_text(state)).subrange(0, radio_state_text(state).len() as int)
        =~= radio_state_text(state));
}

/// The bytes of "Radio State: ".
pub open spec fn radio_state_prefix() -> Seq<u8> {
    seq![82u8, 97, 100, 105, 111, 32, 83, 116, 97, 116, 101, 58, 32]
}

/// Whether the 32-byte `message` reads "Radio State: " followed by `state`
/// in decimal (ASCII digits that read back to `state`, without a leading
/// zero), then zeros to the end.
pub open spec fn states_radio_state(message: Seq<u8>, state: u32) -> bool {
    exists|end: int|
        #![trigger message.subrange(13, end)]
        {
            &&& 14 <= end <= DEBUG_MESSAGE_LEN
            &&& message.len() == DEBUG_MESSAGE_LEN
            &&& message.subrange(0, 13) == radio_state_prefix()
            &&& forall|i: int| 13 <= i < end ==> 48 <= #[trigger] message[i] <= 57
            &&& decimal_value(message.subrange(13, end)) == state
            &&& (state != 0 ==> message[13] != 48)
            &&& forall|i: int| end <= i < DEBUG_MESSAGE_LEN ==> #[trigger] message[i] == 0u8
        }
}

/// The report names the state it was made for: after "Radio State: " come
/// ASCII decimal digits, without a leading zero, that read back to the
/// state, and zeros after them; for every state.
pub proof fn lemma_message_names_state(state: u32)
    ensures
        states_radio_state(padded_message(radio_state_text(state)), state),
{
    lemma_radio_state_fits(state);
    lemma_decimal_round_trip(state as nat);
    lemma_message_keeps_bytes(radio_state_text(state));
    let text = radio_state_text(state);
    let m = padded_message(text);
    let end = text.len() as int;
    let digits = decimal_digits(state as nat);
    assert(text.subrange(13, end) =~= digits);
    assert(m.subrange(13, end) =~= digits);
    assert(m.subrange(0, 13) =~= radio_state_prefix());
    assert(forall|i: int| 13 <= i < end ==> m[i] == digits[i - 13]);
    assert(m[13] == digits[0]);
}

} // verus!
