//! What holds of packet framing, whatever the payload.

use vstd::prelude::*;
use vstd::utf8::{encode_utf8, encode_utf8_decode_utf8, encode_utf8_valid_utf8};
use crate::gdb_remote::{
    checksum, first_packet, framed, fresh_reader, hex_pair_bytes, payload_text, reader_step,
    ReadPhase, ReadStepView, ReaderView,
};
use crate::gdb_client::{
    client_step, ClientView, Waiting, WireActionView, WireEventView,
};
use crate::text::lemma_encoded_without;
use crate::hex::{all_hex, hex_char, hex_digit, hex_lower, hex_value, parse_hex_pair, parse_hex_u64};

verus! {

/// The two digits written for a byte read back as that byte.
pub proof fn lemma_hex_pair_round_trip(b: u8)
    ensures
        parse_hex_pair(hex_pair_bytes(b)[0] as char, hex_pair_bytes(b)[1] as char) == Some(b),
{
    let hi = b as int / 16;
    let lo = b as int % 16;
    assert(hex_digit(hex_char(hi)) == Some(hi as u8));
    assert(hex_digit(hex_char(lo)) == Some(lo as u8));
    assert((hex_char(hi) as u8) as char == hex_char(hi));
    assert((hex_char(lo) as u8) as char == hex_char(lo));
}

proof fn lemma_body_reads(data: Seq<u8>, payload: Seq<u8>, tail: Seq<u8>)
    requires
        forall|i: int| 0 <= i < payload.len() ==> payload[i] != 0x23,
    ensures
        first_packet(
            ReaderView { phase: ReadPhase::Body, data, first: 0 },
            payload + tail,
        ) == first_packet(
            ReaderView { phase: ReadPhase::Body, data: data + payload, first: 0 },
            tail,
        ),
    decreases payload.len(),
{
    if payload.len() == 0 {
        assert(payload + tail == tail);
        assert(data + payload == data);
    } else {
        let rest = payload.drop_first();
        assert((payload + tail).drop_first() == rest + tail);
        assert((payload + tail)[0] == payload[0]);
        assert forall|i: int| 0 <= i < rest.len() implies rest[i] != 0x23 by {
            assert(rest[i] == payload[i + 1]);
        }
        lemma_body_reads(data.push(payload[0]), rest, tail);
        assert(data.push(payload[0]) + rest == data + payload);
    }
}

/// Reading what was framed gives back the payload: for every payload
/// without `#`, the first packet in its frame, whatever follows the frame,
/// is that payload. (A `#` inside a payload would end it early; only
/// payloads that hold one are left out.)
pub proof fn lemma_decode_encode(payload: Seq<u8>, rest: Seq<u8>)
    requires
        forall|i: int| 0 <= i < payload.len() ==> payload[i] != 0x23,
    ensures
        first_packet(fresh_reader(), framed(payload) + rest) == ReadStepView::Packet(payload),
{
    let sum = checksum(payload);
    let digits = hex_pair_bytes(sum);
    let bytes = framed(payload) + rest;
    let after_dollar = payload + (seq![0x23u8] + digits + rest);
    assert(bytes.drop_first() == after_dollar);
    assert(bytes[0] == 0x24);
    let body = ReaderView { phase: ReadPhase::Body, data: Seq::empty(), first: 0 };
    assert(first_packet(fresh_reader(), bytes) == first_packet(body, after_dollar));
    let tail = seq![0x23u8] + digits + rest;
    lemma_body_reads(Seq::empty(), payload, tail);
    assert(Seq::<u8>::empty() + payload == payload);
    let full = ReaderView { phase: ReadPhase::Body, data: payload, first: 0 };
    let t1 = tail.drop_first();
    assert(tail[0] == 0x23);
    assert(t1 == digits + rest);
    let first = ReaderView { phase: ReadPhase::First, data: payload, first: 0 };
    assert(first_packet(full, tail) == first_packet(first, t1));
    let t2 = t1.drop_first();
    assert(t1[0] == digits[0]);
    let second = ReaderView { phase: ReadPhase::Second, data: payload, first: digits[0] };
    assert(first_packet(first, t1) == first_packet(second, t2));
    assert(t2[0] == digits[1]);
    lemma_hex_pair_round_trip(sum);
    assert(reader_step(second, t2[0]).1 == ReadStepView::Packet(payload));
}

proof fn lemma_hex_lower_reads(n: nat)
    ensures
        hex_lower(n).len() > 0,
        all_hex(hex_lower(n)),
        hex_value(hex_lower(n)) == n,
    decreases n,
{
    let digits = hex_lower(n);
    if n >= 16 {
        lemma_hex_lower_reads(n / 16);
        let head = hex_lower(n / 16);
        assert(digits.drop_last() == head);
        assert(hex_digit(hex_char((n % 16) as int)) == Some((n % 16) as u8));
        assert forall|i: int| 0 <= i < digits.len() implies hex_digit(
            #[trigger] digits[i],
        ) is Some by {
            if i < head.len() {
                assert(digits[i] == head[i]);
            }
        }
    } else {
        assert(digits.drop_last() == Seq::<char>::empty());
        assert(hex_value(Seq::<char>::empty()) == 0);
        assert(hex_digit(hex_char(n as int)) == Some(n as u8));
    }
}

/// An address written in hexadecimal reads back as the address.
pub proof fn lemma_hex_round_trip(n: u64)
    ensures
        parse_hex_u64(hex_lower(n as nat)) == Some(n),
{
    lemma_hex_lower_reads(n as nat);
}

/// Whether a client with acknowledgements switched off waits for none.
pub open spec fn quiet(c: ClientView) -> bool {
    c.no_ack_mode ==> !(c.waiting is Ack) && c.waiting != Waiting::AckWritten
}

/// Once acknowledgements are switched off they stay off, and the client
/// neither waits for an acknowledgement nor writes one.
pub proof fn lemma_no_ack_mode_is_quiet(c: ClientView, event: WireEventView)
    requires
        c.no_ack_mode,
        quiet(c),
    ensures
        client_step(c, event).0.no_ack_mode,
        quiet(client_step(c, event).0),
        client_step(c, event).1 != WireActionView::Write(seq![0x2bu8]),
{
    let action = client_step(c, event).1;
    if let WireActionView::Write(bytes) = action {
        assert(bytes.len() >= 4 || bytes != seq![0x2bu8]);
        assert(seq![0x2bu8].len() == 1);
    }
}

/// Acknowledgements are switched off only by the stub's `OK` to the
/// request to switch them off.
pub proof fn lemma_no_ack_mode_begins_at_ok(c: ClientView, event: WireEventView)
    requires
        !c.no_ack_mode,
        client_step(c, event).0.no_ack_mode,
    ensures
        c.goal == crate::gdb_client::Goal::Handshake(crate::gdb_client::Stage::NoAck),
{
}

/// Text that is framed and read comes back as it was: for every text
/// without `#`, the first packet in the frame of its bytes holds that text.
pub proof fn lemma_text_round_trip(text: Seq<char>, rest: Seq<u8>)
    requires
        forall|i: int| 0 <= i < text.len() ==> #[trigger] text[i] != '#',
    ensures
        first_packet(fresh_reader(), framed(encode_utf8(text)) + rest) == ReadStepView::Packet(
            encode_utf8(text),
        ),
        payload_text(encode_utf8(text)) == text,
{
    assert(0x23u8 as char == '#');
    lemma_encoded_without(text, 0x23);
    lemma_decode_encode(encode_utf8(text), rest);
    encode_utf8_valid_utf8(text);
    encode_utf8_decode_utf8(text);
}

} // verus!
