//! The GDB remote serial protocol: packets, checksums and stop replies.

use vstd::prelude::*;
use vstd::slice::slice_subrange;
use vstd::utf8::{decode_utf8, valid_utf8};
use crate::hex::{
    hex_char, hex_char_of, hex_digit_of, parse_hex, parse_hex_pair, parse_hex_u64,
};
use crate::text::{chars_of, has_prefix, is_word, starts_with, string_of};

verus! {

/// Why an exchange with the stub failed.
#[derive(Debug)]
pub enum GdbRemoteError {
    /// The transport failed; the text is its message.
    Io(String),
    /// The stub answered a packet with something other than `OK`.
    Remote(String),
    /// A packet arrived whose checksum does not match its payload.
    BadChecksum,
    /// The stub sent something in place of an acknowledgement.
    UnexpectedReply(String),
}

/// Why the target stopped.
#[derive(Debug, Clone)]
pub enum StopReason {
    Breakpoint,
    Step,
    Signal,
    Unknown(String),
}

/// A stop reply: the signal, the thread where the reply names one, and the
/// reason.
#[derive(Debug, Clone)]
pub struct StopReply {
    pub signal: u8,
    pub thread_id: Option<u64>,
    pub reason: StopReason,
}

/// A stop reason, with text as a sequence of characters.
pub enum StopReasonView {
    Breakpoint,
    Step,
    Signal,
    Unknown(Seq<char>),
}

/// A stop reply, with text as a sequence of characters.
pub struct StopReplyView {
    pub signal: u8,
    pub thread_id: Option<u64>,
    pub reason: StopReasonView,
}

impl View for StopReason {
    type V = StopReasonView;

    open spec fn view(&self) -> StopReasonView {
        match self {
            StopReason::Breakpoint => StopReasonView::Breakpoint,
            StopReason::Step => StopReasonView::Step,
            StopReason::Signal => StopReasonView::Signal,
            StopReason::Unknown(text) => StopReasonView::Unknown(text@),
        }
    }
}

impl View for StopReply {
    type V = StopReplyView;

    open spec fn view(&self) -> StopReplyView {
        StopReplyView { signal: self.signal, thread_id: self.thread_id, reason: self.reason@ }
    }
}

/// The sum of the bytes of a payload, modulo 256.
pub open spec fn checksum(payload: Seq<u8>) -> u8
    decreases payload.len(),
{
    if payload.len() == 0 {
        0
    } else {
        ((checksum(payload.drop_last()) + payload.last()) % 256) as u8
    }
}

/// The two lower-case hexadecimal digits of a byte, as bytes.
pub open spec fn hex_pair_bytes(b: u8) -> Seq<u8> {
    seq![hex_char(b as int / 16) as u8, hex_char(b as int % 16) as u8]
}

/// A payload as it goes over the wire: `$`, the payload, `#` and the two
/// hexadecimal digits of its checksum.
pub open spec fn framed(payload: Seq<u8>) -> Seq<u8> {
    seq![0x24u8] + payload + seq![0x23u8] + hex_pair_bytes(checksum(payload))
}

/// Computes the checksum of a payload.
pub fn packet_checksum(payload: &[u8]) -> (sum: u8)
    ensures
        sum == checksum(payload@),
{
    let mut sum: u8 = 0;
    let mut i: usize = 0;
    while i < payload.len()
        invariant
            i <= payload.len(),
            sum == checksum(payload@.take(i as int)),
        decreases payload.len() - i,
    {
        proof {
            assert(payload@.take(i as int + 1).drop_last() == payload@.take(i as int));
        }
        sum = sum.wrapping_add(payload[i]);
        i += 1;
    }
    proof {
        assert(payload@.take(payload.len() as int) == payload@);
    }
    sum
}

/// Frames a payload for the wire.
pub fn encode_packet(payload: &[u8]) -> (packet: Vec<u8>)
    ensures
        packet@ == framed(payload@),
{
    let mut packet: Vec<u8> = Vec::new();
    packet.push(0x24u8);
    let mut i: usize = 0;
    while i < payload.len()
        invariant
            i <= payload.len(),
            packet@ == seq![0x24u8] + payload@.take(i as int),
        decreases payload.len() - i,
    {
        packet.push(payload[i]);
        i += 1;
    }
    proof {
        assert(payload@.take(payload.len() as int) == payload@);
    }
    let sum = packet_checksum(payload);
    packet.push(0x23u8);
    packet.push(hex_char_of(sum / 16) as u8);
    packet.push(hex_char_of(sum % 16) as u8);
    packet
}

/// The length of the first field of `s`: up to its first `;`, or all of it.
pub open spec fn field_len(s: Seq<char>) -> int
    decreases s.len(),
{
    if s.len() == 0 || s[0] == ';' {
        0
    } else {
        1 + field_len(s.drop_first())
    }
}

/// The stop reason that a `reason:` field names.
pub open spec fn reason_of(word: Seq<char>) -> StopReasonView {
    if word == "breakpoint"@ {
        StopReasonView::Breakpoint
    } else if word == "single-step"@ {
        StopReasonView::Step
    } else {
        StopReasonView::Unknown(word)
    }
}

/// The thread and reason after one field of a `T` reply is read. A
/// `thread:` field sets the thread where what follows is a 64-bit number in
/// hexadecimal; a `reason:` field sets the reason; any other field changes
/// nothing.
pub open spec fn after_field(
    field: Seq<char>,
    state: (Option<u64>, StopReasonView),
) -> (Option<u64>, StopReasonView) {
    if has_prefix(field, "thread:"@) {
        match parse_hex_u64(field.skip("thread:"@.len() as int)) {
            Some(id) => (Some(id), state.1),
            None => state,
        }
    } else if has_prefix(field, "reason:"@) {
        (state.0, reason_of(field.skip("reason:"@.len() as int)))
    } else {
        state
    }
}

/// The thread and reason after the `;`-separated fields of `s` are read, one
/// after the other.
pub open spec fn after_fields(
    s: Seq<char>,
    state: (Option<u64>, StopReasonView),
) -> (Option<u64>, StopReasonView)
    decreases s.len(),
{
    let n = field_len(s);
    let next = after_field(s.take(n), state);
    if 0 <= n < s.len() {
        after_fields(s.skip(n + 1), next)
    } else {
        next
    }
}

/// What a reply packet says of a stop. `Sxx` is a signal; `Txx` followed by
/// `key:value;` fields is a signal with, where the fields give them, a thread
/// and a reason; `xx` is two hexadecimal digits. Anything else is no stop
/// reply.
pub open spec fn stop_reply_of(reply: Seq<char>) -> Option<StopReplyView> {
    if reply.len() < 3 {
        None
    } else if reply[0] == 'S' {
        match parse_hex_pair(reply[1], reply[2]) {
            Some(signal) => Some(
                StopReplyView { signal, thread_id: None, reason: StopReasonView::Signal },
            ),
            None => None,
        }
    } else if reply[0] == 'T' {
        match parse_hex_pair(reply[1], reply[2]) {
            Some(signal) => {
                let (thread_id, reason) = after_fields(
                    reply.skip(3),
                    (None, StopReasonView::Unknown("signal"@)),
                );
                Some(StopReplyView { signal, thread_id, reason })
            },
            None => None,
        }
    } else {
        None
    }
}

/// The view of an optional stop reply.
pub open spec fn stop_reply_view(reply: Option<StopReply>) -> Option<StopReplyView> {
    match reply {
        Some(r) => Some(r@),
        None => None,
    }
}

proof fn lemma_field_len(s: Seq<char>, n: int)
    requires
        0 <= n <= s.len(),
        forall|k: int| 0 <= k < n ==> s[k] != ';',
        n < s.len() ==> s[n] == ';',
    ensures
        field_len(s) == n,
    decreases n,
{
    if n > 0 {
        let tail = s.drop_first();
        assert forall|k: int| 0 <= k < n - 1 implies tail[k] != ';' by {
            assert(tail[k] == s[k + 1]);
        }
        lemma_field_len(tail, n - 1);
    }
}

/// Reads the two hexadecimal digits of a byte.
pub(crate) fn parse_pair(hi: char, lo: char) -> (b: Option<u8>)
    ensures
        b == parse_hex_pair(hi, lo),
{
    match hex_digit_of(hi) {
        Some(h) => match hex_digit_of(lo) {
            Some(l) => Some(h * 16 + l),
            None => None,
        },
        None => None,
    }
}

/// Reads one field of a `T` reply.
fn read_field(field: &[char], thread_id: Option<u64>, reason: StopReason) -> (next: (
    Option<u64>,
    StopReason,
))
    ensures
        (next.0, next.1@) == after_field(field@, (thread_id, reason@)),
{
    let thread_key = chars_of("thread:");
    let reason_key = chars_of("reason:");
    if starts_with(field, thread_key.as_slice()) {
        let n = thread_key.len();
        proof {
            assert(field@.subrange(n as int, field@.len() as int) == field@.skip(n as int));
        }
        match parse_hex(slice_subrange(field, n, field.len())) {
            Some(id) => (Some(id), reason),
            None => (thread_id, reason),
        }
    } else if starts_with(field, reason_key.as_slice()) {
        let n = reason_key.len();
        let word = slice_subrange(field, n, field.len());
        proof {
            assert(field@.subrange(n as int, field@.len() as int) == field@.skip(n as int));
        }
        let reason = if is_word(word, "breakpoint") {
            StopReason::Breakpoint
        } else if is_word(word, "single-step") {
            StopReason::Step
        } else {
            StopReason::Unknown(string_of(word))
        };
        (thread_id, reason)
    } else {
        (thread_id, reason)
    }
}

/// Reads a stop reply out of a reply packet; `None` where the packet is not
/// one.
pub fn parse_stop_reply(reply: &str) -> (parsed: Option<StopReply>)
    ensures
        stop_reply_view(parsed) == stop_reply_of(reply@),
{
    let chars = chars_of(reply);
    if chars.len() < 3 {
        return None;
    }
    let kind = chars[0];
    if kind != 'S' && kind != 'T' {
        return None;
    }
    let signal = match parse_pair(chars[1], chars[2]) {
        Some(signal) => signal,
        None => {
            return None;
        },
    };
    if kind == 'S' {
        return Some(StopReply { signal, thread_id: None, reason: StopReason::Signal });
    }
    let mut thread_id: Option<u64> = None;
    let mut reason = StopReason::Unknown("signal".to_owned());
    let mut start: usize = 3;
    let mut done = false;
    proof {
        assert(chars@.skip(3).skip(0) == chars@.skip(3));
    }
    while !done
        invariant
            3 <= start <= chars.len(),
            !done ==> after_fields(chars@.skip(start as int), (thread_id, reason@))
                == after_fields(
                chars@.skip(3),
                (None, StopReasonView::Unknown("signal"@)),
            ),
            done ==> (thread_id, reason@) == after_fields(
                chars@.skip(3),
                (None, StopReasonView::Unknown("signal"@)),
            ),
        decreases chars.len() - start + if done { 0int } else { 1int },
    {
        let ghost rest = chars@.skip(start as int);
        let mut end: usize = start;
        while end < chars.len() && chars[end] != ';'
            invariant
                start <= end <= chars.len(),
                forall|k: int| start <= k < end ==> chars@[k] != ';',
            decreases chars.len() - end,
        {
            end += 1;
        }
        proof {
            lemma_field_len(rest, end - start);
            assert(rest.take(end - start) == chars@.subrange(start as int, end as int));
            if end < chars.len() {
                assert(rest.skip(end - start + 1) == chars@.skip(end as int + 1));
            }
        }
        let next = read_field(slice_subrange(chars.as_slice(), start, end), thread_id, reason);
        thread_id = next.0;
        reason = next.1;
        if end < chars.len() {
            start = end + 1;
        } else {
            done = true;
        }
    }
    Some(StopReply { signal, thread_id, reason })
}

/// Where a packet reader stands: looking for `$`, inside the payload, or at
/// the first or second digit of the checksum.
#[derive(Debug, Clone, Copy, PartialEq, Eq, Structural)]
pub enum ReadPhase {
    Seek,
    Body,
    First,
    Second,
}

/// Reads packets out of a stream, one byte at a time.
pub struct PacketReader {
    phase: ReadPhase,
    data: Vec<u8>,
    first: u8,
}

/// A packet reader as a value: its phase, the payload bytes read so far and,
/// in the last phase, the first digit of the checksum.
pub struct ReaderView {
    pub phase: ReadPhase,
    pub data: Seq<u8>,
    pub first: u8,
}

/// What one byte did to a packet reader.
#[derive(Debug)]
pub enum ReadStep {
    /// The packet is not complete.
    More,
    /// A packet is complete and its checksum matches; this is its payload.
    Packet(Vec<u8>),
    /// A packet is complete and its checksum does not match.
    BadChecksum,
}

/// A `ReadStep` with its payload as a sequence.
pub enum ReadStepView {
    More,
    Packet(Seq<u8>),
    BadChecksum,
}

impl View for ReadStep {
    type V = ReadStepView;

    open spec fn view(&self) -> ReadStepView {
        match self {
            ReadStep::More => ReadStepView::More,
            ReadStep::Packet(p) => ReadStepView::Packet(p@),
            ReadStep::BadChecksum => ReadStepView::BadChecksum,
        }
    }
}

/// The reader that has read nothing.
pub open spec fn fresh_reader() -> ReaderView {
    ReaderView { phase: ReadPhase::Seek, data: Seq::empty(), first: 0 }
}

/// The reader after one more byte, and what that byte completed. Bytes
/// before `$` are skipped; bytes up to `#` are the payload; the two bytes
/// after `#` must be the hexadecimal digits of the payload's checksum.
pub open spec fn reader_step(r: ReaderView, byte: u8) -> (ReaderView, ReadStepView) {
    match r.phase {
        ReadPhase::Seek => if byte == 0x24 {
            (ReaderView { phase: ReadPhase::Body, data: Seq::empty(), first: 0 }, ReadStepView::More)
        } else {
            (fresh_reader(), ReadStepView::More)
        },
        ReadPhase::Body => if byte == 0x23 {
            (ReaderView { phase: ReadPhase::First, data: r.data, first: 0 }, ReadStepView::More)
        } else {
            (
                ReaderView { phase: ReadPhase::Body, data: r.data.push(byte), first: 0 },
                ReadStepView::More,
            )
        },
        ReadPhase::First => (
            ReaderView { phase: ReadPhase::Second, data: r.data, first: byte },
            ReadStepView::More,
        ),
        ReadPhase::Second => if parse_hex_pair(r.first as char, byte as char) == Some(
            checksum(r.data),
        ) {
            (fresh_reader(), ReadStepView::Packet(r.data))
        } else {
            (fresh_reader(), ReadStepView::BadChecksum)
        },
    }
}

/// The first packet in `bytes`, read by a reader in state `r`: the payload,
/// or that its checksum is wrong, or that `bytes` end before the packet does.
pub open spec fn first_packet(r: ReaderView, bytes: Seq<u8>) -> ReadStepView
    decreases bytes.len(),
{
    if bytes.len() == 0 {
        ReadStepView::More
    } else {
        let (next, step) = reader_step(r, bytes[0]);
        match step {
            ReadStepView::More => first_packet(next, bytes.drop_first()),
            _ => step,
        }
    }
}

impl View for PacketReader {
    type V = ReaderView;

    closed spec fn view(&self) -> ReaderView {
        ReaderView { phase: self.phase, data: self.data@, first: self.first }
    }
}

impl PacketReader {
    /// A reader that has read nothing.
    pub fn new() -> (reader: PacketReader)
        ensures
            reader@ == fresh_reader(),
    {
        PacketReader { phase: ReadPhase::Seek, data: Vec::new(), first: 0 }
    }

    /// Takes the next byte of the stream.
    pub fn push(&mut self, byte: u8) -> (step: ReadStep)
        ensures
            (final(self)@, step@) == reader_step(old(self)@, byte),
    {
        match self.phase {
            ReadPhase::Seek => {
                self.data = Vec::new();
                self.first = 0;
                if byte == 0x24 {
                    self.phase = ReadPhase::Body;
                }
                ReadStep::More
            },
            ReadPhase::Body => {
                self.first = 0;
                if byte == 0x23 {
                    self.phase = ReadPhase::First;
                } else {
                    self.data.push(byte);
                }
                ReadStep::More
            },
            ReadPhase::First => {
                self.first = byte;
                self.phase = ReadPhase::Second;
                ReadStep::More
            },
            ReadPhase::Second => {
                let sent = parse_pair(self.first as char, byte as char);
                let computed = packet_checksum(self.data.as_slice());
                let mut payload: Vec<u8> = Vec::new();
                core::mem::swap(&mut payload, &mut self.data);
                self.phase = ReadPhase::Seek;
                self.first = 0;
                match sent {
                    Some(sent) => if sent == computed {
                        ReadStep::Packet(payload)
                    } else {
                        ReadStep::BadChecksum
                    },
                    None => ReadStep::BadChecksum,
                }
            },
        }
    }
}

/// Reads the first packet out of `bytes`.
pub fn decode_packet(bytes: &[u8]) -> (step: ReadStep)
    ensures
        step@ == first_packet(fresh_reader(), bytes@),
{
    let mut reader = PacketReader::new();
    let mut i: usize = 0;
    proof {
        assert(bytes@.skip(0) == bytes@);
    }
    while i < bytes.len()
        invariant
            i <= bytes.len(),
            first_packet(reader@, bytes@.skip(i as int)) == first_packet(fresh_reader(), bytes@),
        decreases bytes.len() - i,
    {
        proof {
            assert(bytes@.skip(i as int).drop_first() == bytes@.skip(i as int + 1));
        }
        let step = reader.push(bytes[i]);
        match step {
            ReadStep::More => {},
            _ => {
                return step;
            },
        }
        i += 1;
    }
    ReadStep::More
}

/// The text that `String::from_utf8_lossy` gives for `bytes`: the text that
/// the bytes encode, with U+FFFD in place of each part that is not UTF-8.
pub uninterp spec fn utf8_lossy(bytes: Seq<u8>) -> Seq<char>;

/// `String::from_utf8_lossy`, which decodes UTF-8 and puts U+FFFD where the
/// bytes are not valid: bytes that are UTF-8 give the text that they encode.
#[verifier::external_body]
fn lossy_text(bytes: &[u8]) -> (text: String)
    ensures
        text@ == utf8_lossy(bytes@),
        valid_utf8(bytes@) ==> text@ == decode_utf8(bytes@),
{
    String::from_utf8_lossy(bytes).into_owned()
}

/// The text of a payload: what its bytes encode where they are UTF-8, and
/// what lossy decoding makes of them where they are not.
pub open spec fn payload_text(bytes: Seq<u8>) -> Seq<char> {
    if valid_utf8(bytes) {
        decode_utf8(bytes)
    } else {
        utf8_lossy(bytes)
    }
}

/// Reads a payload as text.
pub fn text_of_payload(bytes: &[u8]) -> (text: String)
    ensures
        text@ == payload_text(bytes@),
{
    lossy_text(bytes)
}

} // verus!
