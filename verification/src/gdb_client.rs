//! The client side of the remote serial protocol as a state machine. The
//! client owns no socket: it says what to do on the wire next, and is told
//! what came of it.

use vstd::prelude::*;
use vstd::string::StringExecFns;
use vstd::utf8::encode_utf8;
use crate::gdb_remote::{
    encode_packet, framed, fresh_reader, parse_stop_reply, payload_text, reader_step,
    stop_reply_of, text_of_payload, GdbRemoteError, PacketReader, ReadStep, ReadStepView,
    ReaderView, StopReply, StopReplyView,
};
use crate::hex::{hex_lower, push_hex};
use crate::text::{chars_of, contains, contains_text, is_word};

verus! {

/// How long a read or a write on the wire may take, in milliseconds.
pub const IO_TIMEOUT_MILLIS: u64 = 200;

/// A `GdbRemoteError` with text as sequences of characters.
pub enum GdbRemoteErrorView {
    Io(Seq<char>),
    Remote(Seq<char>),
    BadChecksum,
    UnexpectedReply(Seq<char>),
}

impl View for GdbRemoteError {
    type V = GdbRemoteErrorView;

    open spec fn view(&self) -> GdbRemoteErrorView {
        match self {
            GdbRemoteError::Io(m) => GdbRemoteErrorView::Io(m@),
            GdbRemoteError::Remote(m) => GdbRemoteErrorView::Remote(m@),
            GdbRemoteError::BadChecksum => GdbRemoteErrorView::BadChecksum,
            GdbRemoteError::UnexpectedReply(m) => GdbRemoteErrorView::UnexpectedReply(m@),
        }
    }
}

/// What the error says, as a line of text.
pub open spec fn error_text(e: GdbRemoteErrorView) -> Seq<char> {
    match e {
        GdbRemoteErrorView::Io(m) => "I/O: "@ + m,
        GdbRemoteErrorView::Remote(m) => "remote rejected packet: "@ + m,
        GdbRemoteErrorView::BadChecksum => "invalid packet checksum"@,
        GdbRemoteErrorView::UnexpectedReply(m) => "unexpected reply: "@ + m,
    }
}

impl GdbRemoteError {
    /// What the error says, as a line of text.
    pub fn message(&self) -> (text: String)
        ensures
            text@ == error_text(self@),
    {
        match self {
            GdbRemoteError::Io(m) => "I/O: ".to_owned().concat(m.as_str()),
            GdbRemoteError::Remote(m) => "remote rejected packet: ".to_owned().concat(m.as_str()),
            GdbRemoteError::BadChecksum => "invalid packet checksum".to_owned(),
            GdbRemoteError::UnexpectedReply(m) => "unexpected reply: ".to_owned().concat(
                m.as_str(),
            ),
        }
    }
}

/// The steps of the handshake, named by what the client waits for: the
/// connection, the drained banner, the reply to `qSupported`, the reply to
/// `QStartNoAckMode`, the `?` being sent, and the reply to it.
#[derive(Debug, Clone, Copy, PartialEq, Eq, Structural)]
pub enum Stage {
    Opening,
    Draining,
    Supported,
    NoAck,
    Query,
    Sync,
}

/// What the client is doing.
#[derive(Debug, Clone, Copy, PartialEq, Eq, Structural)]
pub enum Goal {
    Idle,
    Handshake(Stage),
    ExpectOk,
    WaitForStop,
}

/// What the client waits for on the wire: the end of a write of a packet
/// (with or without a reply to read after it), the acknowledgement of that
/// packet, the next byte of a packet, or the end of the write of its own
/// acknowledgement.
#[derive(Debug, Clone, Copy, PartialEq, Eq, Structural)]
pub enum Waiting {
    Nothing,
    Written { reply: bool },
    Ack { reply: bool },
    PacketByte,
    AckWritten,
}

/// Why an action on the wire failed, as far as the protocol cares.
#[derive(Debug, Clone, Copy, PartialEq, Eq, Structural)]
pub enum FailureKind {
    WouldBlock,
    TimedOut,
    Other,
}

/// A failed action on the wire: the kind of failure and its message.
#[derive(Debug)]
pub struct IoFailure {
    pub kind: FailureKind,
    pub message: String,
}

/// What came of the last action.
#[derive(Debug)]
pub enum WireEvent {
    Opened,
    Drained,
    Written,
    Byte(u8),
    Failed(IoFailure),
}

/// A `WireEvent` with text as a sequence of characters.
pub enum WireEventView {
    Opened,
    Drained,
    Written,
    Byte(u8),
    Failed(FailureKind, Seq<char>),
}

impl View for WireEvent {
    type V = WireEventView;

    open spec fn view(&self) -> WireEventView {
        match self {
            WireEvent::Opened => WireEventView::Opened,
            WireEvent::Drained => WireEventView::Drained,
            WireEvent::Written => WireEventView::Written,
            WireEvent::Byte(b) => WireEventView::Byte(*b),
            WireEvent::Failed(f) => WireEventView::Failed(f.kind, f.message@),
        }
    }
}

/// How an operation of the client ended.
#[derive(Debug)]
pub enum Outcome {
    /// The operation is done.
    Ready,
    /// The target stopped.
    Stopped(StopReply),
    /// The operation failed.
    Failed(GdbRemoteError),
}

/// An `Outcome` over views.
pub enum OutcomeView {
    Ready,
    Stopped(StopReplyView),
    Failed(GdbRemoteErrorView),
}

impl View for Outcome {
    type V = OutcomeView;

    open spec fn view(&self) -> OutcomeView {
        match self {
            Outcome::Ready => OutcomeView::Ready,
            Outcome::Stopped(r) => OutcomeView::Stopped(r@),
            Outcome::Failed(e) => OutcomeView::Failed(e@),
        }
    }
}

/// What to do on the wire next.
#[derive(Debug)]
pub enum WireAction {
    /// Connect to the given port of the local host and give reads and
    /// writes the given timeout.
    Open { port: u16, timeout_millis: u64 },
    /// Read once, whatever is there, and drop it.
    Drain,
    /// Write all of these bytes and flush.
    Write(Vec<u8>),
    /// Read exactly one byte.
    ReadByte,
    /// Nothing: the operation has ended.
    Done(Outcome),
}

/// A `WireAction` over views.
pub enum WireActionView {
    Open { port: u16, timeout_millis: u64 },
    Drain,
    Write(Seq<u8>),
    ReadByte,
    Done(OutcomeView),
}

impl View for WireAction {
    type V = WireActionView;

    open spec fn view(&self) -> WireActionView {
        match self {
            WireAction::Open { port, timeout_millis } => WireActionView::Open {
                port: *port,
                timeout_millis: *timeout_millis,
            },
            WireAction::Drain => WireActionView::Drain,
            WireAction::Write(bytes) => WireActionView::Write(bytes@),
            WireAction::ReadByte => WireActionView::ReadByte,
            WireAction::Done(outcome) => WireActionView::Done(outcome@),
        }
    }
}

/// How the sending of a packet ended: sent with no reply to wait for, sent
/// and answered, or failed. The reading of a packet ends in the last two.
pub enum Exchanged {
    Sent,
    Reply(String),
    Failed(GdbRemoteError),
}

/// An `Exchanged` over views.
pub enum ExchangedView {
    Sent,
    Reply(Seq<char>),
    Failed(GdbRemoteErrorView),
}

impl View for Exchanged {
    type V = ExchangedView;

    open spec fn view(&self) -> ExchangedView {
        match self {
            Exchanged::Sent => ExchangedView::Sent,
            Exchanged::Reply(t) => ExchangedView::Reply(t@),
            Exchanged::Failed(e) => ExchangedView::Failed(e@),
        }
    }
}

/// The client: the port it talks to, whether acknowledgements are switched
/// off, and where it stands in the operation it carries out.
pub struct GdbRemoteClient {
    pub port: u16,
    pub no_ack_mode: bool,
    goal: Goal,
    waiting: Waiting,
    held: String,
    reader: PacketReader,
}

/// A client as a value.
pub struct ClientView {
    pub port: u16,
    pub no_ack_mode: bool,
    pub goal: Goal,
    pub waiting: Waiting,
    pub held: Seq<char>,
    pub reader: ReaderView,
}

impl View for GdbRemoteClient {
    type V = ClientView;

    closed spec fn view(&self) -> ClientView {
        ClientView {
            port: self.port,
            no_ack_mode: self.no_ack_mode,
            goal: self.goal,
            waiting: self.waiting,
            held: self.held@,
            reader: self.reader@,
        }
    }
}

/// The text that `{:?}` gives for the character whose code is `byte`.
pub uninterp spec fn char_debug(byte: u8) -> Seq<char>;

/// `format!` with `{:?}` on the character whose code is `byte`: the
/// character between single quotes, escaped where it is not printable.
#[verifier::external_body]
fn debug_of_byte(byte: u8) -> (text: String)
    ensures
        text@ == char_debug(byte),
{
    format!("{:?}", byte as char)
}

/// Whether a reply is read right after `payload` is sent. Packets that set
/// the target running (`v`, `c`, `s`) and `?` are answered later, by a stop
/// reply.
pub open spec fn wants_reply(payload: Seq<char>) -> bool {
    &&& !(payload.len() > 0 && (payload[0] == 'v' || payload[0] == 'c' || payload[0] == 's'))
    &&& payload != "?"@
}

/// The client at rest, between operations.
pub open spec fn at_rest(c: ClientView) -> ClientView {
    ClientView {
        goal: Goal::Idle,
        waiting: Waiting::Nothing,
        held: Seq::empty(),
        reader: fresh_reader(),
        ..c
    }
}

/// The client ends its operation with `outcome`.
pub open spec fn finish(c: ClientView, outcome: OutcomeView) -> (ClientView, WireActionView) {
    (at_rest(c), WireActionView::Done(outcome))
}

/// The client sends `payload`: it asks for the frame to be written.
pub open spec fn begin_send(c: ClientView, payload: Seq<char>) -> (ClientView, WireActionView) {
    (
        ClientView {
            waiting: Waiting::Written { reply: wants_reply(payload) },
            held: Seq::empty(),
            reader: fresh_reader(),
            ..c
        },
        WireActionView::Write(framed(encode_utf8(payload))),
    )
}

/// The client reads a packet: it asks for the first byte.
pub open spec fn begin_read(c: ClientView) -> (ClientView, WireActionView) {
    (
        ClientView {
            waiting: Waiting::PacketByte,
            held: Seq::empty(),
            reader: fresh_reader(),
            ..c
        },
        WireActionView::ReadByte,
    )
}

/// The payload that asks what the stub supports.
pub open spec fn supported_query() -> Seq<char> {
    "qSupported:multiprocess+;qRelocInsn+"@
}

/// What the client does once a packet has been sent or read, by what it is
/// after.
///
/// A packet that was to be answered with `OK` succeeds on `OK`, on an empty
/// reply and where no reply is read; any other reply is the stub's refusal.
/// Waiting for a stop reads packets until one is a stop reply. In the
/// handshake, failures of the first two packets are passed over; the stub is
/// asked to switch acknowledgements off only if its reply to `qSupported`
/// offers that, and they are off once it answers `OK`; a failure to send `?`
/// fails the handshake, and whatever is read after it ends it.
pub open spec fn on_exchanged(c: ClientView, result: ExchangedView) -> (
    ClientView,
    WireActionView,
) {
    match c.goal {
        Goal::ExpectOk => match result {
            ExchangedView::Sent => finish(c, OutcomeView::Ready),
            ExchangedView::Reply(text) => if text == "OK"@ || text.len() == 0 {
                finish(c, OutcomeView::Ready)
            } else {
                finish(c, OutcomeView::Failed(GdbRemoteErrorView::Remote(text)))
            },
            ExchangedView::Failed(e) => finish(c, OutcomeView::Failed(e)),
        },
        Goal::WaitForStop => match result {
            ExchangedView::Failed(e) => finish(c, OutcomeView::Failed(e)),
            ExchangedView::Reply(text) => match stop_reply_of(text) {
                Some(reply) => finish(c, OutcomeView::Stopped(reply)),
                None => begin_read(c),
            },
            ExchangedView::Sent => begin_read(c),
        },
        Goal::Handshake(Stage::Supported) => match result {
            ExchangedView::Reply(text) if contains_text(text, "QStartNoAckMode+"@) => begin_send(
                ClientView { goal: Goal::Handshake(Stage::NoAck), ..c },
                "QStartNoAckMode"@,
            ),
            _ => begin_send(ClientView { goal: Goal::Handshake(Stage::Query), ..c }, "?"@),
        },
        Goal::Handshake(Stage::NoAck) => begin_send(
            ClientView {
                goal: Goal::Handshake(Stage::Query),
                no_ack_mode: c.no_ack_mode || result == ExchangedView::Reply("OK"@),
                ..c
            },
            "?"@,
        ),
        Goal::Handshake(Stage::Query) => match result {
            ExchangedView::Failed(e) => finish(c, OutcomeView::Failed(e)),
            _ => begin_read(ClientView { goal: Goal::Handshake(Stage::Sync), ..c }),
        },
        Goal::Handshake(Stage::Sync) => finish(c, OutcomeView::Ready),
        _ => stray(c),
    }
}

/// The client was told of something it did not ask for: it drops what it
/// was doing.
pub open spec fn stray(c: ClientView) -> (ClientView, WireActionView) {
    finish(
        c,
        OutcomeView::Failed(GdbRemoteErrorView::UnexpectedReply("event out of turn"@)),
    )
}

/// What the client does once its packet is written and, where
/// acknowledgements are on, acknowledged.
pub open spec fn after_ack(c: ClientView, reply: bool) -> (ClientView, WireActionView) {
    if reply {
        begin_read(c)
    } else {
        on_exchanged(c, ExchangedView::Sent)
    }
}

/// The message for a byte that came in place of `+`.
pub open spec fn bad_ack_text(byte: u8) -> Seq<char> {
    "expected ack '+', got "@ + char_debug(byte)
}

/// The client after `event`, and what it asks for next.
///
/// A failure on the wire fails the packet being sent or read with the
/// failure's message, but for two cases: the connection itself failing ends
/// the handshake, and a read of the banner that would block or times out
/// counts as a banner read. With acknowledgements on, each packet written is
/// followed by the read of one byte that must be `+`, and each packet read
/// by the write of `+`.
pub open spec fn client_step(c: ClientView, event: WireEventView) -> (ClientView, WireActionView) {
    match event {
        WireEventView::Failed(kind, message) => {
            let error = GdbRemoteErrorView::Io(message);
            match c.goal {
                Goal::Idle => stray(c),
                Goal::Handshake(Stage::Opening) => finish(c, OutcomeView::Failed(error)),
                Goal::Handshake(Stage::Draining) => if kind == FailureKind::Other {
                    finish(c, OutcomeView::Failed(error))
                } else {
                    begin_send(
                        ClientView { goal: Goal::Handshake(Stage::Supported), ..c },
                        supported_query(),
                    )
                },
                _ => on_exchanged(c, ExchangedView::Failed(error)),
            }
        },
        WireEventView::Opened => if c.goal == Goal::Handshake(Stage::Opening) {
            (ClientView { goal: Goal::Handshake(Stage::Draining), ..c }, WireActionView::Drain)
        } else {
            stray(c)
        },
        WireEventView::Drained => if c.goal == Goal::Handshake(Stage::Draining) {
            begin_send(
                ClientView { goal: Goal::Handshake(Stage::Supported), ..c },
                supported_query(),
            )
        } else {
            stray(c)
        },
        WireEventView::Written => match c.waiting {
            Waiting::Written { reply } => if c.no_ack_mode {
                after_ack(c, reply)
            } else {
                (ClientView { waiting: Waiting::Ack { reply }, ..c }, WireActionView::ReadByte)
            },
            Waiting::AckWritten => on_exchanged(c, ExchangedView::Reply(c.held)),
            _ => stray(c),
        },
        WireEventView::Byte(byte) => match c.waiting {
            Waiting::Ack { reply } => if byte == 0x2b {
                after_ack(c, reply)
            } else {
                on_exchanged(
                    c,
                    ExchangedView::Failed(GdbRemoteErrorView::UnexpectedReply(bad_ack_text(byte))),
                )
            },
            Waiting::PacketByte => {
                let (reader, step) = reader_step(c.reader, byte);
                match step {
                    ReadStepView::More => (ClientView { reader, ..c }, WireActionView::ReadByte),
                    ReadStepView::BadChecksum => on_exchanged(
                        c,
                        ExchangedView::Failed(GdbRemoteErrorView::BadChecksum),
                    ),
                    ReadStepView::Packet(payload) => if c.no_ack_mode {
                        on_exchanged(c, ExchangedView::Reply(payload_text(payload)))
                    } else {
                        (
                            ClientView {
                                waiting: Waiting::AckWritten,
                                held: payload_text(payload),
                                reader,
                                ..c
                            },
                            WireActionView::Write(seq![0x2bu8]),
                        )
                    },
                }
            },
            _ => stray(c),
        },
    }
}

/// The payload that plants (`Z0`) or lifts (`z0`) a software breakpoint.
pub open spec fn breakpoint_payload(plant: bool, address: u64) -> Seq<char> {
    (if plant {
        "Z0,"@
    } else {
        "z0,"@
    }) + hex_lower(address as nat) + ",1"@
}

/// A client that starts an operation for which a packet must be answered
/// with `OK`.
pub open spec fn expecting_ok(c: ClientView, payload: Seq<char>) -> (ClientView, WireActionView) {
    begin_send(ClientView { goal: Goal::ExpectOk, ..c }, payload)
}

impl GdbRemoteClient {
    fn finish(&mut self, outcome: Outcome) -> (action: WireAction)
        ensures
            (final(self)@, action@) == finish(old(self)@, outcome@),
    {
        self.goal = Goal::Idle;
        self.waiting = Waiting::Nothing;
        self.held = String::new();
        self.reader = PacketReader::new();
        WireAction::Done(outcome)
    }

    fn stray(&mut self) -> (action: WireAction)
        ensures
            (final(self)@, action@) == stray(old(self)@),
    {
        self.finish(
            Outcome::Failed(GdbRemoteError::UnexpectedReply("event out of turn".to_owned())),
        )
    }

    fn begin_send(&mut self, payload: &str) -> (action: WireAction)
        ensures
            (final(self)@, action@) == begin_send(old(self)@, payload@),
    {
        let chars = chars_of(payload);
        let runs = chars.len() > 0 && (chars[0] == 'v' || chars[0] == 'c' || chars[0] == 's');
        let reply = !runs && !is_word(chars.as_slice(), "?");
        self.waiting = Waiting::Written { reply };
        self.held = String::new();
        self.reader = PacketReader::new();
        WireAction::Write(encode_packet(payload.as_bytes()))
    }

    fn begin_read(&mut self) -> (action: WireAction)
        ensures
            (final(self)@, action@) == begin_read(old(self)@),
    {
        self.waiting = Waiting::PacketByte;
        self.held = String::new();
        self.reader = PacketReader::new();
        WireAction::ReadByte
    }

    fn on_exchanged(&mut self, result: Exchanged) -> (action: WireAction)
        ensures
            (final(self)@, action@) == on_exchanged(old(self)@, result@),
    {
        match self.goal {
            Goal::ExpectOk => match result {
                Exchanged::Sent => self.finish(Outcome::Ready),
                Exchanged::Reply(text) => {
                    let chars = chars_of(text.as_str());
                    if is_word(chars.as_slice(), "OK") || chars.len() == 0 {
                        self.finish(Outcome::Ready)
                    } else {
                        self.finish(Outcome::Failed(GdbRemoteError::Remote(text)))
                    }
                },
                Exchanged::Failed(e) => self.finish(Outcome::Failed(e)),
            },
            Goal::WaitForStop => match result {
                Exchanged::Failed(e) => self.finish(Outcome::Failed(e)),
                Exchanged::Reply(text) => match parse_stop_reply(text.as_str()) {
                    Some(reply) => self.finish(Outcome::Stopped(reply)),
                    None => self.begin_read(),
                },
                Exchanged::Sent => self.begin_read(),
            },
            Goal::Handshake(Stage::Supported) => {
                let offered = match &result {
                    Exchanged::Reply(text) => {
                        let chars = chars_of(text.as_str());
                        contains(chars.as_slice(), "QStartNoAckMode+")
                    },
                    _ => false,
                };
                if offered {
                    self.goal = Goal::Handshake(Stage::NoAck);
                    self.begin_send("QStartNoAckMode")
                } else {
                    self.goal = Goal::Handshake(Stage::Query);
                    self.begin_send("?")
                }
            },
            Goal::Handshake(Stage::NoAck) => {
                let accepted = match &result {
                    Exchanged::Reply(text) => {
                        let chars = chars_of(text.as_str());
                        is_word(chars.as_slice(), "OK")
                    },
                    _ => false,
                };
                if accepted {
                    self.no_ack_mode = true;
                }
                self.goal = Goal::Handshake(Stage::Query);
                self.begin_send("?")
            },
            Goal::Handshake(Stage::Query) => match result {
                Exchanged::Failed(e) => self.finish(Outcome::Failed(e)),
                _ => {
                    self.goal = Goal::Handshake(Stage::Sync);
                    self.begin_read()
                },
            },
            Goal::Handshake(Stage::Sync) => self.finish(Outcome::Ready),
            _ => self.stray(),
        }
    }

    fn after_ack(&mut self, reply: bool) -> (action: WireAction)
        ensures
            (final(self)@, action@) == after_ack(old(self)@, reply),
    {
        if reply {
            self.begin_read()
        } else {
            self.on_exchanged(Exchanged::Sent)
        }
    }

    /// A client for the stub on `port`, and the first action of its
    /// handshake: to open the connection.
    pub fn connect(port: u16) -> (started: (GdbRemoteClient, WireAction))
        ensures
            started.0@ == (ClientView {
                port,
                no_ack_mode: false,
                goal: Goal::Handshake(Stage::Opening),
                waiting: Waiting::Nothing,
                held: Seq::empty(),
                reader: fresh_reader(),
            }),
            started.1@ == (WireActionView::Open { port, timeout_millis: IO_TIMEOUT_MILLIS }),
    {
        let client = GdbRemoteClient {
            port,
            no_ack_mode: false,
            goal: Goal::Handshake(Stage::Opening),
            waiting: Waiting::Nothing,
            held: String::new(),
            reader: PacketReader::new(),
        };
        (client, WireAction::Open { port, timeout_millis: IO_TIMEOUT_MILLIS })
    }

    /// The port that the client talks to.
    pub fn port(&self) -> (port: u16)
        ensures
            port == self@.port,
    {
        self.port
    }

    /// Whether acknowledgements are switched off.
    pub fn no_ack_mode(&self) -> (off: bool)
        ensures
            off == self@.no_ack_mode,
    {
        self.no_ack_mode
    }

    /// Whether the client is between operations.
    pub fn is_idle(&self) -> (idle: bool)
        ensures
            idle == (self@.goal == Goal::Idle),
    {
        self.goal == Goal::Idle
    }

    fn breakpoint_packet(plant: bool, address: u64) -> (payload: String)
        ensures
            payload@ == breakpoint_payload(plant, address),
    {
        let mut payload = if plant {
            "Z0,".to_owned()
        } else {
            "z0,".to_owned()
        };
        push_hex(&mut payload, address);
        payload.append(",1");
        payload
    }

    /// Starts planting a software breakpoint at `address`.
    pub fn set_software_breakpoint(&mut self, address: u64) -> (action: WireAction)
        ensures
            (final(self)@, action@) == expecting_ok(
                old(self)@,
                breakpoint_payload(true, address),
            ),
    {
        let payload = Self::breakpoint_packet(true, address);
        self.goal = Goal::ExpectOk;
        self.begin_send(payload.as_str())
    }

    /// Starts lifting the software breakpoint at `address`.
    pub fn clear_software_breakpoint(&mut self, address: u64) -> (action: WireAction)
        ensures
            (final(self)@, action@) == expecting_ok(
                old(self)@,
                breakpoint_payload(false, address),
            ),
    {
        let payload = Self::breakpoint_packet(false, address);
        self.goal = Goal::ExpectOk;
        self.begin_send(payload.as_str())
    }

    /// Starts resuming all threads.
    pub fn continue_all(&mut self) -> (action: WireAction)
        ensures
            (final(self)@, action@) == expecting_ok(old(self)@, "vCont;c"@),
    {
        self.goal = Goal::ExpectOk;
        self.begin_send("vCont;c")
    }

    /// Starts a single step. The packet names no thread, whatever
    /// `thread_id` is.
    pub fn step_thread(&mut self, thread_id: i64) -> (action: WireAction)
        ensures
            (final(self)@, action@) == expecting_ok(old(self)@, "vCont;s"@),
    {
        self.goal = Goal::ExpectOk;
        self.begin_send("vCont;s")
    }

    /// Starts waiting for the target to stop.
    pub fn wait_for_stop(&mut self) -> (action: WireAction)
        ensures
            (final(self)@, action@) == begin_read(
                ClientView { goal: Goal::WaitForStop, ..old(self)@ },
            ),
    {
        self.goal = Goal::WaitForStop;
        self.begin_read()
    }

    /// Takes what came of the last action and says what to do next.
    pub fn advance(&mut self, event: WireEvent) -> (action: WireAction)
        ensures
            (final(self)@, action@) == client_step(old(self)@, event@),
    {
        match event {
            WireEvent::Failed(failure) => {
                let IoFailure { kind, message } = failure;
                match self.goal {
                    Goal::Idle => self.stray(),
                    Goal::Handshake(Stage::Opening) => self.finish(
                        Outcome::Failed(GdbRemoteError::Io(message)),
                    ),
                    Goal::Handshake(Stage::Draining) => {
                        if kind == FailureKind::Other {
                            self.finish(Outcome::Failed(GdbRemoteError::Io(message)))
                        } else {
                            self.goal = Goal::Handshake(Stage::Supported);
                            self.begin_send("qSupported:multiprocess+;qRelocInsn+")
                        }
                    },
                    _ => self.on_exchanged(Exchanged::Failed(GdbRemoteError::Io(message))),
                }
            },
            WireEvent::Opened => {
                if self.goal == Goal::Handshake(Stage::Opening) {
                    self.goal = Goal::Handshake(Stage::Draining);
                    WireAction::Drain
                } else {
                    self.stray()
                }
            },
            WireEvent::Drained => {
                if self.goal == Goal::Handshake(Stage::Draining) {
                    self.goal = Goal::Handshake(Stage::Supported);
                    self.begin_send("qSupported:multiprocess+;qRelocInsn+")
                } else {
                    self.stray()
                }
            },
            WireEvent::Written => match self.waiting {
                Waiting::Written { reply } => {
                    if self.no_ack_mode {
                        self.after_ack(reply)
                    } else {
                        self.waiting = Waiting::Ack { reply };
                        WireAction::ReadByte
                    }
                },
                Waiting::AckWritten => {
                    let mut text = String::new();
                    core::mem::swap(&mut text, &mut self.held);
                    let action = self.on_exchanged(Exchanged::Reply(text));
                    action
                },
                _ => self.stray(),
            },
            WireEvent::Byte(byte) => match self.waiting {
                Waiting::Ack { reply } => {
                    if byte == 0x2b {
                        self.after_ack(reply)
                    } else {
                        let message = "expected ack '+', got ".to_owned().concat(
                            debug_of_byte(byte).as_str(),
                        );
                        self.on_exchanged(
                            Exchanged::Failed(GdbRemoteError::UnexpectedReply(message)),
                        )
                    }
                },
                Waiting::PacketByte => {
                    let step = self.reader.push(byte);
                    match step {
                        ReadStep::More => WireAction::ReadByte,
                        ReadStep::BadChecksum => self.on_exchanged(
                            Exchanged::Failed(GdbRemoteError::BadChecksum),
                        ),
                        ReadStep::Packet(payload) => {
                            let text = text_of_payload(payload.as_slice());
                            if self.no_ack_mode {
                                self.on_exchanged(Exchanged::Reply(text))
                            } else {
                                self.held = text;
                                self.waiting = Waiting::AckWritten;
                                let mut ack: Vec<u8> = Vec::new();
                                ack.push(0x2bu8);
                                WireAction::Write(ack)
                            }
                        },
                    }
                },
                _ => self.stray(),
            },
        }
    }
}

} // verus!
