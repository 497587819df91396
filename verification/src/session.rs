//! The session with the editor: requests in, responses and events out,
//! numbered in the order in which they are sent.

use vstd::prelude::*;
use vstd::string::StringExecFns;
use crate::backend::{
    backend_step, connect_begun, disconnected, frames_view, placeholder_scopes,
    placeholder_variables, resume_begun, scopes_view, threads_of, threads_view,
    update_begun, variables_view, Backend, BackendEvent, BackendEventView, BackendResult,
    BackendResultView, BackendStep, BackendStepView, BackendStopEvent, BackendView, Scope,
    ScopeView, StackFrame, StackFrameView, StopEventView, ThreadInfo, Variable, VariableView,
};
use crate::gdb_client::{WireAction, WireActionView};
use crate::text::{chars_of, is_word, text_of};

verus! {

/// The arguments of a request, read as its command wants them.
#[derive(Debug)]
pub enum Arguments {
    /// The command takes none.
    Absent,
    Launch { debugserver_port: u16, program: String, cwd: Option<String> },
    Attach { debugserver_port: u16, program: Option<String>, cwd: Option<String> },
    SetBreakpoints { source_path: Option<String>, lines: Vec<i64> },
    StackTrace { thread_id: i64 },
    Scopes { frame_id: i64 },
    Variables { variables_reference: i64 },
    Thread { thread_id: i64 },
    /// The arguments could not be read; with the message of the failure.
    Invalid(String),
}

/// `Arguments` with text as sequences of characters.
pub enum ArgumentsView {
    Absent,
    Launch { debugserver_port: u16, program: Seq<char>, cwd: Option<Seq<char>> },
    Attach { debugserver_port: u16, program: Option<Seq<char>>, cwd: Option<Seq<char>> },
    SetBreakpoints { source_path: Option<Seq<char>>, lines: Seq<i64> },
    StackTrace { thread_id: i64 },
    Scopes { frame_id: i64 },
    Variables { variables_reference: i64 },
    Thread { thread_id: i64 },
    Invalid(Seq<char>),
}

impl View for Arguments {
    type V = ArgumentsView;

    open spec fn view(&self) -> ArgumentsView {
        match self {
            Arguments::Absent => ArgumentsView::Absent,
            Arguments::Launch { debugserver_port, program, cwd } => ArgumentsView::Launch {
                debugserver_port: *debugserver_port,
                program: program@,
                cwd: text_of(*cwd),
            },
            Arguments::Attach { debugserver_port, program, cwd } => ArgumentsView::Attach {
                debugserver_port: *debugserver_port,
                program: text_of(*program),
                cwd: text_of(*cwd),
            },
            Arguments::SetBreakpoints { source_path, lines } => ArgumentsView::SetBreakpoints {
                source_path: text_of(*source_path),
                lines: lines@,
            },
            Arguments::StackTrace { thread_id } => ArgumentsView::StackTrace {
                thread_id: *thread_id,
            },
            Arguments::Scopes { frame_id } => ArgumentsView::Scopes { frame_id: *frame_id },
            Arguments::Variables { variables_reference } => ArgumentsView::Variables {
                variables_reference: *variables_reference,
            },
            Arguments::Thread { thread_id } => ArgumentsView::Thread { thread_id: *thread_id },
            Arguments::Invalid(m) => ArgumentsView::Invalid(m@),
        }
    }
}

/// A request of the editor.
#[derive(Debug)]
pub struct Request {
    pub seq: i64,
    pub command: String,
    pub arguments: Arguments,
}

/// A `Request` over views.
pub struct RequestView {
    pub seq: i64,
    pub command: Seq<char>,
    pub arguments: ArgumentsView,
}

impl View for Request {
    type V = RequestView;

    open spec fn view(&self) -> RequestView {
        RequestView { seq: self.seq, command: self.command@, arguments: self.arguments@ }
    }
}

/// What the arguments of a command are read as.
#[derive(Debug, Clone, Copy, PartialEq, Eq, Structural)]
pub enum ArgumentShape {
    Nothing,
    Launch,
    Attach,
    SetBreakpoints,
    StackTrace,
    Scopes,
    Variables,
    Thread,
}

/// What the arguments of `command` are read as.
pub open spec fn shape_of(command: Seq<char>) -> ArgumentShape {
    if command == "launch"@ {
        ArgumentShape::Launch
    } else if command == "attach"@ {
        ArgumentShape::Attach
    } else if command == "setBreakpoints"@ {
        ArgumentShape::SetBreakpoints
    } else if command == "stackTrace"@ {
        ArgumentShape::StackTrace
    } else if command == "scopes"@ {
        ArgumentShape::Scopes
    } else if command == "variables"@ {
        ArgumentShape::Variables
    } else if command == "continue"@ || command == "next"@ || command == "stepIn"@ {
        ArgumentShape::Thread
    } else {
        ArgumentShape::Nothing
    }
}

/// A breakpoint as the editor is told of it.
#[derive(Debug, Clone, Copy, PartialEq, Eq, Structural)]
pub struct Breakpoint {
    pub verified: bool,
    pub line: i64,
}

/// The body of a response.
#[derive(Debug)]
pub enum ResponseBody {
    Capabilities { supports_configuration_done_request: bool },
    Launched { program: Option<String>, cwd: Option<String>, debugserver_port: u16 },
    Breakpoints(Vec<Breakpoint>),
    Threads(Vec<ThreadInfo>),
    StackTrace { stack_frames: Vec<StackFrame>, total_frames: i64 },
    Scopes(Vec<Scope>),
    Variables(Vec<Variable>),
    Continued { all_threads_continued: bool },
}

/// A `ResponseBody` over views.
pub enum BodyView {
    Capabilities { supports_configuration_done_request: bool },
    Launched { program: Option<Seq<char>>, cwd: Option<Seq<char>>, debugserver_port: u16 },
    Breakpoints(Seq<Breakpoint>),
    Threads(Seq<(i64, Seq<char>)>),
    StackTrace { stack_frames: Seq<StackFrameView>, total_frames: i64 },
    Scopes(Seq<ScopeView>),
    Variables(Seq<VariableView>),
    Continued { all_threads_continued: bool },
}

impl View for ResponseBody {
    type V = BodyView;

    open spec fn view(&self) -> BodyView {
        match self {
            ResponseBody::Capabilities {
                supports_configuration_done_request,
            } => BodyView::Capabilities {
                supports_configuration_done_request: *supports_configuration_done_request,
            },
            ResponseBody::Launched { program, cwd, debugserver_port } => BodyView::Launched {
                program: text_of(*program),
                cwd: text_of(*cwd),
                debugserver_port: *debugserver_port,
            },
            ResponseBody::Breakpoints(list) => BodyView::Breakpoints(list@),
            ResponseBody::Threads(list) => BodyView::Threads(threads_view(list@)),
            ResponseBody::StackTrace { stack_frames, total_frames } => BodyView::StackTrace {
                stack_frames: frames_view(stack_frames@),
                total_frames: *total_frames,
            },
            ResponseBody::Scopes(list) => BodyView::Scopes(scopes_view(list@)),
            ResponseBody::Variables(list) => BodyView::Variables(variables_view(list@)),
            ResponseBody::Continued { all_threads_continued } => BodyView::Continued {
                all_threads_continued: *all_threads_continued,
            },
        }
    }
}

/// A message to the editor: a response to a request, or an event.
#[derive(Debug)]
pub enum Outbound {
    Response {
        seq: i64,
        request_seq: i64,
        success: bool,
        command: String,
        message: Option<String>,
        body: Option<ResponseBody>,
    },
    Event { seq: i64, event: String, body: Option<BackendStopEvent> },
}

/// An `Outbound` over views.
pub enum OutboundView {
    Response {
        seq: i64,
        request_seq: i64,
        success: bool,
        command: Seq<char>,
        message: Option<Seq<char>>,
        body: Option<BodyView>,
    },
    Event { seq: i64, event: Seq<char>, body: Option<StopEventView> },
}

/// The view of an optional body.
pub open spec fn body_view(body: Option<ResponseBody>) -> Option<BodyView> {
    match body {
        Some(b) => Some(b@),
        None => None,
    }
}

/// The view of an optional stop event.
pub open spec fn stop_view(body: Option<BackendStopEvent>) -> Option<StopEventView> {
    match body {
        Some(b) => Some(b@),
        None => None,
    }
}

impl View for Outbound {
    type V = OutboundView;

    open spec fn view(&self) -> OutboundView {
        match self {
            Outbound::Response {
                seq,
                request_seq,
                success,
                command,
                message,
                body,
            } => OutboundView::Response {
                seq: *seq,
                request_seq: *request_seq,
                success: *success,
                command: command@,
                message: text_of(*message),
                body: body_view(*body),
            },
            Outbound::Event { seq, event, body } => OutboundView::Event {
                seq: *seq,
                event: event@,
                body: stop_view(*body),
            },
        }
    }
}

/// The views of a list of messages.
pub open spec fn outbound_view(messages: Seq<Outbound>) -> Seq<OutboundView> {
    messages.map_values(|m: Outbound| m@)
}

/// What a request waits for, and what its response will hold.
#[derive(Debug)]
pub enum Awaited {
    Connect { program: Option<String>, cwd: Option<String>, debugserver_port: u16 },
    Breakpoints { lines: Vec<i64> },
    Continue,
    Step,
    StackTrace,
}

/// `Awaited` over views.
pub enum AwaitedView {
    Connect { program: Option<Seq<char>>, cwd: Option<Seq<char>>, debugserver_port: u16 },
    Breakpoints { lines: Seq<i64> },
    Continue,
    Step,
    StackTrace,
}

impl View for Awaited {
    type V = AwaitedView;

    open spec fn view(&self) -> AwaitedView {
        match self {
            Awaited::Connect { program, cwd, debugserver_port } => AwaitedView::Connect {
                program: text_of(*program),
                cwd: text_of(*cwd),
                debugserver_port: *debugserver_port,
            },
            Awaited::Breakpoints { lines } => AwaitedView::Breakpoints { lines: lines@ },
            Awaited::Continue => AwaitedView::Continue,
            Awaited::Step => AwaitedView::Step,
            Awaited::StackTrace => AwaitedView::StackTrace,
        }
    }
}

/// The request that is being worked on.
pub struct PendingRequest {
    seq: i64,
    command: String,
    awaited: Awaited,
}

/// A `PendingRequest` over views.
pub struct PendingView {
    pub seq: i64,
    pub command: Seq<char>,
    pub awaited: AwaitedView,
}

/// What the session needs next.
#[derive(Debug)]
pub enum SessionStep {
    /// An action on the wire to the stub.
    Wire(WireAction),
    /// The line programs of the binary at this path.
    LoadLineIndex(String),
    /// The stack of this thread.
    StackTrace { thread_id: i64 },
    /// Nothing: these messages go to the editor, and the session goes on
    /// unless `running` is false.
    Reply { messages: Vec<Outbound>, running: bool },
}

/// A `SessionStep` over views.
pub enum SessionStepView {
    Wire(WireActionView),
    LoadLineIndex(Seq<char>),
    StackTrace { thread_id: i64 },
    Reply { messages: Seq<OutboundView>, running: bool },
}

impl View for SessionStep {
    type V = SessionStepView;

    open spec fn view(&self) -> SessionStepView {
        match self {
            SessionStep::Wire(a) => SessionStepView::Wire(a@),
            SessionStep::LoadLineIndex(p) => SessionStepView::LoadLineIndex(p@),
            SessionStep::StackTrace { thread_id } => SessionStepView::StackTrace {
                thread_id: *thread_id,
            },
            SessionStep::Reply { messages, running } => SessionStepView::Reply {
                messages: outbound_view(messages@),
                running: *running,
            },
        }
    }
}

/// What came of the session's last request.
#[derive(Debug)]
pub enum SessionEvent {
    Backend(BackendEvent),
    Frames(Vec<StackFrame>),
}

/// A `SessionEvent` over views.
pub enum SessionEventView {
    Backend(BackendEventView),
    Frames(Seq<StackFrameView>),
}

impl View for SessionEvent {
    type V = SessionEventView;

    open spec fn view(&self) -> SessionEventView {
        match self {
            SessionEvent::Backend(e) => SessionEventView::Backend(e@),
            SessionEvent::Frames(f) => SessionEventView::Frames(frames_view(f@)),
        }
    }
}

/// The session: the number of the next message, whether the editor has
/// initialized it, the backend, and the request being worked on.
pub struct Session {
    next_seq: i64,
    initialized: bool,
    backend: Backend,
    pending: Option<PendingRequest>,
}

/// A session as a value.
pub struct SessionView {
    pub next_seq: i64,
    pub initialized: bool,
    pub backend: BackendView,
    pub pending: Option<PendingView>,
}

impl View for Session {
    type V = SessionView;

    closed spec fn view(&self) -> SessionView {
        SessionView {
            next_seq: self.next_seq,
            initialized: self.initialized,
            backend: self.backend@,
            pending: match self.pending {
                Some(p) => Some(PendingView { seq: p.seq, command: p.command@, awaited: p.awaited@ }),
                None => None,
            },
        }
    }
}

/// The most messages that one request or event brings forth.
pub const MESSAGES_PER_STEP: i64 = 2;

/// Whether the session can still number the messages of one more step.
pub open spec fn can_number(s: SessionView) -> bool {
    1 <= s.next_seq <= i64::MAX - MESSAGES_PER_STEP
}

/// The message of the response to a command that is not known.
pub open spec fn unknown_command(command: Seq<char>) -> Seq<char> {
    "Unknown command: "@ + command
}

/// A response, numbered with the next number of `s`.
pub open spec fn response(
    s: SessionView,
    request_seq: i64,
    command: Seq<char>,
    success: bool,
    body: Option<BodyView>,
    message: Option<Seq<char>>,
) -> OutboundView {
    OutboundView::Response { seq: s.next_seq, request_seq, success, command, message, body }
}

/// The session after it has sent `count` messages.
pub open spec fn numbered(s: SessionView, count: int) -> SessionView {
    SessionView { next_seq: (s.next_seq + count) as i64, ..s }
}

/// The session answers a request with one response and goes on.
pub open spec fn answered(
    s: SessionView,
    request_seq: i64,
    command: Seq<char>,
    success: bool,
    body: Option<BodyView>,
    message: Option<Seq<char>>,
) -> (SessionView, SessionStepView) {
    (
        numbered(SessionView { pending: None, ..s }, 1),
        SessionStepView::Reply {
            messages: seq![response(s, request_seq, command, success, body, message)],
            running: true,
        },
    )
}

/// The session refuses a request with `message`.
pub open spec fn refused(s: SessionView, request_seq: i64, command: Seq<char>, message: Seq<char>) -> (
    SessionView,
    SessionStepView,
) {
    answered(s, request_seq, command, false, None, Some(message))
}

/// The breakpoints that the editor is told of: one for each line asked
/// for, and each verified.
pub open spec fn verified_at(lines: Seq<i64>) -> Seq<Breakpoint> {
    lines.map_values(|line: i64| Breakpoint { verified: true, line })
}

/// The session after the backend has ended the operation that a request
/// waited for: the response, and after a resume the event of the stop.
pub open spec fn concluded(s: SessionView, result: BackendResultView) -> (
    SessionView,
    SessionStepView,
) {
    match s.pending {
        None => (s, SessionStepView::Reply { messages: Seq::empty(), running: true }),
        Some(p) => match result {
            BackendResultView::Failed(message) => refused(s, p.seq, p.command, message),
            _ => match p.awaited {
                AwaitedView::Connect { program, cwd, debugserver_port } => answered(
                    s,
                    p.seq,
                    p.command,
                    true,
                    Some(BodyView::Launched { program, cwd, debugserver_port }),
                    None,
                ),
                AwaitedView::Breakpoints { lines } => answered(
                    s,
                    p.seq,
                    p.command,
                    true,
                    Some(BodyView::Breakpoints(verified_at(lines))),
                    None,
                ),
                AwaitedView::Continue | AwaitedView::Step => {
                    let body = if p.awaited is Continue {
                        Some(BodyView::Continued { all_threads_continued: true })
                    } else {
                        None
                    };
                    let first = response(s, p.seq, p.command, true, body, None);
                    match result {
                        BackendResultView::Stopped(stop) => (
                            numbered(SessionView { pending: None, ..s }, 2),
                            SessionStepView::Reply {
                                messages: seq![
                                    first,
                                    OutboundView::Event {
                                        seq: (s.next_seq + 1) as i64,
                                        event: "stopped"@,
                                        body: Some(stop),
                                    },
                                ],
                                running: true,
                            },
                        ),
                        _ => (
                            numbered(SessionView { pending: None, ..s }, 1),
                            SessionStepView::Reply { messages: seq![first], running: true },
                        ),
                    }
                },
                AwaitedView::StackTrace => answered(s, p.seq, p.command, true, None, None),
            },
        },
    }
}

/// The session after a step of the backend: what the backend needs is
/// passed on, and the end of its operation concludes the request.
pub open spec fn after_backend(s: SessionView, step: BackendStepView) -> (
    SessionView,
    SessionStepView,
) {
    match step {
        BackendStepView::Wire(action) => (s, SessionStepView::Wire(action)),
        BackendStepView::LoadLineIndex(path) => (s, SessionStepView::LoadLineIndex(path)),
        BackendStepView::Finished(result) => concluded(s, result),
    }
}

/// The session starts an operation of the backend for a request.
pub open spec fn awaiting(
    s: SessionView,
    r: RequestView,
    awaited: AwaitedView,
    begun: (BackendView, BackendStepView),
) -> (SessionView, SessionStepView) {
    after_backend(
        SessionView {
            backend: begun.0,
            pending: Some(PendingView { seq: r.seq, command: r.command, awaited }),
            ..s
        },
        begun.1,
    )
}

/// The message for arguments that are not those of the command.
pub open spec fn wrong_arguments() -> Seq<char> {
    "arguments do not fit the command"@
}

/// The session refuses a request because of its arguments: with the
/// message of the failure to read them, where there is one.
pub open spec fn bad_arguments(s: SessionView, r: RequestView) -> (SessionView, SessionStepView) {
    match r.arguments {
        ArgumentsView::Invalid(message) => refused(s, r.seq, r.command, message),
        _ => refused(s, r.seq, r.command, wrong_arguments()),
    }
}

/// The session after a request, and what it needs next.
///
/// `initialize` is answered with the capabilities and followed by the
/// `initialized` event. `launch` and `attach` connect to the stub and are
/// answered with what was asked for. `setBreakpoints` hands the lines to the
/// backend and is answered with one verified breakpoint for each line.
/// `threads`, `scopes` and `variables` are answered by the backend at once,
/// `stackTrace` once the stack has been fetched. `continue`, `next` and
/// `stepIn` are answered when the target has stopped again, and followed by
/// the `stopped` event. `disconnect` drops the connection and ends the
/// session. Any other command is refused as unknown.
pub open spec fn handled(s: SessionView, r: RequestView) -> (SessionView, SessionStepView) {
    let c = r.command;
    if c == "initialize"@ {
        (
            numbered(SessionView { initialized: true, pending: None, ..s }, 2),
            SessionStepView::Reply {
                messages: seq![
                    response(
                        s,
                        r.seq,
                        c,
                        true,
                        Some(BodyView::Capabilities { supports_configuration_done_request: true }),
                        None,
                    ),
                    OutboundView::Event {
                        seq: (s.next_seq + 1) as i64,
                        event: "initialized"@,
                        body: None,
                    },
                ],
                running: true,
            },
        )
    } else if c == "launch"@ {
        match r.arguments {
            ArgumentsView::Launch { debugserver_port, program, cwd } => awaiting(
                s,
                r,
                AwaitedView::Connect { program: Some(program), cwd, debugserver_port },
                connect_begun(s.backend, debugserver_port),
            ),
            _ => bad_arguments(s, r),
        }
    } else if c == "attach"@ {
        match r.arguments {
            ArgumentsView::Attach { debugserver_port, program, cwd } => awaiting(
                s,
                r,
                AwaitedView::Connect { program, cwd, debugserver_port },
                connect_begun(s.backend, debugserver_port),
            ),
            _ => bad_arguments(s, r),
        }
    } else if c == "setBreakpoints"@ {
        match r.arguments {
            ArgumentsView::SetBreakpoints { source_path: Some(path), lines } => awaiting(
                s,
                r,
                AwaitedView::Breakpoints { lines },
                update_begun(s.backend, path, lines),
            ),
            ArgumentsView::SetBreakpoints { source_path: None, .. } => refused(
                s,
                r.seq,
                c,
                "source.path missing"@,
            ),
            _ => bad_arguments(s, r),
        }
    } else if c == "configurationDone"@ {
        answered(s, r.seq, c, true, None, None)
    } else if c == "threads"@ {
        answered(
            s,
            r.seq,
            c,
            true,
            Some(BodyView::Threads(threads_of(s.backend.connected_port))),
            None,
        )
    } else if c == "stackTrace"@ {
        match r.arguments {
            ArgumentsView::StackTrace { thread_id } => (
                SessionView {
                    pending: Some(
                        PendingView { seq: r.seq, command: c, awaited: AwaitedView::StackTrace },
                    ),
                    ..s
                },
                SessionStepView::StackTrace { thread_id },
            ),
            _ => bad_arguments(s, r),
        }
    } else if c == "scopes"@ {
        match r.arguments {
            ArgumentsView::Scopes { .. } => answered(
                s,
                r.seq,
                c,
                true,
                Some(BodyView::Scopes(placeholder_scopes())),
                None,
            ),
            _ => bad_arguments(s, r),
        }
    } else if c == "variables"@ {
        match r.arguments {
            ArgumentsView::Variables { variables_reference } => answered(
                s,
                r.seq,
                c,
                true,
                Some(BodyView::Variables(placeholder_variables(variables_reference))),
                None,
            ),
            _ => bad_arguments(s, r),
        }
    } else if c == "continue"@ {
        match r.arguments {
            ArgumentsView::Thread { thread_id } => awaiting(
                s,
                r,
                AwaitedView::Continue,
                resume_begun(s.backend, "vCont;c"@),
            ),
            _ => bad_arguments(s, r),
        }
    } else if c == "next"@ || c == "stepIn"@ {
        match r.arguments {
            ArgumentsView::Thread { thread_id } => awaiting(
                s,
                r,
                AwaitedView::Step,
                resume_begun(s.backend, "vCont;s"@),
            ),
            _ => bad_arguments(s, r),
        }
    } else if c == "disconnect"@ {
        (
            numbered(SessionView { backend: disconnected(s.backend).0, pending: None, ..s }, 1),
            SessionStepView::Reply {
                messages: seq![response(s, r.seq, c, true, None, None)],
                running: false,
            },
        )
    } else {
        refused(s, r.seq, c, unknown_command(c))
    }
}

/// The number of frames that a stack is said to have in all.
pub const TOTAL_FRAMES: i64 = 2;

/// The session after `event`, and what it needs next. The frames of a
/// stack answer the `stackTrace` request that asked for them; every other
/// event goes to the backend.
pub open spec fn session_step(s: SessionView, event: SessionEventView) -> (
    SessionView,
    SessionStepView,
) {
    match event {
        SessionEventView::Frames(frames) => match s.pending {
            Some(p) if p.awaited is StackTrace => answered(
                s,
                p.seq,
                p.command,
                true,
                Some(BodyView::StackTrace { stack_frames: frames, total_frames: TOTAL_FRAMES }),
                None,
            ),
            _ => (
                SessionView { pending: None, ..s },
                SessionStepView::Reply { messages: Seq::empty(), running: true },
            ),
        },
        SessionEventView::Backend(e) => {
            let (backend, step) = backend_step(s.backend, e);
            after_backend(SessionView { backend, ..s }, step)
        },
    }
}

/// What the arguments of `command` are read as.
pub fn argument_shape(command: &str) -> (shape: ArgumentShape)
    ensures
        shape == shape_of(command@),
{
    let c = chars_of(command);
    let c = c.as_slice();
    if is_word(c, "launch") {
        ArgumentShape::Launch
    } else if is_word(c, "attach") {
        ArgumentShape::Attach
    } else if is_word(c, "setBreakpoints") {
        ArgumentShape::SetBreakpoints
    } else if is_word(c, "stackTrace") {
        ArgumentShape::StackTrace
    } else if is_word(c, "scopes") {
        ArgumentShape::Scopes
    } else if is_word(c, "variables") {
        ArgumentShape::Variables
    } else if is_word(c, "continue") || is_word(c, "next") || is_word(c, "stepIn") {
        ArgumentShape::Thread
    } else {
        ArgumentShape::Nothing
    }
}

impl Session {
    /// A session on `backend`: its first message will have the number 1.
    pub fn new(backend: Backend) -> (session: Session)
        ensures
            session@ == (SessionView {
                next_seq: 1,
                initialized: false,
                backend: backend@,
                pending: None,
            }),
    {
        Session { next_seq: 1, initialized: false, backend, pending: None }
    }

    /// Whether the session can still number the messages of one more step.
    pub fn has_room(&self) -> (yes: bool)
        ensures
            yes == can_number(self@),
    {
        1 <= self.next_seq && self.next_seq <= i64::MAX - MESSAGES_PER_STEP
    }

    /// Whether the editor has initialized the session.
    pub fn is_initialized(&self) -> (yes: bool)
        ensures
            yes == self@.initialized,
    {
        self.initialized
    }

    /// The number that the next message will have. The session stays as it
    /// is.
    pub fn upcoming_seq(&self) -> (seq: i64)
        ensures
            seq == self@.next_seq,
    {
        self.next_seq
    }

    /// Hands out the number of the next message and counts it: the number is
    /// used up, and the message after it gets the next one. Nothing else of
    /// the session changes.
    pub fn next_seq(&mut self) -> (seq: i64)
        requires
            old(self)@.next_seq < i64::MAX,
        ensures
            seq == old(self)@.next_seq,
            final(self)@ == numbered(old(self)@, 1),
    {
        let current = self.next_seq;
        self.next_seq = self.next_seq + 1;
        current
    }

    /// An event, numbered with the next number of the session.
    fn emit_event(&mut self, event: &str, body: Option<BackendStopEvent>) -> (out: Outbound)
        requires
            old(self)@.next_seq < i64::MAX,
        ensures
            out@ == (OutboundView::Event {
                seq: old(self)@.next_seq,
                event: event@,
                body: stop_view(body),
            }),
            final(self)@ == numbered(old(self)@, 1),
    {
        let seq = self.next_seq();
        Outbound::Event { seq, event: event.to_owned(), body }
    }

    /// The backend of the session.
    pub fn backend(&self) -> (backend: &Backend)
        ensures
            backend@ == self@.backend,
    {
        &self.backend
    }

    fn nothing_to_say(&self) -> (step: SessionStep)
        ensures
            step@ == (SessionStepView::Reply { messages: Seq::empty(), running: true }),
    {
        let messages: Vec<Outbound> = Vec::new();
        proof {
            assert(outbound_view(messages@) =~= Seq::<OutboundView>::empty());
        }
        SessionStep::Reply { messages, running: true }
    }

    fn respond(
        &mut self,
        request_seq: i64,
        command: String,
        success: bool,
        body: Option<ResponseBody>,
        message: Option<String>,
    ) -> (out: Outbound)
        requires
            old(self)@.next_seq < i64::MAX,
        ensures
            out@ == response(
                old(self)@,
                request_seq,
                command@,
                success,
                body_view(body),
                text_of(message),
            ),
            final(self)@ == numbered(old(self)@, 1),
    {
        let seq = self.next_seq();
        Outbound::Response { seq, request_seq, success, command, message, body }
    }

    fn answered(
        &mut self,
        request_seq: i64,
        command: String,
        success: bool,
        body: Option<ResponseBody>,
        message: Option<String>,
    ) -> (step: SessionStep)
        requires
            old(self)@.next_seq < i64::MAX,
        ensures
            (final(self)@, step@) == answered(
                old(self)@,
                request_seq,
                command@,
                success,
                body_view(body),
                text_of(message),
            ),
    {
        self.pending = None;
        let out = self.respond(request_seq, command, success, body, message);
        let mut messages: Vec<Outbound> = Vec::new();
        messages.push(out);
        proof {
            assert(outbound_view(messages@) =~= seq![out@]);
        }
        SessionStep::Reply { messages, running: true }
    }

    fn refused(&mut self, request_seq: i64, command: String, message: String) -> (step:
        SessionStep)
        requires
            old(self)@.next_seq < i64::MAX,
        ensures
            (final(self)@, step@) == refused(old(self)@, request_seq, command@, message@),
    {
        self.answered(request_seq, command, false, None, Some(message))
    }

    fn bad_arguments(&mut self, request: Request) -> (step: SessionStep)
        requires
            old(self)@.next_seq < i64::MAX,
        ensures
            (final(self)@, step@) == bad_arguments(old(self)@, request@),
    {
        let Request { seq, command, arguments } = request;
        match arguments {
            Arguments::Invalid(message) => self.refused(seq, command, message),
            _ => self.refused(seq, command, "arguments do not fit the command".to_owned()),
        }
    }

    fn concluded(&mut self, result: BackendResult) -> (step: SessionStep)
        requires
            can_number(old(self)@),
        ensures
            (final(self)@, step@) == concluded(old(self)@, result@),
    {
        let pending = self.pending.take();
        let PendingRequest { seq, command, awaited } = match pending {
            Some(p) => p,
            None => {
                return self.nothing_to_say();
            },
        };
        let ghost before = *old(self);
        proof {
            assert(self@ == (SessionView { pending: None, ..before@ }));
        }
        match result {
            BackendResult::Failed(message) => self.refused(seq, command, message),
            result => match awaited {
                Awaited::Connect { program, cwd, debugserver_port } => self.answered(
                    seq,
                    command,
                    true,
                    Some(ResponseBody::Launched { program, cwd, debugserver_port }),
                    None,
                ),
                Awaited::Breakpoints { lines } => {
                    let mut list: Vec<Breakpoint> = Vec::new();
                    let mut i: usize = 0;
                    while i < lines.len()
                        invariant
                            i <= lines.len(),
                            list@ == verified_at(lines@.take(i as int)),
                        decreases lines.len() - i,
                    {
                        list.push(Breakpoint { verified: true, line: lines[i] });
                        proof {
                            assert(lines@.take(i as int + 1) == lines@.take(i as int).push(
                                lines@[i as int],
                            ));
                            assert(list@ =~= verified_at(lines@.take(i as int + 1)));
                        }
                        i += 1;
                    }
                    proof {
                        assert(lines@.take(lines.len() as int) == lines@);
                    }
                    self.answered(seq, command, true, Some(ResponseBody::Breakpoints(list)), None)
                },
                Awaited::Continue | Awaited::Step => {
                    let body = match awaited {
                        Awaited::Continue => Some(
                            ResponseBody::Continued { all_threads_continued: true },
                        ),
                        _ => None,
                    };
                    let first = self.respond(seq, command, true, body, None);
                    let mut messages: Vec<Outbound> = Vec::new();
                    messages.push(first);
                    match result {
                        BackendResult::Stopped(stop) => {
                            let event = self.emit_event("stopped", Some(stop));
                            messages.push(event);
                            proof {
                                assert(outbound_view(messages@) =~= seq![first@, event@]);
                            }
                        },
                        _ => {
                            proof {
                                assert(outbound_view(messages@) =~= seq![first@]);
                            }
                        },
                    }
                    SessionStep::Reply { messages, running: true }
                },
                Awaited::StackTrace => self.answered(seq, command, true, None, None),
            },
        }
    }

    fn after_backend(&mut self, step: BackendStep) -> (out: SessionStep)
        requires
            can_number(old(self)@),
        ensures
            (final(self)@, out@) == after_backend(old(self)@, step@),
    {
        match step {
            BackendStep::Wire(action) => SessionStep::Wire(action),
            BackendStep::LoadLineIndex(path) => SessionStep::LoadLineIndex(path),
            BackendStep::Finished(result) => self.concluded(result),
        }
    }

    fn awaiting(&mut self, seq: i64, command: String, awaited: Awaited, step: BackendStep) -> (out:
        SessionStep)
        requires
            can_number(old(self)@),
        ensures
            (final(self)@, out@) == after_backend(
                SessionView {
                    pending: Some(PendingView { seq, command: command@, awaited: awaited@ }),
                    ..old(self)@
                },
                step@,
            ),
    {
        self.pending = Some(PendingRequest { seq, command, awaited });
        self.after_backend(step)
    }

    /// Takes a request of the editor and says what is needed next.
    pub fn handle_request(&mut self, request: Request) -> (step: SessionStep)
        requires
            can_number(old(self)@),
        ensures
            (final(self)@, step@) == handled(old(self)@, request@),
    {
        let chars = chars_of(request.command.as_str());
        let c = chars.as_slice();
        if is_word(c, "initialize") {
            let Request { seq, command, arguments } = request;
            self.initialized = true;
            self.pending = None;
            let first = self.respond(
                seq,
                command,
                true,
                Some(ResponseBody::Capabilities { supports_configuration_done_request: true }),
                None,
            );
            let event = self.emit_event("initialized", None);
            let mut messages: Vec<Outbound> = Vec::new();
            messages.push(first);
            messages.push(event);
            proof {
                assert(outbound_view(messages@) =~= seq![first@, event@]);
            }
            SessionStep::Reply { messages, running: true }
        } else if is_word(c, "launch") {
            match request.arguments {
                Arguments::Launch { debugserver_port, program, cwd } => {
                    let step = self.backend.connect_debugserver(debugserver_port);
                    self.awaiting(
                        request.seq,
                        request.command,
                        Awaited::Connect { program: Some(program), cwd, debugserver_port },
                        step,
                    )
                },
                _ => self.bad_arguments(request),
            }
        } else if is_word(c, "attach") {
            match request.arguments {
                Arguments::Attach { debugserver_port, program, cwd } => {
                    let step = self.backend.connect_debugserver(debugserver_port);
                    self.awaiting(
                        request.seq,
                        request.command,
                        Awaited::Connect { program, cwd, debugserver_port },
                        step,
                    )
                },
                _ => self.bad_arguments(request),
            }
        } else if is_word(c, "setBreakpoints") {
            match request.arguments {
                Arguments::SetBreakpoints { source_path: Some(path), lines } => {
                    let step = self.backend.update_breakpoints(path.as_str(), lines.as_slice());
                    self.awaiting(
                        request.seq,
                        request.command,
                        Awaited::Breakpoints { lines },
                        step,
                    )
                },
                Arguments::SetBreakpoints { source_path: None, .. } => self.refused(
                    request.seq,
                    request.command,
                    "source.path missing".to_owned(),
                ),
                _ => self.bad_arguments(request),
            }
        } else if is_word(c, "configurationDone") {
            self.answered(request.seq, request.command, true, None, None)
        } else if is_word(c, "threads") {
            let threads = self.backend.threads();
            self.answered(
                request.seq,
                request.command,
                true,
                Some(ResponseBody::Threads(threads)),
                None,
            )
        } else if is_word(c, "stackTrace") {
            match request.arguments {
                Arguments::StackTrace { thread_id } => {
                    self.pending = Some(
                        PendingRequest {
                            seq: request.seq,
                            command: request.command,
                            awaited: Awaited::StackTrace,
                        },
                    );
                    SessionStep::StackTrace { thread_id }
                },
                _ => self.bad_arguments(request),
            }
        } else if is_word(c, "scopes") {
            match request.arguments {
                Arguments::Scopes { .. } => {
                    let scopes = self.backend.scopes();
                    self.answered(
                        request.seq,
                        request.command,
                        true,
                        Some(ResponseBody::Scopes(scopes)),
                        None,
                    )
                },
                _ => self.bad_arguments(request),
            }
        } else if is_word(c, "variables") {
            match request.arguments {
                Arguments::Variables { variables_reference } => {
                    let variables = self.backend.variables(variables_reference);
                    self.answered(
                        request.seq,
                        request.command,
                        true,
                        Some(ResponseBody::Variables(variables)),
                        None,
                    )
                },
                _ => self.bad_arguments(request),
            }
        } else if is_word(c, "continue") {
            match request.arguments {
                Arguments::Thread { thread_id } => {
                    let step = self.backend.continue_thread(thread_id);
                    self.awaiting(request.seq, request.command, Awaited::Continue, step)
                },
                _ => self.bad_arguments(request),
            }
        } else if is_word(c, "next") || is_word(c, "stepIn") {
            match request.arguments {
                Arguments::Thread { thread_id } => {
                    let step = if is_word(c, "next") {
                        self.backend.step_over(thread_id)
                    } else {
                        self.backend.step_in(thread_id)
                    };
                    self.awaiting(request.seq, request.command, Awaited::Step, step)
                },
                _ => self.bad_arguments(request),
            }
        } else if is_word(c, "disconnect") {
            let _ = self.backend.disconnect();
            self.pending = None;
            let out = self.respond(request.seq, request.command, true, None, None);
            let mut messages: Vec<Outbound> = Vec::new();
            messages.push(out);
            proof {
                assert(outbound_view(messages@) =~= seq![out@]);
            }
            SessionStep::Reply { messages, running: false }
        } else {
            let mut message = "Unknown command: ".to_owned();
            message.append(request.command.as_str());
            self.refused(request.seq, request.command, message)
        }
    }

    /// Takes what came of the last request of the session and says what is
    /// needed next.
    pub fn advance(&mut self, event: SessionEvent) -> (step: SessionStep)
        requires
            can_number(old(self)@),
        ensures
            (final(self)@, step@) == session_step(old(self)@, event@),
    {
        match event {
            SessionEvent::Frames(frames) => {
                let pending = self.pending.take();
                proof {
                    assert(self@ == (SessionView { pending: None, ..old(self)@ }));
                }
                match pending {
                    Some(PendingRequest { seq, command, awaited: Awaited::StackTrace }) => {
                        self.answered(
                            seq,
                            command,
                            true,
                            Some(
                                ResponseBody::StackTrace {
                                    stack_frames: frames,
                                    total_frames: TOTAL_FRAMES,
                                },
                            ),
                            None,
                        )
                    },
                    _ => self.nothing_to_say(),
                }
            },
            SessionEvent::Backend(e) => {
                let step = self.backend.advance(e);
                self.after_backend(step)
            },
        }
    }
}

} // verus!
