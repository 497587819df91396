//! What the debugger knows and answers: threads, stack frames, scopes,
//! variables, and where breakpoints go.

use vstd::prelude::*;
use vstd::string::StringExecFns;
use crate::gdb_client::{
    client_step, error_text, expecting_ok, begin_read, breakpoint_payload, ClientView,
    GdbRemoteClient, GdbRemoteErrorView, Goal, Outcome, OutcomeView, Stage, Waiting, WireAction,
    WireActionView, WireEvent, WireEventView, IO_TIMEOUT_MILLIS,
};
use crate::gdb_remote::{fresh_reader, StopReason, StopReasonView, StopReply, StopReplyView};
use crate::hex::{decimal, push_decimal, push_signed_decimal, signed_decimal};
use crate::line_index::{
    index_of_programs, lookup_in, programs_view, AddressRange, IndexModel, LineIndex, LineRow,
    RowView,
};
use crate::macho::{context_of, object_of, ContextView, SymbolError, SymbolErrorView};
use crate::paths::{source_name, source_name_of};
use crate::symbols::{local_to_remote, remote_to_local, slide_between, slide_of, SymbolContext};
use crate::text::text_of;

verus! {

/// A thread, as the editor is told of it.
#[derive(Debug, Clone)]
pub struct ThreadInfo {
    pub id: i64,
    pub name: String,
}

/// A stack frame, as the editor is told of it.
#[derive(Debug, Clone)]
pub struct StackFrame {
    pub id: i64,
    pub name: String,
    pub line: i64,
    pub column: i64,
    pub source_name: String,
    pub source_path: String,
    pub presentation_hint: String,
}

/// A scope of variables.
#[derive(Debug, Clone)]
pub struct Scope {
    pub name: String,
    pub variables_reference: i64,
    pub expensive: bool,
}

/// A variable.
#[derive(Debug, Clone)]
pub struct Variable {
    pub name: String,
    pub value: String,
    pub kind: String,
    pub variables_reference: i64,
}

/// A stop of the target, as the editor is told of it.
#[derive(Debug)]
pub struct BackendStopEvent {
    pub reason: String,
    pub description: String,
    pub thread_id: i64,
}

/// What the debug information says of the frame at an address: the raw
/// name of the function (missing where there is none or it cannot be read),
/// the language code of its compilation unit, and the file and line.
#[derive(Debug)]
pub struct FrameSymbol {
    pub raw_name: Option<String>,
    pub language: Option<u16>,
    pub file: Option<String>,
    pub line: Option<u32>,
}

/// A `FrameSymbol` with text as sequences of characters.
pub struct FrameSymbolView {
    pub raw_name: Option<Seq<char>>,
    pub language: Option<u16>,
    pub file: Option<Seq<char>>,
    pub line: Option<u32>,
}

/// A `StackFrame` with text as sequences of characters.
pub struct StackFrameView {
    pub id: i64,
    pub name: Seq<char>,
    pub line: i64,
    pub column: i64,
    pub source_name: Seq<char>,
    pub source_path: Seq<char>,
    pub presentation_hint: Seq<char>,
}

/// A `BackendStopEvent` with text as sequences of characters.
pub struct StopEventView {
    pub reason: Seq<char>,
    pub description: Seq<char>,
    pub thread_id: i64,
}

impl View for FrameSymbol {
    type V = FrameSymbolView;

    open spec fn view(&self) -> FrameSymbolView {
        FrameSymbolView {
            raw_name: text_of(self.raw_name),
            language: self.language,
            file: text_of(self.file),
            line: self.line,
        }
    }
}

impl View for StackFrame {
    type V = StackFrameView;

    open spec fn view(&self) -> StackFrameView {
        StackFrameView {
            id: self.id,
            name: self.name@,
            line: self.line,
            column: self.column,
            source_name: self.source_name@,
            source_path: self.source_path@,
            presentation_hint: self.presentation_hint@,
        }
    }
}

impl View for BackendStopEvent {
    type V = StopEventView;

    open spec fn view(&self) -> StopEventView {
        StopEventView {
            reason: self.reason@,
            description: self.description@,
            thread_id: self.thread_id,
        }
    }
}

/// The name that `addr2line::demangle_auto` gives for the raw name of a
/// function from a compilation unit of the given language code: the name
/// demangled as names of that language are or, without a language, as Rust
/// or else C++ names are; the raw name where that fails or is not called for.
pub uninterp spec fn demangled(raw_name: Seq<char>, language: Option<u16>) -> Seq<char>;

/// `addr2line::demangle_auto`: the readable form of a function's raw name.
#[verifier::external_body]
fn demangle(raw_name: &str, language: Option<u16>) -> (name: String)
    ensures
        name@ == demangled(raw_name@, language),
{
    addr2line::demangle_auto(std::borrow::Cow::Borrowed(raw_name), language.map(gimli::DwLang))
        .into_owned()
}

/// The reader of the debug information of a binary on disk.
#[verifier::external_type_specification]
#[verifier::external_body]
pub struct ExLoader(addr2line::Loader);

/// `addr2line::Loader::find_frames` and `FrameIter::next`, called until
/// the frames at the link-time address `probe` are used up: what the debug
/// information says of each, the innermost first; nothing where the lookup
/// or one of the steps fails.
#[verifier::external_body]
fn frames_at(loader: &addr2line::Loader, probe: u64) -> (frames: Option<Vec<FrameSymbol>>) {
    let mut found = loader.find_frames(probe).ok()?;
    let mut frames = Vec::new();
    while let Some(frame) = found.next().ok()? {
        let (function, location) = (frame.function.as_ref(), frame.location.as_ref());
        frames.push(FrameSymbol {
            raw_name: function.and_then(|f| Some(f.raw_name().ok()?.into_owned())),
            language: function.and_then(|f| Some(f.language?.0)),
            file: location.and_then(|l| Some(l.file?.to_owned())),
            line: location.and_then(|l| l.line),
        });
    }
    Some(frames)
}

/// The frame that a lookup shows: the first of those found, nothing where
/// the lookup failed or found none.
pub open spec fn innermost_of(frames: Option<Seq<FrameSymbolView>>) -> Option<FrameSymbolView> {
    match frames {
        Some(list) => if list.len() > 0 {
            Some(list[0])
        } else {
            None
        },
        None => None,
    }
}

/// The views of the frames of a lookup.
pub open spec fn symbol_views(frames: Option<Vec<FrameSymbol>>) -> Option<Seq<FrameSymbolView>> {
    match frames {
        Some(list) => Some(list@.map_values(|f: FrameSymbol| f@)),
        None => None,
    }
}

/// Picks the frame that is shown out of what a lookup gave.
pub fn innermost(frames: Option<Vec<FrameSymbol>>) -> (symbol: Option<FrameSymbol>)
    ensures
        symbol_view(symbol) == innermost_of(symbol_views(frames)),
{
    match frames {
        Some(mut list) => if list.len() > 0 {
            Some(list.swap_remove(0))
        } else {
            None
        },
        None => None,
    }
}

/// What stands for a name or a path that is not known.
pub open spec fn unknown() -> Seq<char> {
    "<unknown>"@
}

/// The stack frame shown for the frame `id` at place `index` of a stack,
/// given what the debug information says of it: the demangled function name,
/// the path of the source file and its last segment, the line (0 where it is
/// not known), column 1, and the hint `normal` for the top of the stack and
/// `subtle` below it. What is not known reads `<unknown>`.
pub open spec fn frame_of(id: i64, symbol: Option<FrameSymbolView>, index: int) -> StackFrameView {
    let name = match symbol {
        Some(FrameSymbolView { raw_name: Some(raw), language, .. }) => demangled(raw, language),
        _ => unknown(),
    };
    let path = match symbol {
        Some(FrameSymbolView { file: Some(file), .. }) => file,
        _ => unknown(),
    };
    let line = match symbol {
        Some(FrameSymbolView { line: Some(line), .. }) => line as i64,
        _ => 0,
    };
    StackFrameView {
        id,
        name,
        line,
        column: 1,
        source_name: source_name(path),
        source_path: path,
        presentation_hint: if index == 0 {
            "normal"@
        } else {
            "subtle"@
        },
    }
}

/// The view of an optional frame symbol.
pub open spec fn symbol_view(symbol: Option<FrameSymbol>) -> Option<FrameSymbolView> {
    match symbol {
        Some(s) => Some(s@),
        None => None,
    }
}

/// The stack frame shown for the frame `id` at place `index` of a stack.
pub fn frame_for(id: i64, symbol: Option<FrameSymbol>, index: usize) -> (frame: StackFrame)
    ensures
        frame@ == frame_of(id, symbol_view(symbol), index as int),
{
    let (raw_name, language, file, line) = match symbol {
        Some(s) => (s.raw_name, s.language, s.file, s.line),
        None => (None, None, None, None),
    };
    let name = match raw_name {
        Some(raw) => demangle(raw.as_str(), language),
        None => "<unknown>".to_owned(),
    };
    let source_path = match file {
        Some(file) => file,
        None => "<unknown>".to_owned(),
    };
    let line: i64 = match line {
        Some(line) => line as i64,
        None => 0,
    };
    let source_name = source_name_of(source_path.as_str());
    let presentation_hint = if index == 0 {
        "normal".to_owned()
    } else {
        "subtle".to_owned()
    };
    StackFrame { id, name, line, column: 1, source_name, source_path, presentation_hint }
}

/// The name of the one thread: `Stub Thread`, followed by the port in
/// parentheses where the debugger is connected.
pub open spec fn thread_name(port: Option<u16>) -> Seq<char> {
    match port {
        Some(p) => "Stub Thread"@ + " ("@ + decimal(p as nat) + ")"@,
        None => "Stub Thread"@,
    }
}

/// The value of the first placeholder variable.
pub open spec fn placeholder_value(variables_reference: i64) -> Seq<char> {
    "value-"@ + signed_decimal(variables_reference as int)
}

/// What the editor is told of a stop: the thread (1 where the reply names
/// none) and, by the reason of the reply, a reason and a description.
pub open spec fn stop_event_of(reply: StopReplyView) -> StopEventView {
    let thread_id = match reply.thread_id {
        Some(id) => id as i64,
        None => 1i64,
    };
    match reply.reason {
        StopReasonView::Breakpoint => StopEventView {
            reason: "breakpoint"@,
            description: "Breakpoint hit"@,
            thread_id,
        },
        StopReasonView::Step => StopEventView {
            reason: "step"@,
            description: "Step completed"@,
            thread_id,
        },
        StopReasonView::Signal => StopEventView {
            reason: "signal"@,
            description: "Signal "@ + decimal(reply.signal as nat),
            thread_id,
        },
        StopReasonView::Unknown(text) => StopEventView {
            reason: "stopped"@,
            description: text,
            thread_id,
        },
    }
}

impl BackendStopEvent {
    /// What the editor is told of the stop that `reply` announces.
    pub fn from_reply(reply: StopReply) -> (event: BackendStopEvent)
        ensures
            event@ == stop_event_of(reply@),
    {
        let thread_id: i64 = match reply.thread_id {
            Some(id) => id as i64,
            None => 1,
        };
        match reply.reason {
            StopReason::Breakpoint => BackendStopEvent {
                reason: "breakpoint".to_owned(),
                description: "Breakpoint hit".to_owned(),
                thread_id,
            },
            StopReason::Step => BackendStopEvent {
                reason: "step".to_owned(),
                description: "Step completed".to_owned(),
                thread_id,
            },
            StopReason::Signal => {
                let mut description = "Signal ".to_owned();
                push_decimal(&mut description, reply.signal as u64);
                BackendStopEvent { reason: "signal".to_owned(), description, thread_id }
            },
            StopReason::Unknown(text) => BackendStopEvent {
                reason: "stopped".to_owned(),
                description: text,
                thread_id,
            },
        }
    }
}

/// The one frame of a thread for which no frames are provided: it lies
/// where `__TEXT` runs, and its id is the thread's times 100, plus 1, as a
/// 64-bit number.
pub open spec fn default_frame(thread_id: i64, vmaddr_text: u64, slide: i64) -> (i64, u64) {
    (thread_id.wrapping_mul(100).wrapping_add(1), local_to_remote(vmaddr_text, slide))
}

/// The addresses at which breakpoints go for `lines` of `source_path`: for
/// each line above zero, in order, the run-time address of the low end of
/// each range that the index has for it.
pub open spec fn planned_addresses(
    index: IndexModel,
    slide: i64,
    source_path: Seq<char>,
    lines: Seq<i64>,
) -> Seq<u64>
    decreases lines.len(),
{
    if lines.len() == 0 {
        Seq::empty()
    } else {
        planned_addresses(index, slide, source_path, lines.drop_last()) + (if lines.last() > 0 {
            lookup_in(index, source_path, lines.last() as u64).map_values(
                |r: AddressRange| local_to_remote(r.low, slide),
            )
        } else {
            Seq::empty()
        })
    }
}

/// The addresses at which breakpoints go for `lines` of `source_path`.
pub fn plan_breakpoints(
    index: &LineIndex,
    ctx: &SymbolContext,
    source_path: &str,
    lines: &[i64],
) -> (addresses: Vec<u64>)
    ensures
        addresses@ == planned_addresses(index@, ctx.main.slide, source_path@, lines@),
{
    let mut addresses: Vec<u64> = Vec::new();
    let mut i: usize = 0;
    while i < lines.len()
        invariant
            i <= lines.len(),
            addresses@ == planned_addresses(
                index@,
                ctx.main.slide,
                source_path@,
                lines@.take(i as int),
            ),
        decreases lines.len() - i,
    {
        let line = lines[i];
        proof {
            assert(lines@.take(i as int + 1).drop_last() == lines@.take(i as int));
        }
        if line > 0 {
            let ranges = index.lookup(source_path, line as u64);
            let ghost before = addresses@;
            let mut j: usize = 0;
            while j < ranges.len()
                invariant
                    j <= ranges.len(),
                    addresses@ == before + ranges@.take(j as int).map_values(
                        |r: AddressRange| local_to_remote(r.low, ctx.main.slide),
                    ),
                decreases ranges.len() - j,
            {
                addresses.push(ctx.local_to_remote(ranges[j].low));
                proof {
                    assert(ranges@.take(j as int + 1).map_values(
                        |r: AddressRange| local_to_remote(r.low, ctx.main.slide),
                    ) == ranges@.take(j as int).map_values(
                        |r: AddressRange| local_to_remote(r.low, ctx.main.slide),
                    ).push(local_to_remote(ranges@[j as int].low, ctx.main.slide)));
                }
                j += 1;
            }
            proof {
                assert(ranges@.take(ranges.len() as int) == ranges@);
            }
        } else {
            proof {
                assert(addresses@ + Seq::<u64>::empty() == addresses@);
            }
        }
        i += 1;
    }
    proof {
        assert(lines@.take(lines.len() as int) == lines@);
    }
    addresses
}

/// The lines at which the editor wants breakpoints in one source file.
pub struct BreakpointEntry {
    path: String,
    lines: Vec<i64>,
}

/// The lines recorded for `path` in a list of entries: those of the first
/// entry for it.
pub closed spec fn lines_in(entries: Seq<BreakpointEntry>, path: Seq<char>) -> Option<Seq<i64>>
    decreases entries.len(),
{
    if entries.len() == 0 {
        None
    } else if entries[0].path@ == path {
        Some(entries[0].lines@)
    } else {
        lines_in(entries.drop_first(), path)
    }
}

proof fn lemma_lines_in_miss(entries: Seq<BreakpointEntry>, path: Seq<char>)
    requires
        forall|k: int| 0 <= k < entries.len() ==> entries[k].path@ != path,
    ensures
        lines_in(entries, path) is None,
    decreases entries.len(),
{
    if entries.len() > 0 {
        lemma_lines_in_miss(entries.drop_first(), path);
    }
}

proof fn lemma_lines_in_update(
    entries: Seq<BreakpointEntry>,
    i: int,
    e: BreakpointEntry,
    path: Seq<char>,
)
    requires
        0 <= i < entries.len(),
        e.path@ == entries[i].path@,
        forall|k: int| 0 <= k < i ==> entries[k].path@ != e.path@,
    ensures
        lines_in(entries.update(i, e), path) == if path == e.path@ {
            Some(e.lines@)
        } else {
            lines_in(entries, path)
        },
    decreases entries.len(),
{
    let after = entries.update(i, e);
    if i == 0 {
        assert(after.drop_first() == entries.drop_first());
    } else {
        assert(after.drop_first() == entries.drop_first().update(i - 1, e));
        lemma_lines_in_update(entries.drop_first(), i - 1, e, path);
    }
}

proof fn lemma_lines_in_push(entries: Seq<BreakpointEntry>, e: BreakpointEntry, path: Seq<char>)
    requires
        forall|k: int| 0 <= k < entries.len() ==> entries[k].path@ != e.path@,
    ensures
        lines_in(entries.push(e), path) == if path == e.path@ {
            Some(e.lines@)
        } else {
            lines_in(entries, path)
        },
    decreases entries.len(),
{
    let after = entries.push(e);
    if entries.len() == 0 {
        assert(after.drop_first() == entries);
    } else {
        assert(after.drop_first() == entries.drop_first().push(e));
        lemma_lines_in_push(entries.drop_first(), e, path);
    }
}

/// What the editor last asked for: for each source file, the lines of its
/// breakpoints.
pub struct BreakpointTable {
    entries: Vec<BreakpointEntry>,
}

impl View for BreakpointTable {
    type V = Map<Seq<char>, Seq<i64>>;

    open spec fn view(&self) -> Map<Seq<char>, Seq<i64>> {
        Map::new(|p: Seq<char>| self.lines_of(p) is Some, |p: Seq<char>| self.lines_of(p)->0)
    }
}

impl BreakpointTable {
    /// The lines recorded for `path`.
    pub closed spec fn lines_of(&self, path: Seq<char>) -> Option<Seq<i64>> {
        lines_in(self.entries@, path)
    }

    /// A table without entries.
    pub fn new() -> (table: BreakpointTable)
        ensures
            table@ == Map::<Seq<char>, Seq<i64>>::empty(),
    {
        let table = BreakpointTable { entries: Vec::new() };
        assert(table@ =~= Map::<Seq<char>, Seq<i64>>::empty());
        table
    }

    /// Replaces what is recorded for `path` by `lines`.
    pub fn replace(&mut self, path: &str, lines: &[i64])
        ensures
            final(self)@ == old(self)@.insert(path@, lines@),
    {
        let ghost before = *self;
        let key = path.to_owned();
        let mut copy: Vec<i64> = Vec::new();
        let mut k: usize = 0;
        while k < lines.len()
            invariant
                k <= lines.len(),
                copy@ == lines@.take(k as int),
            decreases lines.len() - k,
        {
            copy.push(lines[k]);
            k += 1;
        }
        proof {
            assert(lines@.take(lines.len() as int) == lines@);
        }
        let mut i: usize = 0;
        let mut found = false;
        while !found && i < self.entries.len()
            invariant
                i <= self.entries.len(),
                self.entries@ == before.entries@,
                forall|k: int| 0 <= k < i ==> self.entries@[k].path@ != key@,
                found ==> i < self.entries.len() && self.entries@[i as int].path@ == key@,
            decreases self.entries.len() - i + if found { 0int } else { 1int },
        {
            if self.entries[i].path == key {
                found = true;
            } else {
                i += 1;
            }
        }
        if found {
            self.entries[i].lines = copy;
            proof {
                let e = self.entries@[i as int];
                assert(self.entries@ == before.entries@.update(i as int, e));
                assert forall|p: Seq<char>| self.lines_of(p) == if p == path@ {
                    Some(lines@)
                } else {
                    before.lines_of(p)
                } by {
                    lemma_lines_in_update(before.entries@, i as int, e, p);
                }
            }
        } else {
            let entry = BreakpointEntry { path: key, lines: copy };
            self.entries.push(entry);
            proof {
                assert forall|p: Seq<char>| self.lines_of(p) == if p == path@ {
                    Some(lines@)
                } else {
                    before.lines_of(p)
                } by {
                    lemma_lines_in_push(before.entries@, entry, p);
                }
            }
        }
        proof {
            assert(self@ =~= before@.insert(path@, lines@));
        }
    }
}

/// What the backend is in the middle of: nothing, a connection being
/// made, the line index being loaded, breakpoints being planted, a resume
/// being sent, or a stop being awaited.
#[derive(Debug, Clone, Copy, PartialEq, Eq, Structural)]
pub enum Pending {
    Idle,
    Connecting,
    Indexing,
    Planting,
    Resuming,
    Stopping,
}

/// How an operation of the backend ended.
#[derive(Debug)]
pub enum BackendResult {
    /// It is done.
    Done,
    /// The target ran and stopped.
    Stopped(BackendStopEvent),
    /// It failed, with this message.
    Failed(String),
}

/// A `BackendResult` over views.
pub enum BackendResultView {
    Done,
    Stopped(StopEventView),
    Failed(Seq<char>),
}

impl View for BackendResult {
    type V = BackendResultView;

    open spec fn view(&self) -> BackendResultView {
        match self {
            BackendResult::Done => BackendResultView::Done,
            BackendResult::Stopped(e) => BackendResultView::Stopped(e@),
            BackendResult::Failed(m) => BackendResultView::Failed(m@),
        }
    }
}

/// What the backend needs next: an action on the wire, the line programs
/// of the binary at a path, or nothing, because the operation has ended.
#[derive(Debug)]
pub enum BackendStep {
    Wire(WireAction),
    LoadLineIndex(String),
    Finished(BackendResult),
}

/// A `BackendStep` over views.
pub enum BackendStepView {
    Wire(WireActionView),
    LoadLineIndex(Seq<char>),
    Finished(BackendResultView),
}

impl View for BackendStep {
    type V = BackendStepView;

    open spec fn view(&self) -> BackendStepView {
        match self {
            BackendStep::Wire(a) => BackendStepView::Wire(a@),
            BackendStep::LoadLineIndex(p) => BackendStepView::LoadLineIndex(p@),
            BackendStep::Finished(r) => BackendStepView::Finished(r@),
        }
    }
}

/// What came of the backend's last request: an event on the wire, or the
/// line programs of the binary (or the message of the failure to load them).
#[derive(Debug)]
pub enum BackendEvent {
    Wire(WireEvent),
    LineIndex(Result<Vec<Vec<LineRow>>, String>),
}

/// A `BackendEvent` over views.
pub enum BackendEventView {
    Wire(WireEventView),
    LineIndex(Result<Seq<Seq<RowView>>, Seq<char>>),
}

impl View for BackendEvent {
    type V = BackendEventView;

    open spec fn view(&self) -> BackendEventView {
        match self {
            BackendEvent::Wire(e) => BackendEventView::Wire(e@),
            BackendEvent::LineIndex(Ok(programs)) => BackendEventView::LineIndex(
                Ok(programs_view(programs@)),
            ),
            BackendEvent::LineIndex(Err(m)) => BackendEventView::LineIndex(Err(m@)),
        }
    }
}

/// The backend: the symbol context, the port it is connected to, what the
/// editor asked for, the line index once it is loaded, the client once it is
/// connected, and what it is in the middle of.
pub struct Backend {
    pub symbol_ctx: SymbolContext,
    connected_port: Option<u16>,
    breakpoints: BreakpointTable,
    line_index: Option<LineIndex>,
    gdb_client: Option<GdbRemoteClient>,
    dialing: Option<GdbRemoteClient>,
    pending: Pending,
    queue: Vec<u64>,
    next: usize,
    wanted_path: String,
    wanted_lines: Vec<i64>,
}

/// A backend as a value.
pub struct BackendView {
    pub ctx: ContextView,
    pub connected_port: Option<u16>,
    pub breakpoints: Map<Seq<char>, Seq<i64>>,
    pub line_index: Option<IndexModel>,
    pub client: Option<ClientView>,
    pub dialing: Option<ClientView>,
    pub pending: Pending,
    pub queue: Seq<u64>,
    pub wanted_path: Seq<char>,
    pub wanted_lines: Seq<i64>,
}

/// The view of an optional client.
pub open spec fn client_view(c: Option<GdbRemoteClient>) -> Option<ClientView> {
    match c {
        Some(c) => Some(c@),
        None => None,
    }
}

/// The view of an optional line index.
pub open spec fn index_view(i: Option<LineIndex>) -> Option<IndexModel> {
    match i {
        Some(i) => Some(i@),
        None => None,
    }
}

impl View for Backend {
    type V = BackendView;

    closed spec fn view(&self) -> BackendView {
        BackendView {
            ctx: self.symbol_ctx@,
            connected_port: self.connected_port,
            breakpoints: self.breakpoints@,
            line_index: index_view(self.line_index),
            client: client_view(self.gdb_client),
            dialing: client_view(self.dialing),
            pending: self.pending,
            queue: if self.next <= self.queue@.len() {
                self.queue@.skip(self.next as int)
            } else {
                Seq::empty()
            },
            wanted_path: self.wanted_path@,
            wanted_lines: self.wanted_lines@,
        }
    }
}

/// The text that `{:?}` gives for a string: the string between double
/// quotes, with what is not printable escaped.
pub uninterp spec fn str_debug(text: Seq<char>) -> Seq<char>;

/// `format!` with `{:?}` on a string: the string between double quotes,
/// escaped where it is not printable.
#[verifier::external_body]
fn debug_of_str(text: &str) -> (quoted: String)
    ensures
        quoted@ == str_debug(text@),
{
    format!("{:?}", text)
}

/// A backend that has done nothing yet: not connected, without
/// breakpoints and without a line index.
pub open spec fn fresh_backend(ctx: ContextView) -> BackendView {
    BackendView {
        ctx,
        connected_port: None,
        breakpoints: Map::empty(),
        line_index: None,
        client: None,
        dialing: None,
        pending: Pending::Idle,
        queue: Seq::empty(),
        wanted_path: Seq::empty(),
        wanted_lines: Seq::empty(),
    }
}

/// A backend that is in the middle of nothing.
pub open spec fn resting(b: BackendView) -> BackendView {
    BackendView {
        dialing: None,
        pending: Pending::Idle,
        queue: Seq::empty(),
        wanted_path: Seq::empty(),
        wanted_lines: Seq::empty(),
        ..b
    }
}

/// The backend ends its operation with `result`.
pub open spec fn ended(b: BackendView, result: BackendResultView) -> (
    BackendView,
    BackendStepView,
) {
    (resting(b), BackendStepView::Finished(result))
}

/// The message for a connection that could not be made.
pub open spec fn connect_failure(port: u16, error: GdbRemoteErrorView) -> Seq<char> {
    "failed to connect to debugserver on port "@ + decimal(port as nat) + ": "@ + error_text(error)
}

/// The message for a breakpoint that the stub refused.
pub open spec fn plant_failure(error: GdbRemoteErrorView) -> Seq<char> {
    "failed to plant breakpoint: "@ + error_text(error)
}

/// The message for a line index that could not be built.
pub open spec fn index_failure(path: Seq<char>, message: Seq<char>) -> Seq<char> {
    "Failed to build DWARF line index for "@ + str_debug(path) + ": "@ + message
}

/// The message for an operation that needs a connection and has none.
pub open spec fn no_connection() -> Seq<char> {
    "no gdb-remote connection; call connect_debugserver first"@
}

/// The backend plants breakpoints at `addresses`, one after the other.
/// Without a connection nothing is planted and the operation is done.
pub open spec fn plant(b: BackendView, addresses: Seq<u64>) -> (BackendView, BackendStepView) {
    match b.client {
        Some(c) if addresses.len() > 0 => {
            let (client, action) = expecting_ok(c, breakpoint_payload(true, addresses[0]));
            (
                BackendView {
                    client: Some(client),
                    pending: Pending::Planting,
                    queue: addresses.drop_first(),
                    ..resting(b)
                },
                BackendStepView::Wire(action),
            )
        },
        _ => ended(b, BackendResultView::Done),
    }
}

/// The backend plants the breakpoints that the editor wants, as far as the
/// line index has addresses for them.
pub open spec fn plan_and_plant(b: BackendView) -> (BackendView, BackendStepView) {
    match b.line_index {
        Some(index) => plant(
            b,
            planned_addresses(index, b.ctx.slide, b.wanted_path, b.wanted_lines),
        ),
        None => ended(b, BackendResultView::Done),
    }
}

/// The backend takes the lines at which the editor wants breakpoints in
/// `path`: they replace what the table held for `path`, and are planted;
/// the line index is asked for first where it is not loaded yet.
pub open spec fn update_begun(b: BackendView, path: Seq<char>, lines: Seq<i64>) -> (
    BackendView,
    BackendStepView,
) {
    let taken = BackendView {
        breakpoints: b.breakpoints.insert(path, lines),
        wanted_path: path,
        wanted_lines: lines,
        ..resting(b)
    };
    match taken.line_index {
        Some(_) => plan_and_plant(taken),
        None => (
            BackendView { pending: Pending::Indexing, ..taken },
            BackendStepView::LoadLineIndex(b.ctx.path),
        ),
    }
}

/// The backend resumes the target with `payload` and then waits for it to
/// stop. Without a connection that fails at once.
pub open spec fn resume_begun(b: BackendView, payload: Seq<char>) -> (
    BackendView,
    BackendStepView,
) {
    match b.client {
        Some(c) => {
            let (client, action) = expecting_ok(c, payload);
            (
                BackendView { client: Some(client), pending: Pending::Resuming, ..resting(b) },
                BackendStepView::Wire(action),
            )
        },
        None => ended(b, BackendResultView::Failed(no_connection())),
    }
}

/// The backend starts a connection to the stub on `port`.
pub open spec fn connect_begun(b: BackendView, port: u16) -> (BackendView, BackendStepView) {
    (
        BackendView {
            dialing: Some(
                ClientView {
                    port,
                    no_ack_mode: false,
                    goal: Goal::Handshake(Stage::Opening),
                    waiting: Waiting::Nothing,
                    held: Seq::empty(),
                    reader: fresh_reader(),
                },
            ),
            pending: Pending::Connecting,
            ..resting(b)
        },
        BackendStepView::Wire(WireActionView::Open { port, timeout_millis: IO_TIMEOUT_MILLIS }),
    )
}

/// The backend drops its connection and forgets the port.
pub open spec fn disconnected(b: BackendView) -> (BackendView, BackendStepView) {
    ended(BackendView { connected_port: None, client: None, ..b }, BackendResultView::Done)
}

/// A scope, with text as sequences of characters: name, reference, and
/// whether it is expensive to show.
pub type ScopeView = (Seq<char>, i64, bool);

/// A variable, with text as sequences of characters: name, value, kind and
/// reference.
pub type VariableView = (Seq<char>, Seq<char>, Seq<char>, i64);

/// The views of a list of scopes.
pub open spec fn scopes_view(scopes: Seq<Scope>) -> Seq<ScopeView> {
    scopes.map_values(|s: Scope| (s.name@, s.variables_reference, s.expensive))
}

/// The views of a list of variables.
pub open spec fn variables_view(variables: Seq<Variable>) -> Seq<VariableView> {
    variables.map_values(|v: Variable| (v.name@, v.value@, v.kind@, v.variables_reference))
}

/// The scopes that stand in for those of a frame.
pub open spec fn placeholder_scopes() -> Seq<ScopeView> {
    seq![("Locals"@, 1i64, false)]
}

/// The variables that stand in for those of a scope.
pub open spec fn placeholder_variables(variables_reference: i64) -> Seq<VariableView> {
    seq![
        ("var"@, placeholder_value(variables_reference), "string"@, 0i64),
        ("counter"@, "123"@, "int"@, 0i64),
    ]
}

/// The backend was told of something it did not ask for.
pub open spec fn out_of_turn(b: BackendView) -> (BackendView, BackendStepView) {
    ended(b, BackendResultView::Failed("event out of turn"@))
}

/// The backend after `event`, and what it needs next.
///
/// Events on the wire go to the client that is at work, and the backend
/// passes on what the client asks for until the client's operation ends.
/// A handshake that ends well makes its client the connection, in place of
/// any earlier one. A breakpoint planted is followed by the next; the first
/// refusal ends the planting. A resume that is accepted is followed by the
/// wait for a stop, and the stop is what the operation gives.
pub open spec fn backend_step(b: BackendView, event: BackendEventView) -> (
    BackendView,
    BackendStepView,
) {
    match (b.pending, event) {
        (Pending::Connecting, BackendEventView::Wire(e)) => match b.dialing {
            Some(c) => {
                let (client, action) = client_step(c, e);
                match action {
                    WireActionView::Done(OutcomeView::Failed(error)) => ended(
                        b,
                        BackendResultView::Failed(connect_failure(c.port, error)),
                    ),
                    WireActionView::Done(_) => ended(
                        BackendView {
                            connected_port: Some(c.port),
                            client: Some(client),
                            ..b
                        },
                        BackendResultView::Done,
                    ),
                    _ => (
                        BackendView { dialing: Some(client), ..b },
                        BackendStepView::Wire(action),
                    ),
                }
            },
            None => out_of_turn(b),
        },
        (Pending::Indexing, BackendEventView::LineIndex(loaded)) => match loaded {
            Ok(programs) => plan_and_plant(
                BackendView {
                    line_index: Some(index_of_programs(IndexModel::empty(), programs)),
                    ..b
                },
            ),
            Err(message) => ended(
                b,
                BackendResultView::Failed(index_failure(b.ctx.path, message)),
            ),
        },
        (Pending::Planting, BackendEventView::Wire(e)) => match b.client {
            Some(c) => {
                let (client, action) = client_step(c, e);
                let b = BackendView { client: Some(client), ..b };
                match action {
                    WireActionView::Done(OutcomeView::Failed(error)) => ended(
                        b,
                        BackendResultView::Failed(plant_failure(error)),
                    ),
                    WireActionView::Done(_) => plant(b, b.queue),
                    _ => (b, BackendStepView::Wire(action)),
                }
            },
            None => out_of_turn(b),
        },
        (Pending::Resuming, BackendEventView::Wire(e)) => match b.client {
            Some(c) => {
                let (client, action) = client_step(c, e);
                match action {
                    WireActionView::Done(OutcomeView::Failed(error)) => ended(
                        BackendView { client: Some(client), ..b },
                        BackendResultView::Failed(error_text(error)),
                    ),
                    WireActionView::Done(_) => {
                        let (waiting, read) = begin_read(
                            ClientView { goal: Goal::WaitForStop, ..client },
                        );
                        (
                            BackendView {
                                client: Some(waiting),
                                pending: Pending::Stopping,
                                ..b
                            },
                            BackendStepView::Wire(read),
                        )
                    },
                    _ => (BackendView { client: Some(client), ..b }, BackendStepView::Wire(action)),
                }
            },
            None => out_of_turn(b),
        },
        (Pending::Stopping, BackendEventView::Wire(e)) => match b.client {
            Some(c) => {
                let (client, action) = client_step(c, e);
                let b = BackendView { client: Some(client), ..b };
                match action {
                    WireActionView::Done(OutcomeView::Failed(error)) => ended(
                        b,
                        BackendResultView::Failed(error_text(error)),
                    ),
                    WireActionView::Done(OutcomeView::Stopped(reply)) => ended(
                        b,
                        BackendResultView::Stopped(stop_event_of(reply)),
                    ),
                    WireActionView::Done(OutcomeView::Ready) => ended(b, BackendResultView::Done),
                    _ => (b, BackendStepView::Wire(action)),
                }
            },
            None => out_of_turn(b),
        },
        _ => out_of_turn(b),
    }
}

/// Whether `raw` is what a thread's frames are fetched as: what the
/// provider gives for the thread or, without a provider, the default frame.
pub open spec fn fetched<P: Fn(i64) -> Vec<(i64, u64)>>(
    provider: Option<&P>,
    thread_id: i64,
    vmaddr_text: u64,
    slide: i64,
    raw: Vec<(i64, u64)>,
) -> bool {
    match provider {
        Some(p) => p.ensures((thread_id,), raw),
        None => raw@ == seq![default_frame(thread_id, vmaddr_text, slide)],
    }
}

/// Whether `frame` is the frame shown for `raw` at place `index`: the
/// frame made of what `symbolize` answered for the address of `raw`,
/// translated to link time.
pub open spec fn shows<S: Fn(u64) -> Option<FrameSymbol>>(
    symbolize: &S,
    slide: i64,
    raw: (i64, u64),
    index: int,
    frame: StackFrame,
) -> bool {
    exists|symbol: Option<FrameSymbol>|
        #[trigger] symbolize.ensures((remote_to_local(raw.1, slide),), symbol) && frame@
            == frame_of(raw.0, symbol_view(symbol), index)
}

/// Whether `frame` is the frame shown for `raw` at place `index`, for
/// something that the debug information may say of it.
pub open spec fn describes(raw: (i64, u64), index: int, frame: StackFrame) -> bool {
    exists|symbol: Option<FrameSymbol>|
        frame@ == #[trigger] frame_of(raw.0, symbol_view(symbol), index)
}

/// Whether `frames` are frames shown for `raw`, one for one.
pub open spec fn described(raw: Seq<(i64, u64)>, frames: Seq<StackFrame>) -> bool {
    &&& frames.len() == raw.len()
    &&& forall|i: int| 0 <= i < raw.len() ==> describes(raw[i], i, #[trigger] frames[i])
}

/// Whether `frames` are the frames shown for `raw`, one for one.
pub open spec fn shows_all<S: Fn(u64) -> Option<FrameSymbol>>(
    symbolize: &S,
    slide: i64,
    raw: Seq<(i64, u64)>,
    frames: Seq<StackFrame>,
) -> bool {
    &&& frames.len() == raw.len()
    &&& forall|i: int|
        0 <= i < raw.len() ==> shows(symbolize, slide, raw[i], i, #[trigger] frames[i])
}

/// The one thread that the backend tells of.
pub open spec fn threads_of(port: Option<u16>) -> Seq<(i64, Seq<char>)> {
    seq![(1i64, thread_name(port))]
}

/// The views of a list of threads.
pub open spec fn threads_view(threads: Seq<ThreadInfo>) -> Seq<(i64, Seq<char>)> {
    threads.map_values(|t: ThreadInfo| (t.id, t.name@))
}

/// The views of a list of stack frames.
pub open spec fn frames_view(frames: Seq<StackFrame>) -> Seq<StackFrameView> {
    frames.map_values(|f: StackFrame| f@)
}

impl Backend {
    /// The symbol context of the backend.
    pub closed spec fn context(&self) -> SymbolContext {
        self.symbol_ctx
    }

    /// A backend for `symbol_ctx`: not connected, with no breakpoints and no
    /// line index.
    pub fn from_symbol_context(symbol_ctx: SymbolContext) -> (backend: Backend)
        ensures
            backend@ == fresh_backend(symbol_ctx@),
            backend.context() == symbol_ctx,
    {
        let backend = Backend {
            symbol_ctx,
            connected_port: None,
            breakpoints: BreakpointTable::new(),
            line_index: None,
            gdb_client: None,
            dialing: None,
            pending: Pending::Idle,
            queue: Vec::new(),
            next: 0,
            wanted_path: String::new(),
            wanted_lines: Vec::new(),
        };
        assert(backend.queue@.skip(0) == Seq::<u64>::empty());
        backend
    }

    /// A backend for `symbol_ctx`, as `from_symbol_context` makes it.
    pub fn new_for_testing(symbol_ctx: SymbolContext) -> (backend: Backend)
        ensures
            backend@ == fresh_backend(symbol_ctx@),
            backend.context() == symbol_ctx,
    {
        Backend::from_symbol_context(symbol_ctx)
    }

    /// A backend for the Mach-O file at `app_path`, whose contents are
    /// `data`.
    pub fn new_from_app(app_path: &str, data: &[u8]) -> (backend: Result<Backend, SymbolError>)
        ensures
            match backend {
                Ok(b) => context_of(app_path@, object_of(data@)) == Ok::<
                    ContextView,
                    SymbolErrorView,
                >(b@.ctx) && b@ == fresh_backend(b@.ctx),
                Err(e) => context_of(app_path@, object_of(data@)) == Err::<
                    ContextView,
                    SymbolErrorView,
                >(e@),
            },
    {
        match SymbolContext::new(app_path, data) {
            Ok(ctx) => Ok(Backend::from_symbol_context(ctx)),
            Err(e) => Err(e),
        }
    }

    /// The port that the backend is connected to.
    pub fn connected_port(&self) -> (port: Option<u16>)
        ensures
            port == self@.connected_port,
    {
        self.connected_port
    }

    /// Whether the backend has a connection to the stub.
    pub fn is_connected(&self) -> (yes: bool)
        ensures
            yes == self@.client.is_some(),
    {
        self.gdb_client.is_some()
    }

    /// Whether the backend is between operations.
    pub fn is_idle(&self) -> (yes: bool)
        ensures
            yes == (self@.pending == Pending::Idle),
    {
        self.pending == Pending::Idle
    }

    /// Gives the backend a line index, in place of the one it has.
    pub fn set_line_index(&mut self, index: LineIndex)
        ensures
            final(self)@ == (BackendView { line_index: Some(index@), ..old(self)@ }),
            final(self).context() == old(self).context(),
    {
        self.line_index = Some(index);
    }

    /// Sets the slide from the address at which `__TEXT` was seen to run.
    pub fn update_slide_from_remote_text_base(&mut self, remote_text_base: u64)
        ensures
            final(self)@ == (BackendView {
                ctx: ContextView {
                    slide: slide_between(old(self)@.ctx.vmaddr_text, remote_text_base),
                    ..old(self)@.ctx
                },
                ..old(self)@
            }),
            final(self).context().main.slide == slide_between(
                old(self).context().main.vmaddr_text,
                remote_text_base,
            ),
            final(self).context().main.vmaddr_text == old(self).context().main.vmaddr_text,
    {
        let slide = slide_of(self.symbol_ctx.main.vmaddr_text, remote_text_base);
        self.symbol_ctx.set_slide(slide);
    }

    fn rest(&mut self)
        ensures
            final(self)@ == resting(old(self)@),
            final(self).context() == old(self).context(),
    {
        self.dialing = None;
        self.pending = Pending::Idle;
        self.queue = Vec::new();
        self.next = 0;
        self.wanted_path = String::new();
        self.wanted_lines = Vec::new();
        assert(self.queue@.skip(0) == Seq::<u64>::empty());
    }

    fn end(&mut self, result: BackendResult) -> (step: BackendStep)
        ensures
            (final(self)@, step@) == ended(old(self)@, result@),
            final(self).context() == old(self).context(),
    {
        self.rest();
        BackendStep::Finished(result)
    }

    fn out_of_turn(&mut self) -> (step: BackendStep)
        ensures
            (final(self)@, step@) == out_of_turn(old(self)@),
            final(self).context() == old(self).context(),
    {
        self.end(BackendResult::Failed("event out of turn".to_owned()))
    }

    fn plant_from(&mut self, addresses: Vec<u64>, from: usize) -> (step: BackendStep)
        requires
            from <= addresses.len(),
        ensures
            (final(self)@, step@) == plant(old(self)@, addresses@.skip(from as int)),
            final(self).context() == old(self).context(),
    {
        if from < addresses.len() && self.gdb_client.is_some() {
            let mut client = self.gdb_client.take().unwrap();
            proof {
                assert(addresses@.skip(from as int)[0] == addresses@[from as int]);
                assert(addresses@.skip(from as int).drop_first() == addresses@.skip(
                    from as int + 1,
                ));
            }
            let action = client.set_software_breakpoint(addresses[from]);
            self.rest();
            self.gdb_client = Some(client);
            self.pending = Pending::Planting;
            self.queue = addresses;
            self.next = from + 1;
            BackendStep::Wire(action)
        } else {
            self.end(BackendResult::Done)
        }
    }

    fn plan_and_plant(&mut self) -> (step: BackendStep)
        ensures
            (final(self)@, step@) == plan_and_plant(old(self)@),
            final(self).context() == old(self).context(),
    {
        let addresses = match &self.line_index {
            Some(index) => plan_breakpoints(
                index,
                &self.symbol_ctx,
                self.wanted_path.as_str(),
                self.wanted_lines.as_slice(),
            ),
            None => {
                return self.end(BackendResult::Done);
            },
        };
        proof {
            assert(addresses@.skip(0) == addresses@);
        }
        self.plant_from(addresses, 0)
    }

    /// Starts a connection to the stub on `port`. Once the handshake has
    /// ended well, the new connection takes the place of any earlier one.
    pub fn connect_debugserver(&mut self, port: u16) -> (step: BackendStep)
        ensures
            (final(self)@, step@) == connect_begun(old(self)@, port),
            final(self).context() == old(self).context(),
    {
        let (client, action) = GdbRemoteClient::connect(port);
        self.rest();
        self.dialing = Some(client);
        self.pending = Pending::Connecting;
        BackendStep::Wire(action)
    }

    /// Takes the lines at which the editor wants breakpoints in
    /// `source_path` and starts planting them.
    pub fn update_breakpoints(&mut self, source_path: &str, lines: &[i64]) -> (step: BackendStep)
        ensures
            (final(self)@, step@) == update_begun(old(self)@, source_path@, lines@),
            final(self).context() == old(self).context(),
    {
        self.breakpoints.replace(source_path, lines);
        self.rest();
        self.wanted_path = source_path.to_owned();
        let mut copy: Vec<i64> = Vec::new();
        let mut k: usize = 0;
        while k < lines.len()
            invariant
                k <= lines.len(),
                copy@ == lines@.take(k as int),
            decreases lines.len() - k,
        {
            copy.push(lines[k]);
            k += 1;
        }
        proof {
            assert(lines@.take(lines.len() as int) == lines@);
        }
        self.wanted_lines = copy;
        if self.line_index.is_some() {
            self.plan_and_plant()
        } else {
            self.pending = Pending::Indexing;
            BackendStep::LoadLineIndex(self.symbol_ctx.main.path.clone())
        }
    }

    /// The threads of the target: a single one, whatever the stub has.
    pub fn threads(&self) -> (threads: Vec<ThreadInfo>)
        ensures
            threads_view(threads@) == threads_of(self@.connected_port),
    {
        let mut name = "Stub Thread".to_owned();
        match self.connected_port {
            Some(port) => {
                name.append(" (");
                push_decimal(&mut name, port as u64);
                name.append(")");
            },
            None => {},
        }
        let mut threads: Vec<ThreadInfo> = Vec::new();
        threads.push(ThreadInfo { id: 1, name });
        proof {
            assert(threads_view(threads@) =~= threads_of(self@.connected_port));
        }
        threads
    }

    /// The scopes of a frame: a placeholder, one scope named `Locals`.
    pub fn scopes(&self) -> (scopes: Vec<Scope>)
        ensures
            scopes_view(scopes@) == placeholder_scopes(),
    {
        let mut scopes: Vec<Scope> = Vec::new();
        scopes.push(Scope { name: "Locals".to_owned(), variables_reference: 1, expensive: false });
        proof {
            assert(scopes_view(scopes@) =~= placeholder_scopes());
        }
        scopes
    }

    /// The variables of a scope: placeholders, two of them.
    pub fn variables(&self, variables_reference: i64) -> (variables: Vec<Variable>)
        ensures
            variables_view(variables@) == placeholder_variables(variables_reference),
    {
        let mut value = "value-".to_owned();
        push_signed_decimal(&mut value, variables_reference);
        let mut variables: Vec<Variable> = Vec::new();
        variables.push(
            Variable {
                name: "var".to_owned(),
                value,
                kind: "string".to_owned(),
                variables_reference: 0,
            },
        );
        variables.push(
            Variable {
                name: "counter".to_owned(),
                value: "123".to_owned(),
                kind: "int".to_owned(),
                variables_reference: 0,
            },
        );
        proof {
            assert(variables_view(variables@) =~= placeholder_variables(variables_reference));
        }
        variables
    }

    /// The raw frames of a thread: what `provider` gives for it, or without
    /// a provider the one default frame.
    pub fn backend_fetch_frames<P: Fn(i64) -> Vec<(i64, u64)>>(
        &self,
        thread_id: i64,
        provider: Option<&P>,
    ) -> (frames: Vec<(i64, u64)>)
        requires
            provider matches Some(p) ==> p.requires((thread_id,)),
        ensures
            fetched(provider, thread_id, self@.ctx.vmaddr_text, self@.ctx.slide, frames),
    {
        match provider {
            Some(p) => p(thread_id),
            None => {
                let mut frames: Vec<(i64, u64)> = Vec::new();
                let id = thread_id.wrapping_mul(100).wrapping_add(1);
                let pc = self.symbol_ctx.local_to_remote(self.symbol_ctx.main.vmaddr_text);
                frames.push((id, pc));
                frames
            },
        }
    }

    /// The stack frames shown for `raw_frames`, a frame id and a run-time
    /// address each. `symbolize` is asked about each address, translated to
    /// link time, and answers with what the debug information says of it.
    pub fn symbolicate<S: Fn(u64) -> Option<FrameSymbol>>(
        &self,
        raw_frames: &[(i64, u64)],
        symbolize: &S,
    ) -> (frames: Vec<StackFrame>)
        requires
            forall|probe: u64| symbolize.requires((probe,)),
        ensures
            shows_all(symbolize, self@.ctx.slide, raw_frames@, frames@),
    {
        let mut frames: Vec<StackFrame> = Vec::new();
        let mut i: usize = 0;
        while i < raw_frames.len()
            invariant
                i <= raw_frames.len(),
                frames@.len() == i,
                forall|probe: u64| symbolize.requires((probe,)),
                forall|k: int|
                    0 <= k < i ==> shows(
                        symbolize,
                        self@.ctx.slide,
                        raw_frames@[k],
                        k,
                        #[trigger] frames@[k],
                    ),
            decreases raw_frames.len() - i,
        {
            let (id, pc) = raw_frames[i];
            let ghost probe = remote_to_local(pc, self@.ctx.slide);
            let symbol = self.symbol_ctx.symbolize_frames(pc, symbolize);
            let ghost seen = symbol;
            let frame = frame_for(id, symbol, i);
            let ghost before = frames@;
            frames.push(frame);
            proof {
                assert(symbolize.ensures((probe,), seen));
                assert(frame@ == frame_of(raw_frames@[i as int].0, symbol_view(seen), i as int));
                assert(shows(symbolize, self@.ctx.slide, raw_frames@[i as int], i as int, frame));
                assert forall|k: int| 0 <= k < i + 1 implies shows(
                    symbolize,
                    self@.ctx.slide,
                    raw_frames@[k],
                    k,
                    #[trigger] frames@[k],
                ) by {
                    if k < i {
                        assert(frames@[k] == before[k]);
                    }
                }
            }
            i += 1;
        }
        frames
    }

    /// The stack of a thread: the frames that `provider` gives for it, or
    /// the default frame, each shown with what `symbolize` says of it.
    pub fn stack_trace<P: Fn(i64) -> Vec<(i64, u64)>, S: Fn(u64) -> Option<FrameSymbol>>(
        &self,
        thread_id: i64,
        provider: Option<&P>,
        symbolize: &S,
    ) -> (frames: Vec<StackFrame>)
        requires
            provider matches Some(p) ==> p.requires((thread_id,)),
            forall|probe: u64| symbolize.requires((probe,)),
        ensures
            exists|raw: Vec<(i64, u64)>|
                #[trigger] fetched(
                    provider,
                    thread_id,
                    self@.ctx.vmaddr_text,
                    self@.ctx.slide,
                    raw,
                ) && shows_all(symbolize, self@.ctx.slide, raw@, frames@),
    {
        let raw = self.backend_fetch_frames(thread_id, provider);
        let frames = self.symbolicate(raw.as_slice(), symbolize);
        proof {
            assert(fetched(provider, thread_id, self@.ctx.vmaddr_text, self@.ctx.slide, raw));
        }
        frames
    }

    /// The stack of a thread, with each frame shown as the debug information
    /// behind `loader` describes it: whatever the lookups give, there is one
    /// frame for each raw frame, made of what was found for it.
    pub fn stack_trace_with<P: Fn(i64) -> Vec<(i64, u64)>>(
        &self,
        thread_id: i64,
        provider: Option<&P>,
        loader: &addr2line::Loader,
    ) -> (frames: Vec<StackFrame>)
        requires
            provider matches Some(p) ==> p.requires((thread_id,)),
        ensures
            exists|raw: Vec<(i64, u64)>|
                #[trigger] fetched(
                    provider,
                    thread_id,
                    self@.ctx.vmaddr_text,
                    self@.ctx.slide,
                    raw,
                ) && described(raw@, frames@),
    {
        let raw = self.backend_fetch_frames(thread_id, provider);
        let mut frames: Vec<StackFrame> = Vec::new();
        let mut i: usize = 0;
        while i < raw.len()
            invariant
                i <= raw.len(),
                frames@.len() == i,
                forall|k: int| 0 <= k < i ==> describes(raw@[k], k, #[trigger] frames@[k]),
            decreases raw.len() - i,
        {
            let (id, pc) = raw[i];
            let symbol = innermost(frames_at(loader, self.symbol_ctx.translate_remote_pc(pc)));
            let ghost seen = symbol;
            let frame = frame_for(id, symbol, i);
            let ghost before = frames@;
            frames.push(frame);
            proof {
                assert(frame@ == frame_of(raw@[i as int].0, symbol_view(seen), i as int));
                assert(describes(raw@[i as int], i as int, frame));
                assert forall|k: int| 0 <= k < i + 1 implies describes(
                    raw@[k],
                    k,
                    #[trigger] frames@[k],
                ) by {
                    if k < i {
                        assert(frames@[k] == before[k]);
                    }
                }
            }
            i += 1;
        }
        proof {
            assert(fetched(provider, thread_id, self@.ctx.vmaddr_text, self@.ctx.slide, raw));
        }
        frames
    }

    fn resume(&mut self, step_only: bool, thread_id: i64) -> (step: BackendStep)
        ensures
            (final(self)@, step@) == resume_begun(
                old(self)@,
                if step_only {
                    "vCont;s"@
                } else {
                    "vCont;c"@
                },
            ),
            final(self).context() == old(self).context(),
    {
        if self.gdb_client.is_some() {
            let mut client = self.gdb_client.take().unwrap();
            let action = if step_only {
                client.step_thread(thread_id)
            } else {
                client.continue_all()
            };
            self.rest();
            self.gdb_client = Some(client);
            self.pending = Pending::Resuming;
            BackendStep::Wire(action)
        } else {
            self.end(
                BackendResult::Failed(
                    "no gdb-remote connection; call connect_debugserver first".to_owned(),
                ),
            )
        }
    }

    /// Starts resuming the target; the operation ends when the target has
    /// stopped again.
    pub fn continue_thread(&mut self, thread_id: i64) -> (step: BackendStep)
        ensures
            (final(self)@, step@) == resume_begun(old(self)@, "vCont;c"@),
            final(self).context() == old(self).context(),
    {
        self.resume(false, thread_id)
    }

    /// Starts a single step; the operation ends when the target has stopped
    /// again.
    pub fn step_over(&mut self, thread_id: i64) -> (step: BackendStep)
        ensures
            (final(self)@, step@) == resume_begun(old(self)@, "vCont;s"@),
            final(self).context() == old(self).context(),
    {
        self.resume(true, thread_id)
    }

    /// Starts a single step, as `step_over` does.
    pub fn step_in(&mut self, thread_id: i64) -> (step: BackendStep)
        ensures
            (final(self)@, step@) == resume_begun(old(self)@, "vCont;s"@),
            final(self).context() == old(self).context(),
    {
        self.step_over(thread_id)
    }

    /// Drops the connection and forgets the port.
    pub fn disconnect(&mut self) -> (step: BackendStep)
        ensures
            (final(self)@, step@) == disconnected(old(self)@),
            final(self).context() == old(self).context(),
    {
        self.connected_port = None;
        self.gdb_client = None;
        self.end(BackendResult::Done)
    }

    /// Takes what came of the last request and says what is needed next.
    pub fn advance(&mut self, event: BackendEvent) -> (step: BackendStep)
        ensures
            (final(self)@, step@) == backend_step(old(self)@, event@),
            final(self).context() == old(self).context(),
    {
        match (self.pending, event) {
            (Pending::Connecting, BackendEvent::Wire(e)) => {
                if self.dialing.is_none() {
                    return self.out_of_turn();
                }
                let mut client = self.dialing.take().unwrap();
                let port = client.port();
                let action = client.advance(e);
                match action {
                    WireAction::Done(Outcome::Failed(error)) => {
                        let mut message = "failed to connect to debugserver on port ".to_owned();
                        push_decimal(&mut message, port as u64);
                        message.append(": ");
                        message.append(error.message().as_str());
                        self.end(BackendResult::Failed(message))
                    },
                    WireAction::Done(_) => {
                        self.connected_port = Some(port);
                        self.gdb_client = Some(client);
                        self.end(BackendResult::Done)
                    },
                    _ => {
                        self.dialing = Some(client);
                        BackendStep::Wire(action)
                    },
                }
            },
            (Pending::Indexing, BackendEvent::LineIndex(loaded)) => match loaded {
                Ok(programs) => {
                    self.line_index = Some(LineIndex::new_from_dwarf(programs.as_slice()));
                    self.plan_and_plant()
                },
                Err(message) => {
                    let mut text = "Failed to build DWARF line index for ".to_owned();
                    text.append(debug_of_str(self.symbol_ctx.main.path.as_str()).as_str());
                    text.append(": ");
                    text.append(message.as_str());
                    self.end(BackendResult::Failed(text))
                },
            },
            (Pending::Planting, BackendEvent::Wire(e)) => {
                if self.gdb_client.is_none() {
                    return self.out_of_turn();
                }
                let mut client = self.gdb_client.take().unwrap();
                let action = client.advance(e);
                self.gdb_client = Some(client);
                match action {
                    WireAction::Done(Outcome::Failed(error)) => {
                        let mut message = "failed to plant breakpoint: ".to_owned();
                        message.append(error.message().as_str());
                        self.end(BackendResult::Failed(message))
                    },
                    WireAction::Done(_) => {
                        let mut queue: Vec<u64> = Vec::new();
                        core::mem::swap(&mut queue, &mut self.queue);
                        let from = if self.next <= queue.len() {
                            self.next
                        } else {
                            queue.len()
                        };
                        proof {
                            assert(queue@.skip(queue@.len() as int) == Seq::<u64>::empty());
                        }
                        self.plant_from(queue, from)
                    },
                    _ => BackendStep::Wire(action),
                }
            },
            (Pending::Resuming, BackendEvent::Wire(e)) => {
                if self.gdb_client.is_none() {
                    return self.out_of_turn();
                }
                let mut client = self.gdb_client.take().unwrap();
                let action = client.advance(e);
                match action {
                    WireAction::Done(Outcome::Failed(error)) => {
                        self.gdb_client = Some(client);
                        self.end(BackendResult::Failed(error.message()))
                    },
                    WireAction::Done(_) => {
                        let read = client.wait_for_stop();
                        self.gdb_client = Some(client);
                        self.pending = Pending::Stopping;
                        BackendStep::Wire(read)
                    },
                    _ => {
                        self.gdb_client = Some(client);
                        BackendStep::Wire(action)
                    },
                }
            },
            (Pending::Stopping, BackendEvent::Wire(e)) => {
                if self.gdb_client.is_none() {
                    return self.out_of_turn();
                }
                let mut client = self.gdb_client.take().unwrap();
                let action = client.advance(e);
                self.gdb_client = Some(client);
                match action {
                    WireAction::Done(Outcome::Failed(error)) => self.end(
                        BackendResult::Failed(error.message()),
                    ),
                    WireAction::Done(Outcome::Stopped(reply)) => self.end(
                        BackendResult::Stopped(BackendStopEvent::from_reply(reply)),
                    ),
                    WireAction::Done(Outcome::Ready) => self.end(BackendResult::Done),
                    _ => BackendStep::Wire(action),
                }
            },
            _ => self.out_of_turn(),
        }
    }
}

} // verus!
