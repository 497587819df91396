//! Messages of the Debug Adapter Protocol as JSON: what the session sends,
//! written out, and what the editor sends, read in.

use vstd::prelude::*;
use vstd::string::StringExecFns;
use crate::backend::{
    BackendStopEvent, Scope, ScopeView, StackFrame, StackFrameView, StopEventView, ThreadInfo,
    Variable, VariableView,
};
use crate::hex::{decimal, push_decimal, signed_decimal};
use crate::json::{
    array, bool_member, i64_at, json_bool, json_i64_at, json_kind_at, json_len_at,
    json_optional, json_string, json_text_at, kind_at, len_at, member, number_member, object,
    optional_member, text_at, text_member, write_array, write_member, write_object, JsonKind,
};
use crate::session::{
    shape_of, argument_shape, ArgumentShape, Arguments, ArgumentsView, BodyView, Breakpoint,
    Outbound, OutboundView, Request, RequestView, ResponseBody,
};
use crate::text::{chars_of, is_word, text_of, texts};

verus! {

/// A thread as JSON.
pub open spec fn thread_json(t: (i64, Seq<char>)) -> Seq<char> {
    object(seq![member("id"@, signed_decimal(t.0 as int)), member("name"@, json_string(t.1))])
}

/// A stack frame as JSON.
pub open spec fn frame_json(f: StackFrameView) -> Seq<char> {
    object(
        seq![
            member("column"@, signed_decimal(f.column as int)),
            member("id"@, signed_decimal(f.id as int)),
            member("line"@, signed_decimal(f.line as int)),
            member("name"@, json_string(f.name)),
            member("presentationHint"@, json_string(f.presentation_hint)),
            member(
                "source"@,
                object(
                    seq![
                        member("name"@, json_string(f.source_name)),
                        member("path"@, json_string(f.source_path)),
                    ],
                ),
            ),
        ],
    )
}

/// A scope as JSON.
pub open spec fn scope_json(s: ScopeView) -> Seq<char> {
    object(
        seq![
            member("expensive"@, json_bool(s.2)),
            member("name"@, json_string(s.0)),
            member("variablesReference"@, signed_decimal(s.1 as int)),
        ],
    )
}

/// A variable as JSON.
pub open spec fn variable_json(v: VariableView) -> Seq<char> {
    object(
        seq![
            member("name"@, json_string(v.0)),
            member("type"@, json_string(v.2)),
            member("value"@, json_string(v.1)),
            member("variablesReference"@, signed_decimal(v.3 as int)),
        ],
    )
}

/// A breakpoint as JSON.
pub open spec fn breakpoint_json(b: Breakpoint) -> Seq<char> {
    object(
        seq![
            member("line"@, signed_decimal(b.line as int)),
            member("verified"@, json_bool(b.verified)),
        ],
    )
}

/// The event of a stop as JSON.
pub open spec fn stop_json(e: StopEventView) -> Seq<char> {
    object(
        seq![
            member("description"@, json_string(e.description)),
            member("reason"@, json_string(e.reason)),
            member("threadId"@, signed_decimal(e.thread_id as int)),
        ],
    )
}

/// The body of a response as JSON.
pub open spec fn body_json(body: BodyView) -> Seq<char> {
    match body {
        BodyView::Capabilities { supports_configuration_done_request } => object(
            seq![
                member(
                    "supportsConfigurationDoneRequest"@,
                    json_bool(supports_configuration_done_request),
                ),
            ],
        ),
        BodyView::Launched { program, cwd, debugserver_port } => object(
            seq![
                member("cwd"@, json_optional(cwd)),
                member("debugserverPort"@, signed_decimal(debugserver_port as int)),
                member("program"@, json_optional(program)),
            ],
        ),
        BodyView::Breakpoints(list) => object(
            seq![member("breakpoints"@, array(list.map_values(|b: Breakpoint| breakpoint_json(b))))],
        ),
        BodyView::Threads(list) => object(
            seq![
                member("threads"@, array(list.map_values(|t: (i64, Seq<char>)| thread_json(t)))),
            ],
        ),
        BodyView::StackTrace { stack_frames, total_frames } => object(
            seq![
                member(
                    "stackFrames"@,
                    array(stack_frames.map_values(|f: StackFrameView| frame_json(f))),
                ),
                member("totalFrames"@, signed_decimal(total_frames as int)),
            ],
        ),
        BodyView::Scopes(list) => object(
            seq![member("scopes"@, array(list.map_values(|s: ScopeView| scope_json(s))))],
        ),
        BodyView::Variables(list) => object(
            seq![
                member("variables"@, array(list.map_values(|v: VariableView| variable_json(v)))),
            ],
        ),
        BodyView::Continued { all_threads_continued } => object(
            seq![member("allThreadsContinued"@, json_bool(all_threads_continued))],
        ),
    }
}

/// The members with one more behind them, where there is one more.
pub open spec fn with_optional(members: Seq<Seq<char>>, more: Option<Seq<char>>) -> Seq<Seq<char>> {
    match more {
        Some(m) => members.push(m),
        None => members,
    }
}

/// A message to the editor as JSON. A response holds its number, its type,
/// the number of the request, whether it succeeded and the command, and a
/// message and a body only where it has them; an event holds its number, its
/// type and its name, and a body only where it has one.
pub open spec fn outbound_json(m: OutboundView) -> Seq<char> {
    match m {
        OutboundView::Response { seq, request_seq, success, command, message, body } => object(
            with_optional(
                with_optional(
                    seq![
                        member("seq"@, signed_decimal(seq as int)),
                        member("type"@, json_string("response"@)),
                        member("request_seq"@, signed_decimal(request_seq as int)),
                        member("success"@, json_bool(success)),
                        member("command"@, json_string(command)),
                    ],
                    match message {
                        Some(text) => Some(member("message"@, json_string(text))),
                        None => None,
                    },
                ),
                match body {
                    Some(b) => Some(member("body"@, body_json(b))),
                    None => None,
                },
            ),
        ),
        OutboundView::Event { seq, event, body } => object(
            with_optional(
                seq![
                    member("seq"@, signed_decimal(seq as int)),
                    member("type"@, json_string("event"@)),
                    member("event"@, json_string(event)),
                ],
                match body {
                    Some(b) => Some(member("body"@, stop_json(b))),
                    None => None,
                },
            ),
        ),
    }
}

fn write_thread(t: &ThreadInfo) -> (out: String)
    ensures
        out@ == thread_json((t.id, t.name@)),
{
    let mut members: Vec<String> = Vec::new();
    members.push(number_member("id", t.id));
    members.push(text_member("name", t.name.as_str()));
    proof {
        assert(texts(members@) =~= seq![
            member("id"@, signed_decimal(t.id as int)),
            member("name"@, json_string(t.name@)),
        ]);
    }
    write_object(members.as_slice())
}

fn write_frame(f: &StackFrame) -> (out: String)
    ensures
        out@ == frame_json(f@),
{
    let mut source: Vec<String> = Vec::new();
    source.push(text_member("name", f.source_name.as_str()));
    source.push(text_member("path", f.source_path.as_str()));
    proof {
        assert(texts(source@) =~= seq![
            member("name"@, json_string(f.source_name@)),
            member("path"@, json_string(f.source_path@)),
        ]);
    }
    let source_text = write_object(source.as_slice());
    let mut members: Vec<String> = Vec::new();
    members.push(number_member("column", f.column));
    members.push(number_member("id", f.id));
    members.push(number_member("line", f.line));
    members.push(text_member("name", f.name.as_str()));
    members.push(text_member("presentationHint", f.presentation_hint.as_str()));
    members.push(write_member("source", source_text.as_str()));
    proof {
        assert(texts(members@) =~= seq![
            member("column"@, signed_decimal(f.column as int)),
            member("id"@, signed_decimal(f.id as int)),
            member("line"@, signed_decimal(f.line as int)),
            member("name"@, json_string(f.name@)),
            member("presentationHint"@, json_string(f.presentation_hint@)),
            member("source"@, source_text@),
        ]);
    }
    write_object(members.as_slice())
}

fn write_scope(s: &Scope) -> (out: String)
    ensures
        out@ == scope_json((s.name@, s.variables_reference, s.expensive)),
{
    let mut members: Vec<String> = Vec::new();
    members.push(bool_member("expensive", s.expensive));
    members.push(text_member("name", s.name.as_str()));
    members.push(number_member("variablesReference", s.variables_reference));
    proof {
        assert(texts(members@) =~= seq![
            member("expensive"@, json_bool(s.expensive)),
            member("name"@, json_string(s.name@)),
            member("variablesReference"@, signed_decimal(s.variables_reference as int)),
        ]);
    }
    write_object(members.as_slice())
}

fn write_variable(v: &Variable) -> (out: String)
    ensures
        out@ == variable_json((v.name@, v.value@, v.kind@, v.variables_reference)),
{
    let mut members: Vec<String> = Vec::new();
    members.push(text_member("name", v.name.as_str()));
    members.push(text_member("type", v.kind.as_str()));
    members.push(text_member("value", v.value.as_str()));
    members.push(number_member("variablesReference", v.variables_reference));
    proof {
        assert(texts(members@) =~= seq![
            member("name"@, json_string(v.name@)),
            member("type"@, json_string(v.kind@)),
            member("value"@, json_string(v.value@)),
            member("variablesReference"@, signed_decimal(v.variables_reference as int)),
        ]);
    }
    write_object(members.as_slice())
}

fn write_breakpoint(b: &Breakpoint) -> (out: String)
    ensures
        out@ == breakpoint_json(*b),
{
    let mut members: Vec<String> = Vec::new();
    members.push(number_member("line", b.line));
    members.push(bool_member("verified", b.verified));
    proof {
        assert(texts(members@) =~= seq![
            member("line"@, signed_decimal(b.line as int)),
            member("verified"@, json_bool(b.verified)),
        ]);
    }
    write_object(members.as_slice())
}

fn write_stop(e: &BackendStopEvent) -> (out: String)
    ensures
        out@ == stop_json(e@),
{
    let mut members: Vec<String> = Vec::new();
    members.push(text_member("description", e.description.as_str()));
    members.push(text_member("reason", e.reason.as_str()));
    members.push(number_member("threadId", e.thread_id));
    proof {
        assert(texts(members@) =~= seq![
            member("description"@, json_string(e.description@)),
            member("reason"@, json_string(e.reason@)),
            member("threadId"@, signed_decimal(e.thread_id as int)),
        ]);
    }
    write_object(members.as_slice())
}

/// An object with the one member `name`, whose value is `value`.
fn write_single(name: &str, value: &str) -> (out: String)
    ensures
        out@ == object(seq![member(name@, value@)]),
{
    let mut members: Vec<String> = Vec::new();
    members.push(write_member(name, value));
    proof {
        assert(texts(members@) =~= seq![member(name@, value@)]);
    }
    write_object(members.as_slice())
}

fn write_breakpoints(list: &Vec<Breakpoint>) -> (out: String)
    ensures
        out@ == array(list@.map_values(|b: Breakpoint| breakpoint_json(b))),
{
    let mut items: Vec<String> = Vec::new();
    let mut i: usize = 0;
    while i < list.len()
        invariant
            i <= list.len(),
            items@.len() == i,
            forall|k: int| 0 <= k < i ==> (#[trigger] items@[k])@ == breakpoint_json(list@[k]),
        decreases list.len() - i,
    {
        items.push(write_breakpoint(&list[i]));
        i += 1;
    }
    proof {
        assert(texts(items@) =~= list@.map_values(
            |b: Breakpoint| breakpoint_json(b),
        ));
    }
    write_array(items.as_slice())
}

fn write_threads(list: &Vec<ThreadInfo>) -> (out: String)
    ensures
        out@ == array(
            crate::backend::threads_view(list@).map_values(|t: (i64, Seq<char>)| thread_json(t)),
        ),
{
    let mut items: Vec<String> = Vec::new();
    let mut i: usize = 0;
    while i < list.len()
        invariant
            i <= list.len(),
            items@.len() == i,
            forall|k: int|
                0 <= k < i ==> (#[trigger] items@[k])@ == thread_json(
                    (list@[k].id, list@[k].name@),
                ),
        decreases list.len() - i,
    {
        items.push(write_thread(&list[i]));
        i += 1;
    }
    proof {
        assert(texts(items@) =~= crate::backend::threads_view(list@).map_values(
            |t: (i64, Seq<char>)| thread_json(t),
        ));
    }
    write_array(items.as_slice())
}

fn write_frames(list: &Vec<StackFrame>) -> (out: String)
    ensures
        out@ == array(
            crate::backend::frames_view(list@).map_values(|f: StackFrameView| frame_json(f)),
        ),
{
    let mut items: Vec<String> = Vec::new();
    let mut i: usize = 0;
    while i < list.len()
        invariant
            i <= list.len(),
            items@.len() == i,
            forall|k: int| 0 <= k < i ==> (#[trigger] items@[k])@ == frame_json(list@[k]@),
        decreases list.len() - i,
    {
        items.push(write_frame(&list[i]));
        i += 1;
    }
    proof {
        assert(texts(items@) =~= crate::backend::frames_view(list@).map_values(
            |f: StackFrameView| frame_json(f),
        ));
    }
    write_array(items.as_slice())
}

fn write_scopes(list: &Vec<Scope>) -> (out: String)
    ensures
        out@ == array(crate::backend::scopes_view(list@).map_values(|s: ScopeView| scope_json(s))),
{
    let mut items: Vec<String> = Vec::new();
    let mut i: usize = 0;
    while i < list.len()
        invariant
            i <= list.len(),
            items@.len() == i,
            forall|k: int|
                0 <= k < i ==> (#[trigger] items@[k])@ == scope_json(
                    (list@[k].name@, list@[k].variables_reference, list@[k].expensive),
                ),
        decreases list.len() - i,
    {
        items.push(write_scope(&list[i]));
        i += 1;
    }
    proof {
        assert(texts(items@) =~= crate::backend::scopes_view(list@).map_values(
            |s: ScopeView| scope_json(s),
        ));
    }
    write_array(items.as_slice())
}

fn write_variables(list: &Vec<Variable>) -> (out: String)
    ensures
        out@ == array(
            crate::backend::variables_view(list@).map_values(|v: VariableView| variable_json(v)),
        ),
{
    let mut items: Vec<String> = Vec::new();
    let mut i: usize = 0;
    while i < list.len()
        invariant
            i <= list.len(),
            items@.len() == i,
            forall|k: int|
                0 <= k < i ==> (#[trigger] items@[k])@ == variable_json(
                    (
                        list@[k].name@,
                        list@[k].value@,
                        list@[k].kind@,
                        list@[k].variables_reference,
                    ),
                ),
        decreases list.len() - i,
    {
        items.push(write_variable(&list[i]));
        i += 1;
    }
    proof {
        assert(texts(items@) =~= crate::backend::variables_view(list@).map_values(
            |v: VariableView| variable_json(v),
        ));
    }
    write_array(items.as_slice())
}

fn write_launched(program: &Option<String>, cwd: &Option<String>, debugserver_port: u16) -> (out:
    String)
    ensures
        out@ == body_json(
            BodyView::Launched {
                program: text_of(*program),
                cwd: text_of(*cwd),
                debugserver_port,
            },
        ),
{
    let mut members: Vec<String> = Vec::new();
    members.push(optional_member("cwd", cwd));
    members.push(number_member("debugserverPort", debugserver_port as i64));
    members.push(optional_member("program", program));
    proof {
        assert(texts(members@) =~= seq![
            member("cwd"@, json_optional(text_of(*cwd))),
            member("debugserverPort"@, signed_decimal(debugserver_port as int)),
            member("program"@, json_optional(text_of(*program))),
        ]);
    }
    write_object(members.as_slice())
}

fn write_stack(stack_frames: &Vec<StackFrame>, total_frames: i64) -> (out: String)
    ensures
        out@ == body_json(
            BodyView::StackTrace {
                stack_frames: crate::backend::frames_view(stack_frames@),
                total_frames,
            },
        ),
{
    let frames = write_frames(stack_frames);
    let mut members: Vec<String> = Vec::new();
    members.push(write_member("stackFrames", frames.as_str()));
    members.push(number_member("totalFrames", total_frames));
    proof {
        assert(texts(members@) =~= seq![
            member("stackFrames"@, frames@),
            member("totalFrames"@, signed_decimal(total_frames as int)),
        ]);
    }
    write_object(members.as_slice())
}

/// Writes the body of a response as JSON.
pub fn write_body(body: &ResponseBody) -> (out: String)
    ensures
        out@ == body_json(body@),
{
    match body {
        ResponseBody::Capabilities { supports_configuration_done_request } => write_single(
            "supportsConfigurationDoneRequest",
            if *supports_configuration_done_request {
                "true"
            } else {
                "false"
            },
        ),
        ResponseBody::Launched { program, cwd, debugserver_port } => write_launched(
            program,
            cwd,
            *debugserver_port,
        ),
        ResponseBody::Breakpoints(list) => write_single(
            "breakpoints",
            write_breakpoints(list).as_str(),
        ),
        ResponseBody::Threads(list) => write_single("threads", write_threads(list).as_str()),
        ResponseBody::StackTrace { stack_frames, total_frames } => write_stack(
            stack_frames,
            *total_frames,
        ),
        ResponseBody::Scopes(list) => write_single("scopes", write_scopes(list).as_str()),
        ResponseBody::Variables(list) => write_single(
            "variables",
            write_variables(list).as_str(),
        ),
        ResponseBody::Continued { all_threads_continued } => write_single(
            "allThreadsContinued",
            if *all_threads_continued {
                "true"
            } else {
                "false"
            },
        ),
    }
}

/// Writes a message to the editor as JSON.
pub fn write_outbound(m: &Outbound) -> (out: String)
    ensures
        out@ == outbound_json(m@),
{
    let mut members: Vec<String> = Vec::new();
    match m {
        Outbound::Response { seq, request_seq, success, command, message, body } => {
            members.push(number_member("seq", *seq));
            members.push(text_member("type", "response"));
            members.push(number_member("request_seq", *request_seq));
            members.push(bool_member("success", *success));
            members.push(text_member("command", command.as_str()));
            let ghost fixed = texts(members@);
            proof {
                assert(fixed =~= seq![
                    member("seq"@, signed_decimal(*seq as int)),
                    member("type"@, json_string("response"@)),
                    member("request_seq"@, signed_decimal(*request_seq as int)),
                    member("success"@, json_bool(*success)),
                    member("command"@, json_string(command@)),
                ]);
            }
            let ghost first: Option<Seq<char>> = match message {
                Some(text) => Some(member("message"@, json_string(text@))),
                None => None,
            };
            match message {
                Some(text) => {
                    members.push(text_member("message", text.as_str()));
                },
                None => {},
            }
            let ghost middle = texts(members@);
            proof {
                assert(middle =~= with_optional(fixed, first));
            }
            let ghost second: Option<Seq<char>> = match body {
                Some(b) => Some(member("body"@, body_json(b@))),
                None => None,
            };
            match body {
                Some(b) => {
                    members.push(write_member("body", write_body(b).as_str()));
                },
                None => {},
            }
            proof {
                assert(texts(members@) =~= with_optional(middle, second));
            }
        },
        Outbound::Event { seq, event, body } => {
            members.push(number_member("seq", *seq));
            members.push(text_member("type", "event"));
            members.push(text_member("event", event.as_str()));
            let ghost fixed = texts(members@);
            proof {
                assert(fixed =~= seq![
                    member("seq"@, signed_decimal(*seq as int)),
                    member("type"@, json_string("event"@)),
                    member("event"@, json_string(event@)),
                ]);
            }
            let ghost first: Option<Seq<char>> = match body {
                Some(b) => Some(member("body"@, stop_json(b@))),
                None => None,
            };
            match body {
                Some(b) => {
                    members.push(write_member("body", write_stop(b).as_str()));
                },
                None => {},
            }
            proof {
                assert(texts(members@) =~= with_optional(fixed, first));
            }
        },
    }
    write_object(members.as_slice())
}

/// The message for a field that a request must have and has not.
pub open spec fn missing_field(name: Seq<char>) -> Seq<char> {
    "missing field `"@ + name + "`"@
}

/// The message for a field whose value is not of the kind it must be.
pub open spec fn invalid_field(name: Seq<char>) -> Seq<char> {
    "invalid value for field `"@ + name + "`"@
}

/// The integer that must stand at `pointer`.
pub open spec fn required_integer(text: Seq<char>, pointer: Seq<char>, name: Seq<char>) -> Result<
    i64,
    Seq<char>,
> {
    match json_kind_at(text, pointer) {
        Err(m) => Err(m),
        Ok(None) => Err(missing_field(name)),
        Ok(Some(_)) => match json_i64_at(text, pointer) {
            Some(v) => Ok(v),
            None => Err(invalid_field(name)),
        },
    }
}

/// The port that must stand at `pointer`: an integer from 0 to 65535.
pub open spec fn required_port(text: Seq<char>, pointer: Seq<char>, name: Seq<char>) -> Result<
    u16,
    Seq<char>,
> {
    match required_integer(text, pointer, name) {
        Err(m) => Err(m),
        Ok(v) => if 0 <= v <= u16::MAX {
            Ok(v as u16)
        } else {
            Err(invalid_field(name))
        },
    }
}

/// The string that must stand at `pointer`.
pub open spec fn required_text(text: Seq<char>, pointer: Seq<char>, name: Seq<char>) -> Result<
    Seq<char>,
    Seq<char>,
> {
    match json_kind_at(text, pointer) {
        Err(m) => Err(m),
        Ok(None) => Err(missing_field(name)),
        Ok(Some(_)) => match json_text_at(text, pointer) {
            Some(v) => Ok(v),
            None => Err(invalid_field(name)),
        },
    }
}

/// The string that may stand at `pointer`: none where there is nothing or
/// `null`.
pub open spec fn optional_text(text: Seq<char>, pointer: Seq<char>, name: Seq<char>) -> Result<
    Option<Seq<char>>,
    Seq<char>,
> {
    match json_kind_at(text, pointer) {
        Err(m) => Err(m),
        Ok(None) => Ok(None),
        Ok(Some(JsonKind::Null)) => Ok(None),
        Ok(Some(_)) => match json_text_at(text, pointer) {
            Some(v) => Ok(Some(v)),
            None => Err(invalid_field(name)),
        },
    }
}

/// Where the line of the breakpoint at `index` stands.
pub open spec fn line_pointer(index: nat) -> Seq<char> {
    "/arguments/breakpoints/"@ + decimal(index) + "/line"@
}

/// The lines of the first `count` breakpoints of a request.
pub open spec fn lines_upto(text: Seq<char>, count: nat) -> Result<Seq<i64>, Seq<char>>
    decreases count,
{
    if count == 0 {
        Ok(Seq::empty())
    } else {
        match lines_upto(text, (count - 1) as nat) {
            Err(m) => Err(m),
            Ok(lines) => match required_integer(
                text,
                line_pointer((count - 1) as nat),
                "line"@,
            ) {
                Ok(line) => Ok(lines.push(line)),
                Err(m) => Err(m),
            },
        }
    }
}

/// The lines of the breakpoints of a request; none where the request has
/// no list of them.
pub open spec fn breakpoint_lines(text: Seq<char>) -> Result<Seq<i64>, Seq<char>> {
    match json_kind_at(text, "/arguments/breakpoints"@) {
        Err(m) => Err(m),
        Ok(None) => Ok(Seq::empty()),
        Ok(Some(JsonKind::Array)) => match json_len_at(text, "/arguments/breakpoints"@) {
            Some(n) => lines_upto(text, n as nat),
            None => Err(invalid_field("breakpoints"@)),
        },
        Ok(Some(_)) => Err(invalid_field("breakpoints"@)),
    }
}

/// The path of the source of a `setBreakpoints` request, which must have a
/// source.
pub open spec fn source_path(text: Seq<char>) -> Result<Option<Seq<char>>, Seq<char>> {
    match json_kind_at(text, "/arguments/source"@) {
        Err(m) => Err(m),
        Ok(None) => Err(missing_field("source"@)),
        Ok(Some(JsonKind::Object)) => optional_text(text, "/arguments/source/path"@, "path"@),
        Ok(Some(_)) => Err(invalid_field("source"@)),
    }
}

/// The arguments of a request, read as `shape` says. The first field that
/// is missing or of the wrong kind makes them invalid.
pub open spec fn arguments_of(text: Seq<char>, shape: ArgumentShape) -> ArgumentsView {
    match shape {
        ArgumentShape::Nothing => ArgumentsView::Absent,
        ArgumentShape::Launch => match required_port(
            text,
            "/arguments/debugserverPort"@,
            "debugserverPort"@,
        ) {
            Err(m) => ArgumentsView::Invalid(m),
            Ok(debugserver_port) => match required_text(
                text,
                "/arguments/program"@,
                "program"@,
            ) {
                Err(m) => ArgumentsView::Invalid(m),
                Ok(program) => match optional_text(text, "/arguments/cwd"@, "cwd"@) {
                    Err(m) => ArgumentsView::Invalid(m),
                    Ok(cwd) => ArgumentsView::Launch { debugserver_port, program, cwd },
                },
            },
        },
        ArgumentShape::Attach => match required_port(
            text,
            "/arguments/debugserverPort"@,
            "debugserverPort"@,
        ) {
            Err(m) => ArgumentsView::Invalid(m),
            Ok(debugserver_port) => match optional_text(
                text,
                "/arguments/program"@,
                "program"@,
            ) {
                Err(m) => ArgumentsView::Invalid(m),
                Ok(program) => match optional_text(text, "/arguments/cwd"@, "cwd"@) {
                    Err(m) => ArgumentsView::Invalid(m),
                    Ok(cwd) => ArgumentsView::Attach { debugserver_port, program, cwd },
                },
            },
        },
        ArgumentShape::SetBreakpoints => match source_path(text) {
            Err(m) => ArgumentsView::Invalid(m),
            Ok(source_path) => match breakpoint_lines(text) {
                Err(m) => ArgumentsView::Invalid(m),
                Ok(lines) => ArgumentsView::SetBreakpoints { source_path, lines },
            },
        },
        ArgumentShape::StackTrace => match required_integer(
            text,
            "/arguments/threadId"@,
            "threadId"@,
        ) {
            Err(m) => ArgumentsView::Invalid(m),
            Ok(thread_id) => ArgumentsView::StackTrace { thread_id },
        },
        ArgumentShape::Scopes => match required_integer(
            text,
            "/arguments/frameId"@,
            "frameId"@,
        ) {
            Err(m) => ArgumentsView::Invalid(m),
            Ok(frame_id) => ArgumentsView::Scopes { frame_id },
        },
        ArgumentShape::Variables => match required_integer(
            text,
            "/arguments/variablesReference"@,
            "variablesReference"@,
        ) {
            Err(m) => ArgumentsView::Invalid(m),
            Ok(variables_reference) => ArgumentsView::Variables { variables_reference },
        },
        ArgumentShape::Thread => match required_integer(
            text,
            "/arguments/threadId"@,
            "threadId"@,
        ) {
            Err(m) => ArgumentsView::Invalid(m),
            Ok(thread_id) => ArgumentsView::Thread { thread_id },
        },
    }
}

/// The request that a message of the editor holds: the message must be a
/// JSON document of type `request` with a number and a command. Anything
/// else is no request, and is passed over.
pub open spec fn request_of(text: Seq<char>) -> Option<RequestView> {
    if json_text_at(text, "/type"@) != Some("request"@) {
        None
    } else {
        match (json_i64_at(text, "/seq"@), json_text_at(text, "/command"@)) {
            (Some(seq), Some(command)) => Some(
                RequestView { seq, command, arguments: arguments_of(text, shape_of(command)) },
            ),
            _ => None,
        }
    }
}

/// What a message of the editor is to the session.
#[derive(Debug)]
pub enum Envelope {
    /// A request, to be handled.
    Request(Request),
    /// A message of another type, which is passed over in silence.
    Other,
    /// Nothing that can be read: no JSON document with a type, or a request
    /// without a number or a command.
    Unreadable,
}

/// An envelope as a mathematical value.
pub enum EnvelopeView {
    Request(RequestView),
    Other,
    Unreadable,
}

impl View for Envelope {
    type V = EnvelopeView;

    open spec fn view(&self) -> EnvelopeView {
        match self {
            Envelope::Request(r) => EnvelopeView::Request(r@),
            Envelope::Other => EnvelopeView::Other,
            Envelope::Unreadable => EnvelopeView::Unreadable,
        }
    }
}

/// What a message is: by its type a request or another message, and
/// unreadable where it names no type or is a request that lacks a part.
pub open spec fn envelope_of(text: Seq<char>) -> EnvelopeView {
    match json_text_at(text, "/type"@) {
        None => EnvelopeView::Unreadable,
        Some(kind) => if kind != "request"@ {
            EnvelopeView::Other
        } else {
            match request_of(text) {
                Some(r) => EnvelopeView::Request(r),
                None => EnvelopeView::Unreadable,
            }
        },
    }
}

/// The view of an optional request.
pub open spec fn request_view(r: Option<Request>) -> Option<RequestView> {
    match r {
        Some(r) => Some(r@),
        None => None,
    }
}

/// The view of a result that holds a value or a message.
pub open spec fn found<T>(r: Result<T, String>) -> Result<T, Seq<char>> {
    match r {
        Ok(v) => Ok(v),
        Err(m) => Err(m@),
    }
}

/// The view of a result that holds text or a message.
pub open spec fn found_text(r: Result<String, String>) -> Result<Seq<char>, Seq<char>> {
    match r {
        Ok(v) => Ok(v@),
        Err(m) => Err(m@),
    }
}

/// The view of a result that holds optional text or a message.
pub open spec fn found_optional(r: Result<Option<String>, String>) -> Result<
    Option<Seq<char>>,
    Seq<char>,
> {
    match r {
        Ok(Some(v)) => Ok(Some(v@)),
        Ok(None) => Ok(None),
        Err(m) => Err(m@),
    }
}

fn missing(name: &str) -> (message: String)
    ensures
        message@ == missing_field(name@),
{
    let mut message = "missing field `".to_owned();
    message.append(name);
    message.append("`");
    message
}

fn invalid(name: &str) -> (message: String)
    ensures
        message@ == invalid_field(name@),
{
    let mut message = "invalid value for field `".to_owned();
    message.append(name);
    message.append("`");
    message
}

fn read_integer(text: &str, pointer: &str, name: &str) -> (value: Result<i64, String>)
    ensures
        found(value) == required_integer(text@, pointer@, name@),
{
    match kind_at(text, pointer) {
        Err(m) => Err(m),
        Ok(None) => Err(missing(name)),
        Ok(Some(_)) => match i64_at(text, pointer) {
            Some(v) => Ok(v),
            None => Err(invalid(name)),
        },
    }
}

fn read_port(text: &str, pointer: &str, name: &str) -> (value: Result<u16, String>)
    ensures
        found(value) == required_port(text@, pointer@, name@),
{
    match read_integer(text, pointer, name) {
        Err(m) => Err(m),
        Ok(v) => if 0 <= v && v <= 65535 {
            Ok(v as u16)
        } else {
            Err(invalid(name))
        },
    }
}

fn read_text(text: &str, pointer: &str, name: &str) -> (value: Result<String, String>)
    ensures
        found_text(value) == required_text(text@, pointer@, name@),
{
    match kind_at(text, pointer) {
        Err(m) => Err(m),
        Ok(None) => Err(missing(name)),
        Ok(Some(_)) => match text_at(text, pointer) {
            Some(v) => Ok(v),
            None => Err(invalid(name)),
        },
    }
}

fn read_optional_text(text: &str, pointer: &str, name: &str) -> (value: Result<
    Option<String>,
    String,
>)
    ensures
        found_optional(value) == optional_text(text@, pointer@, name@),
{
    match kind_at(text, pointer) {
        Err(m) => Err(m),
        Ok(None) => Ok(None),
        Ok(Some(JsonKind::Null)) => Ok(None),
        Ok(Some(_)) => match text_at(text, pointer) {
            Some(v) => Ok(Some(v)),
            None => Err(invalid(name)),
        },
    }
}

/// The view of a result that holds lines or a message.
pub open spec fn found_lines(r: Result<Vec<i64>, String>) -> Result<Seq<i64>, Seq<char>> {
    match r {
        Ok(v) => Ok(v@),
        Err(m) => Err(m@),
    }
}

fn read_lines(text: &str) -> (lines: Result<Vec<i64>, String>)
    ensures
        found_lines(lines) == breakpoint_lines(text@),
{
    let count = match kind_at(text, "/arguments/breakpoints") {
        Err(m) => {
            return Err(m);
        },
        Ok(None) => {
            return Ok(Vec::new());
        },
        Ok(Some(JsonKind::Array)) => match len_at(text, "/arguments/breakpoints") {
            Some(n) => n,
            None => {
                return Err(invalid("breakpoints"));
            },
        },
        Ok(Some(_)) => {
            return Err(invalid("breakpoints"));
        },
    };
    let mut lines: Vec<i64> = Vec::new();
    let mut i: usize = 0;
    while i < count
        invariant
            i <= count,
            breakpoint_lines(text@) == lines_upto(text@, count as nat),
            lines_upto(text@, i as nat) == Ok::<Seq<i64>, Seq<char>>(lines@),
        decreases count - i,
    {
        let mut pointer = "/arguments/breakpoints/".to_owned();
        push_decimal(&mut pointer, i as u64);
        pointer.append("/line");
        match read_integer(text, pointer.as_str(), "line") {
            Ok(line) => {
                lines.push(line);
            },
            Err(m) => {
                proof {
                    assert(pointer@ == line_pointer(i as nat));
                    assert(lines_upto(text@, (i + 1) as nat) == Err::<Seq<i64>, Seq<char>>(m@));
                    lemma_lines_fail(text@, (i + 1) as nat, count as nat);
                }
                return Err(m);
            },
        }
        i += 1;
    }
    Ok(lines)
}

proof fn lemma_lines_fail(text: Seq<char>, k: nat, n: nat)
    requires
        k <= n,
        lines_upto(text, k) is Err,
    ensures
        lines_upto(text, n) == lines_upto(text, k),
    decreases n - k,
{
    if k < n {
        lemma_lines_fail(text, k, (n - 1) as nat);
    }
}

fn read_arguments(text: &str, shape: ArgumentShape) -> (arguments: Arguments)
    ensures
        arguments@ == arguments_of(text@, shape),
{
    match shape {
        ArgumentShape::Nothing => Arguments::Absent,
        ArgumentShape::Launch => {
            let debugserver_port = match read_port(
                text,
                "/arguments/debugserverPort",
                "debugserverPort",
            ) {
                Ok(v) => v,
                Err(m) => {
                    return Arguments::Invalid(m);
                },
            };
            let program = match read_text(text, "/arguments/program", "program") {
                Ok(v) => v,
                Err(m) => {
                    return Arguments::Invalid(m);
                },
            };
            match read_optional_text(text, "/arguments/cwd", "cwd") {
                Ok(cwd) => Arguments::Launch { debugserver_port, program, cwd },
                Err(m) => Arguments::Invalid(m),
            }
        },
        ArgumentShape::Attach => {
            let debugserver_port = match read_port(
                text,
                "/arguments/debugserverPort",
                "debugserverPort",
            ) {
                Ok(v) => v,
                Err(m) => {
                    return Arguments::Invalid(m);
                },
            };
            let program = match read_optional_text(text, "/arguments/program", "program") {
                Ok(v) => v,
                Err(m) => {
                    return Arguments::Invalid(m);
                },
            };
            match read_optional_text(text, "/arguments/cwd", "cwd") {
                Ok(cwd) => Arguments::Attach { debugserver_port, program, cwd },
                Err(m) => Arguments::Invalid(m),
            }
        },
        ArgumentShape::SetBreakpoints => {
            let source_path = match kind_at(text, "/arguments/source") {
                Err(m) => {
                    return Arguments::Invalid(m);
                },
                Ok(None) => {
                    return Arguments::Invalid(missing("source"));
                },
                Ok(Some(JsonKind::Object)) => match read_optional_text(
                    text,
                    "/arguments/source/path",
                    "path",
                ) {
                    Ok(p) => p,
                    Err(m) => {
                        return Arguments::Invalid(m);
                    },
                },
                Ok(Some(_)) => {
                    return Arguments::Invalid(invalid("source"));
                },
            };
            match read_lines(text) {
                Ok(lines) => Arguments::SetBreakpoints { source_path, lines },
                Err(m) => Arguments::Invalid(m),
            }
        },
        ArgumentShape::StackTrace => match read_integer(text, "/arguments/threadId", "threadId") {
            Ok(thread_id) => Arguments::StackTrace { thread_id },
            Err(m) => Arguments::Invalid(m),
        },
        ArgumentShape::Scopes => match read_integer(text, "/arguments/frameId", "frameId") {
            Ok(frame_id) => Arguments::Scopes { frame_id },
            Err(m) => Arguments::Invalid(m),
        },
        ArgumentShape::Variables => match read_integer(
            text,
            "/arguments/variablesReference",
            "variablesReference",
        ) {
            Ok(variables_reference) => Arguments::Variables { variables_reference },
            Err(m) => Arguments::Invalid(m),
        },
        ArgumentShape::Thread => match read_integer(text, "/arguments/threadId", "threadId") {
            Ok(thread_id) => Arguments::Thread { thread_id },
            Err(m) => Arguments::Invalid(m),
        },
    }
}

/// Reads the request that a message of the editor holds.
pub fn read_request(text: &str) -> (request: Option<Request>)
    ensures
        request_view(request) == request_of(text@),
{
    let is_request = match text_at(text, "/type") {
        Some(kind) => {
            let chars = chars_of(kind.as_str());
            is_word(chars.as_slice(), "request")
        },
        None => false,
    };
    if !is_request {
        return None;
    }
    let seq = match i64_at(text, "/seq") {
        Some(seq) => seq,
        None => {
            return None;
        },
    };
    let command = match text_at(text, "/command") {
        Some(command) => command,
        None => {
            return None;
        },
    };
    let arguments = read_arguments(text, argument_shape(command.as_str()));
    Some(Request { seq, command, arguments })
}

/// Reads a message of the editor: the request in it, or why there is
/// none to handle.
pub fn read_envelope(text: &str) -> (envelope: Envelope)
    ensures
        envelope@ == envelope_of(text@),
        envelope@ is Request <==> request_of(text@) is Some,
{
    match text_at(text, "/type") {
        None => Envelope::Unreadable,
        Some(kind) => {
            let chars = chars_of(kind.as_str());
            if !is_word(chars.as_slice(), "request") {
                Envelope::Other
            } else {
                match read_request(text) {
                    Some(r) => Envelope::Request(r),
                    None => Envelope::Unreadable,
                }
            }
        },
    }
}

} // verus!
