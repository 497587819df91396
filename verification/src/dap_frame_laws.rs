//! Every message that is written out holds the blank line once: no
//! carriage return stands in the JSON text, so none stands in the body.

use vstd::prelude::*;
use vstd::utf8::encode_utf8;
use crate::backend::{ScopeView, StackFrameView, StopEventView, VariableView};
use crate::dap::{ascii_bytes, dap_frame, separator};
use crate::dap_codec::{
    body_json, breakpoint_json, frame_json, outbound_json, scope_json, stop_json, thread_json,
    variable_json, with_optional,
};
use crate::dap_laws::{lemma_decimal_digits, lemma_frame_shape, length_line};
use crate::hex::{decimal, hex_char, signed_decimal};
use crate::json::{
    array, json_bool, json_escape, json_escaped, json_optional, json_string, joined, member,
    object,
};
use crate::session::{BodyView, Breakpoint, OutboundView};
use crate::text::lemma_encoded_without;

verus! {

/// Whether `s` holds no carriage return.
pub open spec fn no_cr(s: Seq<char>) -> bool {
    forall|i: int| 0 <= i < s.len() ==> #[trigger] s[i] != '\r'
}

/// Whether the separator of headers and body stands in `frame` at `at`.
pub open spec fn separator_at(frame: Seq<u8>, at: int) -> bool {
    0 <= at && at + 4 <= frame.len() && frame.subrange(at, at + 4) == ascii_bytes(separator())
}

/// In the frame of a body without carriage return the separator stands
/// once: behind the length line, with the body right after it.
pub proof fn lemma_one_separator(body: Seq<u8>)
    requires
        forall|i: int| 0 <= i < body.len() ==> body[i] != 0x0d,
    ensures
        forall|at: int|
            separator_at(dap_frame(body), at) <==> at == length_line(body.len()).len(),
        dap_frame(body).skip(length_line(body.len()).len() + 4 as int) == body,
{
    let frame = dap_frame(body);
    let line = length_line(body.len());
    let start = line.len() as int;
    let sep = ascii_bytes(separator());
    lemma_frame_shape(body);
    reveal_strlit("\r\n\r\n");
    assert(sep =~= seq![0x0du8, 0x0au8, 0x0du8, 0x0au8]);
    assert(frame =~= ascii_bytes(line) + sep + body);
    assert(frame.skip(start + 4) =~= body);
    assert(frame.subrange(start, start + 4) =~= sep);
    assert forall|at: int| separator_at(frame, at) implies at == start by {
        let found = frame.subrange(at, at + 4);
        assert(found[0] == frame[at]);
        assert(found[1] == frame[at + 1]);
        assert(found[2] == frame[at + 2]);
        assert(frame[at] == 0x0d);
        assert(frame[at + 2] == 0x0d);
        if at < start {
        } else if at >= start + 4 {
            assert(frame[at] == body[at - start - 4]);
        } else if at > start {
            if at + 2 >= start + 4 {
                assert(frame[at + 2] == body[at + 2 - start - 4]);
            } else {
                assert(frame[at + 2] == sep[at + 2 - start]);
            }
        }
    }
}

/// Text without carriage return has none among its bytes.
pub proof fn lemma_bytes_without_cr(chars: Seq<char>)
    requires
        no_cr(chars),
    ensures
        forall|i: int| 0 <= i < encode_utf8(chars).len() ==> encode_utf8(chars)[i] != 0x0d,
{
    assert(0x0du8 as char == '\r');
    lemma_encoded_without(chars, 0x0d);
}

proof fn lemma_concat(a: Seq<char>, b: Seq<char>)
    requires
        no_cr(a),
        no_cr(b),
    ensures
        no_cr(a + b),
{
    let all = a + b;
    assert forall|i: int| 0 <= i < all.len() implies #[trigger] all[i] != '\r' by {
        if i < a.len() {
            assert(all[i] == a[i]);
        } else {
            assert(all[i] == b[i - a.len()]);
        }
    }
}

proof fn lemma_escape(c: char)
    ensures
        no_cr(json_escape(c)),
{
    let high = hex_char(c as int / 16);
    let low = hex_char(c as int % 16);
    if (c as u32) < 0x20 {
        assert(high != '\r' && low != '\r');
    }
    let out = json_escape(c);
    assert forall|i: int| 0 <= i < out.len() implies #[trigger] out[i] != '\r' by {}
}

proof fn lemma_escaped(text: Seq<char>)
    ensures
        no_cr(json_escaped(text)),
        no_cr(json_string(text)),
    decreases text.len(),
{
    if text.len() > 0 {
        lemma_escaped(text.drop_last());
        let c = text.last();
        lemma_escape(c);
        lemma_concat(json_escaped(text.drop_last()), json_escape(c));
    }
    lemma_concat(seq!['"'], json_escaped(text));
    lemma_concat(seq!['"'] + json_escaped(text), seq!['"']);
}

proof fn lemma_number(n: int)
    ensures
        no_cr(signed_decimal(n)),
{
    let digits = decimal(if n < 0 {
        (-n) as nat
    } else {
        n as nat
    });
    lemma_decimal_digits(if n < 0 {
        (-n) as nat
    } else {
        n as nat
    });
    assert(no_cr(digits));
    if n < 0 {
        lemma_concat(seq!['-'], digits);
    }
}

proof fn lemma_words()
    ensures
        no_cr(json_bool(true)),
        no_cr(json_bool(false)),
        no_cr("null"@),
{
    reveal_strlit("true");
    reveal_strlit("false");
    reveal_strlit("null");
}

proof fn lemma_member(name: Seq<char>, value: Seq<char>)
    requires
        no_cr(value),
    ensures
        no_cr(member(name, value)),
{
    lemma_escaped(name);
    lemma_concat(json_string(name), seq![':']);
    lemma_concat(json_string(name) + seq![':'], value);
}

proof fn lemma_joined(items: Seq<Seq<char>>)
    requires
        forall|i: int| 0 <= i < items.len() ==> no_cr(#[trigger] items[i]),
    ensures
        no_cr(joined(items)),
        no_cr(object(items)),
        no_cr(array(items)),
    decreases items.len(),
{
    if items.len() > 1 {
        let head = items.drop_last();
        assert forall|i: int| 0 <= i < head.len() implies no_cr(#[trigger] head[i]) by {
            assert(head[i] == items[i]);
        }
        lemma_joined(head);
        lemma_concat(joined(head), seq![',']);
        lemma_concat(joined(head) + seq![','], items.last());
    }
    lemma_concat(seq!['{'], joined(items));
    lemma_concat(seq!['{'] + joined(items), seq!['}']);
    lemma_concat(seq!['['], joined(items));
    lemma_concat(seq!['['] + joined(items), seq![']']);
}

proof fn lemma_optional(text: Option<Seq<char>>)
    ensures
        no_cr(json_optional(text)),
{
    lemma_words();
    match text {
        Some(t) => lemma_escaped(t),
        None => {},
    }
}

proof fn lemma_text_member(name: Seq<char>, value: Seq<char>)
    ensures
        no_cr(member(name, json_string(value))),
{
    lemma_escaped(value);
    lemma_member(name, json_string(value));
}

proof fn lemma_number_member(name: Seq<char>, value: int)
    ensures
        no_cr(member(name, signed_decimal(value))),
{
    lemma_number(value);
    lemma_member(name, signed_decimal(value));
}

proof fn lemma_bool_member(name: Seq<char>, value: bool)
    ensures
        no_cr(member(name, json_bool(value))),
{
    lemma_words();
    lemma_member(name, json_bool(value));
}

proof fn lemma_thread(t: (i64, Seq<char>))
    ensures
        no_cr(thread_json(t)),
{
    lemma_number_member("id"@, t.0 as int);
    lemma_text_member("name"@, t.1);
    lemma_joined(
        seq![member("id"@, signed_decimal(t.0 as int)), member("name"@, json_string(t.1))],
    );
}

proof fn lemma_frame(f: StackFrameView)
    ensures
        no_cr(frame_json(f)),
{
    lemma_text_member("name"@, f.source_name);
    lemma_text_member("path"@, f.source_path);
    let source = seq![
        member("name"@, json_string(f.source_name)),
        member("path"@, json_string(f.source_path)),
    ];
    lemma_joined(source);
    lemma_member("source"@, object(source));
    lemma_number_member("column"@, f.column as int);
    lemma_number_member("id"@, f.id as int);
    lemma_number_member("line"@, f.line as int);
    lemma_text_member("name"@, f.name);
    lemma_text_member("presentationHint"@, f.presentation_hint);
    lemma_joined(
        seq![
            member("column"@, signed_decimal(f.column as int)),
            member("id"@, signed_decimal(f.id as int)),
            member("line"@, signed_decimal(f.line as int)),
            member("name"@, json_string(f.name)),
            member("presentationHint"@, json_string(f.presentation_hint)),
            member("source"@, object(source)),
        ],
    );
}

proof fn lemma_scope(s: ScopeView)
    ensures
        no_cr(scope_json(s)),
{
    lemma_bool_member("expensive"@, s.2);
    lemma_text_member("name"@, s.0);
    lemma_number_member("variablesReference"@, s.1 as int);
    lemma_joined(
        seq![
            member("expensive"@, json_bool(s.2)),
            member("name"@, json_string(s.0)),
            member("variablesReference"@, signed_decimal(s.1 as int)),
        ],
    );
}

proof fn lemma_variable(v: VariableView)
    ensures
        no_cr(variable_json(v)),
{
    lemma_text_member("name"@, v.0);
    lemma_text_member("type"@, v.2);
    lemma_text_member("value"@, v.1);
    lemma_number_member("variablesReference"@, v.3 as int);
    lemma_joined(
        seq![
            member("name"@, json_string(v.0)),
            member("type"@, json_string(v.2)),
            member("value"@, json_string(v.1)),
            member("variablesReference"@, signed_decimal(v.3 as int)),
        ],
    );
}

proof fn lemma_breakpoint(b: Breakpoint)
    ensures
        no_cr(breakpoint_json(b)),
{
    lemma_number_member("line"@, b.line as int);
    lemma_bool_member("verified"@, b.verified);
    lemma_joined(
        seq![
            member("line"@, signed_decimal(b.line as int)),
            member("verified"@, json_bool(b.verified)),
        ],
    );
}

proof fn lemma_stop(e: StopEventView)
    ensures
        no_cr(stop_json(e)),
{
    lemma_text_member("description"@, e.description);
    lemma_text_member("reason"@, e.reason);
    lemma_number_member("threadId"@, e.thread_id as int);
    lemma_joined(
        seq![
            member("description"@, json_string(e.description)),
            member("reason"@, json_string(e.reason)),
            member("threadId"@, signed_decimal(e.thread_id as int)),
        ],
    );
}

/// An object with one member whose value holds no carriage return holds
/// none.
proof fn lemma_single(name: Seq<char>, value: Seq<char>)
    requires
        no_cr(value),
    ensures
        no_cr(object(seq![member(name, value)])),
{
    lemma_member(name, value);
    lemma_joined(seq![member(name, value)]);
}

proof fn lemma_body(body: BodyView)
    ensures
        no_cr(body_json(body)),
{
    lemma_words();
    match body {
        BodyView::Capabilities { supports_configuration_done_request } => {
            lemma_single(
                "supportsConfigurationDoneRequest"@,
                json_bool(supports_configuration_done_request),
            );
        },
        BodyView::Launched { program, cwd, debugserver_port } => {
            lemma_optional(cwd);
            lemma_optional(program);
            lemma_member("cwd"@, json_optional(cwd));
            lemma_member("program"@, json_optional(program));
            lemma_number_member("debugserverPort"@, debugserver_port as int);
            lemma_joined(
                seq![
                    member("cwd"@, json_optional(cwd)),
                    member("debugserverPort"@, signed_decimal(debugserver_port as int)),
                    member("program"@, json_optional(program)),
                ],
            );
        },
        BodyView::Breakpoints(list) => {
            let items = list.map_values(|b: Breakpoint| breakpoint_json(b));
            assert forall|i: int| 0 <= i < items.len() implies no_cr(#[trigger] items[i]) by {
                lemma_breakpoint(list[i]);
            }
            lemma_joined(items);
            lemma_single("breakpoints"@, array(items));
        },
        BodyView::Threads(list) => {
            let items = list.map_values(|t: (i64, Seq<char>)| thread_json(t));
            assert forall|i: int| 0 <= i < items.len() implies no_cr(#[trigger] items[i]) by {
                lemma_thread(list[i]);
            }
            lemma_joined(items);
            lemma_single("threads"@, array(items));
        },
        BodyView::StackTrace { stack_frames, total_frames } => {
            let items = stack_frames.map_values(|f: StackFrameView| frame_json(f));
            assert forall|i: int| 0 <= i < items.len() implies no_cr(#[trigger] items[i]) by {
                lemma_frame(stack_frames[i]);
            }
            lemma_joined(items);
            lemma_member("stackFrames"@, array(items));
            lemma_number_member("totalFrames"@, total_frames as int);
            lemma_joined(
                seq![
                    member("stackFrames"@, array(items)),
                    member("totalFrames"@, signed_decimal(total_frames as int)),
                ],
            );
        },
        BodyView::Scopes(list) => {
            let items = list.map_values(|s: ScopeView| scope_json(s));
            assert forall|i: int| 0 <= i < items.len() implies no_cr(#[trigger] items[i]) by {
                lemma_scope(list[i]);
            }
            lemma_joined(items);
            lemma_single("scopes"@, array(items));
        },
        BodyView::Variables(list) => {
            let items = list.map_values(|v: VariableView| variable_json(v));
            assert forall|i: int| 0 <= i < items.len() implies no_cr(#[trigger] items[i]) by {
                lemma_variable(list[i]);
            }
            lemma_joined(items);
            lemma_single("variables"@, array(items));
        },
        BodyView::Continued { all_threads_continued } => {
            lemma_single("allThreadsContinued"@, json_bool(all_threads_continued));
        },
    }
}

/// No message to the editor holds a carriage return in its JSON text: the
/// strings in it are escaped, and nothing else in it has one.
pub proof fn lemma_outbound_has_no_cr(m: OutboundView)
    ensures
        no_cr(outbound_json(m)),
{
    match m {
        OutboundView::Response { seq, request_seq, success, command, message, body } => {
            lemma_number_member("seq"@, seq as int);
            lemma_text_member("type"@, "response"@);
            lemma_number_member("request_seq"@, request_seq as int);
            lemma_bool_member("success"@, success);
            lemma_text_member("command"@, command);
            let fixed = seq![
                member("seq"@, signed_decimal(seq as int)),
                member("type"@, json_string("response"@)),
                member("request_seq"@, signed_decimal(request_seq as int)),
                member("success"@, json_bool(success)),
                member("command"@, json_string(command)),
            ];
            let first: Option<Seq<char>> = match message {
                Some(text) => Some(member("message"@, json_string(text))),
                None => None,
            };
            let second: Option<Seq<char>> = match body {
                Some(b) => Some(member("body"@, body_json(b))),
                None => None,
            };
            match message {
                Some(text) => lemma_text_member("message"@, text),
                None => {},
            }
            match body {
                Some(b) => {
                    lemma_body(b);
                    lemma_member("body"@, body_json(b));
                },
                None => {},
            }
            lemma_joined(with_optional(with_optional(fixed, first), second));
        },
        OutboundView::Event { seq, event, body } => {
            lemma_number_member("seq"@, seq as int);
            lemma_text_member("type"@, "event"@);
            lemma_text_member("event"@, event);
            let fixed = seq![
                member("seq"@, signed_decimal(seq as int)),
                member("type"@, json_string("event"@)),
                member("event"@, json_string(event)),
            ];
            let first: Option<Seq<char>> = match body {
                Some(b) => Some(member("body"@, stop_json(b))),
                None => None,
            };
            match body {
                Some(b) => {
                    lemma_stop(b);
                    lemma_member("body"@, stop_json(b));
                },
                None => {},
            }
            lemma_joined(with_optional(fixed, first));
        },
    }
}

/// Every message to the editor, framed, begins with `Content-Length:` and
/// holds the blank line between headers and body exactly once; what follows
/// the blank line is the JSON text of the message, of the length that the
/// header names.
pub proof fn lemma_written_message_has_one_separator(m: OutboundView)
    ensures
        ({
            let body = encode_utf8(outbound_json(m));
            let frame = dap_frame(body);
            &&& frame.take(15) == ascii_bytes(crate::dap::length_header())
            &&& forall|at: int| separator_at(frame, at) <==> at == length_line(body.len()).len()
            &&& frame.skip(length_line(body.len()).len() + 4 as int) == body
        }),
{
    let body = encode_utf8(outbound_json(m));
    lemma_outbound_has_no_cr(m);
    lemma_bytes_without_cr(outbound_json(m));
    lemma_one_separator(body);
    lemma_frame_shape(body);
}

} // verus!
