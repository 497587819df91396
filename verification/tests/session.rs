use ios_lldb_dap::backend::{Backend, BackendEvent, FrameSymbol};
use ios_lldb_dap::dap::write_dap_message;
use ios_lldb_dap::dap_codec::{read_envelope, read_request, write_outbound, Envelope};
use ios_lldb_dap::gdb_client::{FailureKind, IoFailure, WireAction, WireEvent};
use ios_lldb_dap::gdb_remote::encode_packet;
use ios_lldb_dap::line_index::{AddressRange, FileLine, LineIndex};
use ios_lldb_dap::session::{
    argument_shape, ArgumentShape, Arguments, Outbound, Request, Session, SessionEvent,
    SessionStep,
};
use ios_lldb_dap::symbols::{Image, SymbolContext};

fn test_backend() -> Backend {
    let image = Image {
        name: "test".into(),
        path: "/tmp/test".into(),
        uuid: None,
        vmaddr_text: 0,
        slide: 0,
    };
    Backend::new_for_testing(SymbolContext::for_testing(image))
}

fn request(seq: i64, command: &str, arguments: Arguments) -> Request {
    Request { seq, command: command.into(), arguments }
}

fn no_symbol(_probe: u64) -> Option<FrameSymbol> {
    None
}

/// Runs a request to its reply, playing the stub from `incoming`.
fn run(session: &mut Session, req: Request, incoming: &[u8], written: &mut Vec<Vec<u8>>) -> (Vec<Outbound>, bool) {
    let mut bytes = incoming.iter().copied();
    assert!(session.has_room());
    let mut step = session.handle_request(req);
    loop {
        let event = match step {
            SessionStep::Reply { messages, running } => return (messages, running),
            SessionStep::LoadLineIndex(_) => SessionEvent::Backend(BackendEvent::LineIndex(Ok(Vec::new()))),
            SessionStep::StackTrace { thread_id } => SessionEvent::Frames(session.backend().stack_trace(
                thread_id,
                None::<&fn(i64) -> Vec<(i64, u64)>>,
                &no_symbol,
            )),
            SessionStep::Wire(action) => SessionEvent::Backend(BackendEvent::Wire(match action {
                WireAction::Open { .. } => WireEvent::Opened,
                WireAction::Drain => WireEvent::Drained,
                WireAction::Write(data) => {
                    written.push(data);
                    WireEvent::Written
                }
                WireAction::ReadByte => match bytes.next() {
                    Some(b) => WireEvent::Byte(b),
                    None => WireEvent::Failed(IoFailure {
                        kind: FailureKind::TimedOut,
                        message: "timed out".to_string(),
                    }),
                },
                WireAction::Done(_) => panic!("the session passes no ended action on"),
            })),
        };
        step = session.advance(event);
    }
}

fn texts(messages: &[Outbound]) -> String {
    let mut out = Vec::new();
    for m in messages {
        out.extend_from_slice(&write_dap_message(&write_outbound(m)));
    }
    String::from_utf8(out).unwrap()
}

fn seq_of(m: &Outbound) -> i64 {
    match m {
        Outbound::Response { seq, .. } => *seq,
        Outbound::Event { seq, .. } => *seq,
    }
}

fn handshake() -> Vec<u8> {
    let mut incoming = Vec::new();
    incoming.extend_from_slice(b"+");
    incoming.extend_from_slice(&encode_packet(b"QStartNoAckMode+"));
    incoming.extend_from_slice(b"+");
    incoming.extend_from_slice(&encode_packet(b"OK"));
    incoming.extend_from_slice(&encode_packet(b"S05"));
    incoming
}

#[test]
fn write_dap_message_formats_response() {
    let payload = Outbound::Response {
        seq: 1,
        request_seq: 1,
        success: true,
        command: "initialize".into(),
        message: None,
        body: None,
    };
    let buf = write_dap_message(&write_outbound(&payload));
    let text = String::from_utf8(buf).unwrap();
    assert!(text.starts_with("Content-Length:"), "{text}");
    assert!(
        text.contains(r#""type":"response""#),
        "payload missing response type"
    );
    assert!(
        !text.ends_with("\r\n\r\n"),
        "response should not end with framing: {text}"
    );
}

#[test]
fn write_dap_message_formats_event() {
    let payload = Outbound::Event { seq: 2, event: "initialized".into(), body: None };
    let buf = write_dap_message(&write_outbound(&payload));
    let text = String::from_utf8(buf).unwrap();
    assert!(
        text.contains(r#""event":"initialized""#),
        "missing initialized event payload"
    );
    assert!(
        text.contains("\r\n\r\n"),
        "missing separator between headers and payload"
    );
}

#[test]
fn session_handles_initialize_request() {
    let mut session = Session::new(test_backend());
    let mut written = Vec::new();
    let (messages, running) = run(&mut session, request(1, "initialize", Arguments::Absent), b"", &mut written);
    assert!(session.is_initialized());
    assert!(running);
    let output = texts(&messages);
    assert!(
        output.contains(r#""supportsConfigurationDoneRequest":true"#),
        "initialize response missing capabilities: {output}"
    );
    assert!(
        output.contains(r#""event":"initialized""#),
        "initialize should emit initialized event: {output}"
    );
}

#[test]
fn session_handles_unknown_command() {
    let mut session = Session::new(test_backend());
    let mut written = Vec::new();
    let (messages, running) = run(&mut session, request(1, "bogus", Arguments::Absent), b"", &mut written);
    assert!(running);
    let output = texts(&messages);
    assert!(
        output.contains(r#""success":false"#),
        "unknown command should report failure"
    );
    assert!(
        output.contains(r#""message":"Unknown command: bogus""#),
        "unknown command should include message"
    );
}

#[test]
fn initialize_is_written_out_in_full() {
    let mut session = Session::new(test_backend());
    let mut written = Vec::new();
    let (messages, _) = run(&mut session, request(1, "initialize", Arguments::Absent), b"", &mut written);
    assert_eq!(messages.len(), 2);
    assert_eq!(
        write_outbound(&messages[0]),
        r#"{"seq":1,"type":"response","request_seq":1,"success":true,"command":"initialize","body":{"supportsConfigurationDoneRequest":true}}"#
    );
    assert_eq!(
        write_outbound(&messages[1]),
        r#"{"seq":2,"type":"event","event":"initialized"}"#
    );
    assert_eq!(
        String::from_utf8(write_dap_message(&write_outbound(&messages[1]))).unwrap(),
        "Content-Length: 46\r\n\r\n{\"seq\":2,\"type\":\"event\",\"event\":\"initialized\"}"
    );
}

#[test]
fn the_session_goes_on_after_an_unknown_command() {
    let mut session = Session::new(test_backend());
    let mut written = Vec::new();
    let (messages, running) = run(&mut session, request(7, "bogus", Arguments::Absent), b"", &mut written);
    assert!(running);
    assert_eq!(
        write_outbound(&messages[0]),
        r#"{"seq":1,"type":"response","request_seq":7,"success":false,"command":"bogus","message":"Unknown command: bogus"}"#
    );
    let (messages, running) = run(&mut session, request(8, "threads", Arguments::Absent), b"", &mut written);
    assert!(running);
    assert_eq!(
        write_outbound(&messages[0]),
        r#"{"seq":2,"type":"response","request_seq":8,"success":true,"command":"threads","body":{"threads":[{"id":1,"name":"Stub Thread"}]}}"#
    );
}

#[test]
fn messages_are_numbered_from_one_without_gaps() {
    let mut session = Session::new(test_backend());
    assert_eq!(session.upcoming_seq(), 1);
    let mut written = Vec::new();
    let mut numbers = Vec::new();
    let script: Vec<(Request, Vec<u8>)> = vec![
        (request(1, "initialize", Arguments::Absent), Vec::new()),
        (request(2, "bogus", Arguments::Absent), Vec::new()),
        (
            request(3, "launch", Arguments::Launch {
                debugserver_port: 9,
                program: "/bin/app".into(),
                cwd: None,
            }),
            handshake(),
        ),
        (request(4, "configurationDone", Arguments::Absent), Vec::new()),
        (
            request(5, "continue", Arguments::Thread { thread_id: 1 }),
            encode_packet(b"T05thread:1;reason:breakpoint;"),
        ),
        (request(6, "scopes", Arguments::Invalid("missing field `frameId`".into())), Vec::new()),
        (
            request(7, "next", Arguments::Thread { thread_id: 1 }),
            encode_packet(b"T05thread:1;reason:single-step;"),
        ),
        (request(8, "disconnect", Arguments::Absent), Vec::new()),
    ];
    for (req, incoming) in script {
        let (messages, _) = run(&mut session, req, &incoming, &mut written);
        for m in &messages {
            numbers.push(seq_of(m));
        }
    }
    let expected: Vec<i64> = (1..=11).collect();
    assert_eq!(numbers, expected);
    assert_eq!(session.upcoming_seq(), 12);
}

#[test]
fn launch_connects_and_answers_with_what_was_asked() {
    let mut session = Session::new(test_backend());
    let mut written = Vec::new();
    let (messages, running) = run(
        &mut session,
        request(2, "launch", Arguments::Launch { debugserver_port: 4321, program: "/bin/app".into(), cwd: Some("/tmp".into()) }),
        &handshake(),
        &mut written,
    );
    assert!(running);
    assert_eq!(
        write_outbound(&messages[0]),
        r#"{"seq":1,"type":"response","request_seq":2,"success":true,"command":"launch","body":{"cwd":"/tmp","debugserverPort":4321,"program":"/bin/app"}}"#
    );
    assert_eq!(session.backend().connected_port(), Some(4321));
}

#[test]
fn attach_answers_null_for_what_was_not_given() {
    let mut session = Session::new(test_backend());
    let mut written = Vec::new();
    let (messages, _) = run(
        &mut session,
        request(2, "attach", Arguments::Attach { debugserver_port: 1, program: None, cwd: None }),
        &handshake(),
        &mut written,
    );
    assert_eq!(
        write_outbound(&messages[0]),
        r#"{"seq":1,"type":"response","request_seq":2,"success":true,"command":"attach","body":{"cwd":null,"debugserverPort":1,"program":null}}"#
    );
}

#[test]
fn a_failed_connection_is_a_failed_response() {
    let mut session = Session::new(test_backend());
    let step = session.handle_request(request(2, "launch", Arguments::Launch {
        debugserver_port: 4321,
        program: "/bin/app".into(),
        cwd: None,
    }));
    assert!(matches!(step, SessionStep::Wire(WireAction::Open { port: 4321, .. })));
    let step = session.advance(SessionEvent::Backend(BackendEvent::Wire(WireEvent::Failed(IoFailure {
        kind: FailureKind::Other,
        message: "connection refused".into(),
    }))));
    match step {
        SessionStep::Reply { messages, running } => {
            assert!(running);
            assert_eq!(
                write_outbound(&messages[0]),
                r#"{"seq":1,"type":"response","request_seq":2,"success":false,"command":"launch","message":"failed to connect to debugserver on port 4321: I/O: connection refused"}"#
            );
        }
        other => panic!("unexpected step {:?}", other),
    }
}

#[test]
fn set_breakpoints_reports_each_line_as_verified() {
    let mut backend = test_backend();
    let mut index = LineIndex::new();
    index.insert_range(FileLine { file: "/tmp/foo.rs".into(), line: 42 }, AddressRange { low: 0, high: 4 });
    backend.set_line_index(index);
    let mut session = Session::new(backend);
    let mut written = Vec::new();
    let (messages, running) = run(
        &mut session,
        request(3, "setBreakpoints", Arguments::SetBreakpoints { source_path: Some("/tmp/foo.rs".into()), lines: vec![42, 99] }),
        b"",
        &mut written,
    );
    assert!(running);
    assert!(written.is_empty());
    assert_eq!(
        write_outbound(&messages[0]),
        r#"{"seq":1,"type":"response","request_seq":3,"success":true,"command":"setBreakpoints","body":{"breakpoints":[{"line":42,"verified":true},{"line":99,"verified":true}]}}"#
    );
}

#[test]
fn set_breakpoints_needs_a_source_path() {
    let mut session = Session::new(test_backend());
    let mut written = Vec::new();
    let (messages, _) = run(
        &mut session,
        request(3, "setBreakpoints", Arguments::SetBreakpoints { source_path: None, lines: vec![1] }),
        b"",
        &mut written,
    );
    assert_eq!(
        write_outbound(&messages[0]),
        r#"{"seq":1,"type":"response","request_seq":3,"success":false,"command":"setBreakpoints","message":"source.path missing"}"#
    );
}

#[test]
fn arguments_that_cannot_be_read_are_refused_with_the_message() {
    let mut session = Session::new(test_backend());
    let mut written = Vec::new();
    let (messages, running) = run(
        &mut session,
        request(3, "variables", Arguments::Invalid("missing field `variablesReference`".into())),
        b"",
        &mut written,
    );
    assert!(running);
    assert_eq!(
        write_outbound(&messages[0]),
        r#"{"seq":1,"type":"response","request_seq":3,"success":false,"command":"variables","message":"missing field `variablesReference`"}"#
    );
    let (messages, _) = run(&mut session, request(4, "stackTrace", Arguments::Absent), b"", &mut written);
    assert_eq!(
        write_outbound(&messages[0]),
        r#"{"seq":2,"type":"response","request_seq":4,"success":false,"command":"stackTrace","message":"arguments do not fit the command"}"#
    );
}

#[test]
fn stack_trace_answers_with_frames_and_a_total_of_two() {
    let mut session = Session::new(test_backend());
    let mut written = Vec::new();
    let (messages, _) = run(&mut session, request(4, "stackTrace", Arguments::StackTrace { thread_id: 1 }), b"", &mut written);
    assert_eq!(
        write_outbound(&messages[0]),
        r#"{"seq":1,"type":"response","request_seq":4,"success":true,"command":"stackTrace","body":{"stackFrames":[{"column":1,"id":101,"line":0,"name":"<unknown>","presentationHint":"normal","source":{"name":"<unknown>","path":"<unknown>"}}],"totalFrames":2}}"#
    );
}

#[test]
fn scopes_and_variables_answer_with_placeholders() {
    let mut session = Session::new(test_backend());
    let mut written = Vec::new();
    let (messages, _) = run(&mut session, request(5, "scopes", Arguments::Scopes { frame_id: 101 }), b"", &mut written);
    assert_eq!(
        write_outbound(&messages[0]),
        r#"{"seq":1,"type":"response","request_seq":5,"success":true,"command":"scopes","body":{"scopes":[{"expensive":false,"name":"Locals","variablesReference":1}]}}"#
    );
    let (messages, _) = run(&mut session, request(6, "variables", Arguments::Variables { variables_reference: 1 }), b"", &mut written);
    assert_eq!(
        write_outbound(&messages[0]),
        r#"{"seq":2,"type":"response","request_seq":6,"success":true,"command":"variables","body":{"variables":[{"name":"var","type":"string","value":"value-1","variablesReference":0},{"name":"counter","type":"int","value":"123","variablesReference":0}]}}"#
    );
}

#[test]
fn continue_answers_and_then_tells_of_the_stop() {
    let mut session = Session::new(test_backend());
    let mut written = Vec::new();
    run(
        &mut session,
        request(1, "attach", Arguments::Attach { debugserver_port: 1, program: None, cwd: None }),
        &handshake(),
        &mut written,
    );
    let (messages, running) = run(
        &mut session,
        request(2, "continue", Arguments::Thread { thread_id: 1 }),
        &encode_packet(b"T05thread:1;reason:breakpoint;"),
        &mut written,
    );
    assert!(running);
    assert_eq!(messages.len(), 2);
    assert_eq!(
        write_outbound(&messages[0]),
        r#"{"seq":2,"type":"response","request_seq":2,"success":true,"command":"continue","body":{"allThreadsContinued":true}}"#
    );
    assert_eq!(
        write_outbound(&messages[1]),
        r#"{"seq":3,"type":"event","event":"stopped","body":{"description":"Breakpoint hit","reason":"breakpoint","threadId":1}}"#
    );
}

#[test]
fn next_and_step_in_answer_without_body() {
    let mut session = Session::new(test_backend());
    let mut written = Vec::new();
    run(
        &mut session,
        request(1, "attach", Arguments::Attach { debugserver_port: 1, program: None, cwd: None }),
        &handshake(),
        &mut written,
    );
    for (seq, command) in [(2, "next"), (3, "stepIn")] {
        let (messages, _) = run(
            &mut session,
            request(seq, command, Arguments::Thread { thread_id: 1 }),
            &encode_packet(b"T05thread:4;reason:single-step;"),
            &mut written,
        );
        assert_eq!(messages.len(), 2);
        assert_eq!(
            write_outbound(&messages[0]),
            format!(
                r#"{{"seq":{},"type":"response","request_seq":{},"success":true,"command":"{}"}}"#,
                2 * seq - 2,
                seq,
                command
            )
        );
        assert_eq!(
            write_outbound(&messages[1]),
            format!(
                r#"{{"seq":{},"type":"event","event":"stopped","body":{{"description":"Step completed","reason":"step","threadId":4}}}}"#,
                2 * seq - 1
            )
        );
    }
}

#[test]
fn continue_without_connection_is_refused() {
    let mut session = Session::new(test_backend());
    let mut written = Vec::new();
    let (messages, running) = run(&mut session, request(2, "continue", Arguments::Thread { thread_id: 1 }), b"", &mut written);
    assert!(running);
    assert_eq!(messages.len(), 1);
    assert_eq!(
        write_outbound(&messages[0]),
        r#"{"seq":1,"type":"response","request_seq":2,"success":false,"command":"continue","message":"no gdb-remote connection; call connect_debugserver first"}"#
    );
}

#[test]
fn disconnect_ends_the_session() {
    let mut session = Session::new(test_backend());
    let mut written = Vec::new();
    let (messages, running) = run(&mut session, request(9, "disconnect", Arguments::Absent), b"", &mut written);
    assert!(!running);
    assert_eq!(
        write_outbound(&messages[0]),
        r#"{"seq":1,"type":"response","request_seq":9,"success":true,"command":"disconnect"}"#
    );
}

#[test]
fn strings_are_escaped_as_json_wants() {
    let payload = Outbound::Response {
        seq: -1,
        request_seq: 0,
        success: false,
        command: "a\"b\\c".into(),
        message: Some("tab\there\nnew\u{1}\u{1f}\u{e9}\u{7f}/".into()),
        body: None,
    };
    assert_eq!(
        write_outbound(&payload),
        "{\"seq\":-1,\"type\":\"response\",\"request_seq\":0,\"success\":false,\"command\":\"a\\\"b\\\\c\",\"message\":\"tab\\there\\nnew\\u0001\\u001f\u{e9}\u{7f}/\"}"
    );
}

#[test]
fn commands_say_how_their_arguments_are_read() {
    assert_eq!(argument_shape("launch"), ArgumentShape::Launch);
    assert_eq!(argument_shape("attach"), ArgumentShape::Attach);
    assert_eq!(argument_shape("setBreakpoints"), ArgumentShape::SetBreakpoints);
    assert_eq!(argument_shape("stackTrace"), ArgumentShape::StackTrace);
    assert_eq!(argument_shape("scopes"), ArgumentShape::Scopes);
    assert_eq!(argument_shape("variables"), ArgumentShape::Variables);
    assert_eq!(argument_shape("continue"), ArgumentShape::Thread);
    assert_eq!(argument_shape("next"), ArgumentShape::Thread);
    assert_eq!(argument_shape("stepIn"), ArgumentShape::Thread);
    assert_eq!(argument_shape("initialize"), ArgumentShape::Nothing);
    assert_eq!(argument_shape("Launch"), ArgumentShape::Nothing);
}

#[test]
fn requests_are_read_out_of_json() {
    let r = read_request(r#"{"seq":1,"type":"request","command":"initialize","arguments":{}}"#).unwrap();
    assert_eq!((r.seq, r.command.as_str()), (1, "initialize"));
    assert!(matches!(r.arguments, Arguments::Absent));
    let r = read_request(
        r#"{"command":"launch","arguments":{"program":"/bin/app","cwd":null,"debugserverPort":65535,"more":1},"type":"request","seq":2}"#,
    )
    .unwrap();
    match r.arguments {
        Arguments::Launch { debugserver_port, program, cwd } => {
            assert_eq!(debugserver_port, 65535);
            assert_eq!(program, "/bin/app");
            assert_eq!(cwd, None);
        }
        other => panic!("unexpected arguments {:?}", other),
    }
    let r = read_request(r#"{"seq":3,"type":"request","command":"attach","arguments":{"debugserverPort":0,"cwd":"/tmp"}}"#).unwrap();
    match r.arguments {
        Arguments::Attach { debugserver_port, program, cwd } => {
            assert_eq!(debugserver_port, 0);
            assert_eq!(program, None);
            assert_eq!(cwd.as_deref(), Some("/tmp"));
        }
        other => panic!("unexpected arguments {:?}", other),
    }
    let r = read_request(
        r#"{"seq":4,"type":"request","command":"setBreakpoints","arguments":{"source":{"path":"/tmp/foo.rs"},"breakpoints":[{"line":42},{"line":-1,"column":3}]}}"#,
    )
    .unwrap();
    match r.arguments {
        Arguments::SetBreakpoints { source_path, lines } => {
            assert_eq!(source_path.as_deref(), Some("/tmp/foo.rs"));
            assert_eq!(lines, vec![42, -1]);
        }
        other => panic!("unexpected arguments {:?}", other),
    }
    let r = read_request(r#"{"seq":5,"type":"request","command":"setBreakpoints","arguments":{"source":{}}}"#).unwrap();
    match r.arguments {
        Arguments::SetBreakpoints { source_path, lines } => {
            assert_eq!(source_path, None);
            assert!(lines.is_empty());
        }
        other => panic!("unexpected arguments {:?}", other),
    }
    let r = read_request(r#"{"seq":6,"type":"request","command":"stackTrace","arguments":{"threadId":7}}"#).unwrap();
    assert!(matches!(r.arguments, Arguments::StackTrace { thread_id: 7 }));
    let r = read_request(r#"{"seq":7,"type":"request","command":"scopes","arguments":{"frameId":701}}"#).unwrap();
    assert!(matches!(r.arguments, Arguments::Scopes { frame_id: 701 }));
    let r = read_request(r#"{"seq":8,"type":"request","command":"variables","arguments":{"variablesReference":1}}"#).unwrap();
    assert!(matches!(r.arguments, Arguments::Variables { variables_reference: 1 }));
    for command in ["continue", "next", "stepIn"] {
        let text = format!(r#"{{"seq":9,"type":"request","command":"{command}","arguments":{{"threadId":-2}}}}"#);
        let r = read_request(&text).unwrap();
        assert!(matches!(r.arguments, Arguments::Thread { thread_id: -2 }));
    }
}

#[test]
fn what_is_no_request_is_passed_over() {
    assert!(read_request("").is_none());
    assert!(read_request("not json").is_none());
    assert!(read_request(r#"{"seq":1,"type":"response","command":"x"}"#).is_none());
    assert!(read_request(r#"{"seq":1,"type":"event","event":"x"}"#).is_none());
    assert!(read_request(r#"{"seq":1,"command":"threads"}"#).is_none());
    assert!(read_request(r#"{"type":"request","command":"threads"}"#).is_none());
    assert!(read_request(r#"{"seq":"1","type":"request","command":"threads"}"#).is_none());
    assert!(read_request(r#"{"seq":1.5,"type":"request","command":"threads"}"#).is_none());
    assert!(read_request(r#"{"seq":1,"type":"request"}"#).is_none());
    assert!(read_request(r#"{"seq":1,"type":"request","command":7}"#).is_none());
    assert!(read_request(r#"[1,"request","threads"]"#).is_none());
}

fn invalid(text: &str) -> String {
    match read_request(text).unwrap().arguments {
        Arguments::Invalid(message) => message,
        other => panic!("unexpected arguments {:?}", other),
    }
}

#[test]
fn faulty_arguments_are_invalid_with_a_message() {
    assert_eq!(
        invalid(r#"{"seq":1,"type":"request","command":"launch"}"#),
        "missing field `debugserverPort`"
    );
    assert_eq!(
        invalid(r#"{"seq":1,"type":"request","command":"launch","arguments":{"debugserverPort":1}}"#),
        "missing field `program`"
    );
    assert_eq!(
        invalid(r#"{"seq":1,"type":"request","command":"launch","arguments":{"debugserverPort":65536,"program":"p"}}"#),
        "invalid value for field `debugserverPort`"
    );
    assert_eq!(
        invalid(r#"{"seq":1,"type":"request","command":"launch","arguments":{"debugserverPort":-1,"program":"p"}}"#),
        "invalid value for field `debugserverPort`"
    );
    assert_eq!(
        invalid(r#"{"seq":1,"type":"request","command":"launch","arguments":{"debugserverPort":"1","program":"p"}}"#),
        "invalid value for field `debugserverPort`"
    );
    assert_eq!(
        invalid(r#"{"seq":1,"type":"request","command":"launch","arguments":{"debugserverPort":1,"program":null}}"#),
        "invalid value for field `program`"
    );
    assert_eq!(
        invalid(r#"{"seq":1,"type":"request","command":"attach","arguments":{"debugserverPort":1,"cwd":3}}"#),
        "invalid value for field `cwd`"
    );
    assert_eq!(
        invalid(r#"{"seq":1,"type":"request","command":"setBreakpoints","arguments":{}}"#),
        "missing field `source`"
    );
    assert_eq!(
        invalid(r#"{"seq":1,"type":"request","command":"setBreakpoints","arguments":{"source":"x"}}"#),
        "invalid value for field `source`"
    );
    assert_eq!(
        invalid(r#"{"seq":1,"type":"request","command":"setBreakpoints","arguments":{"source":{},"breakpoints":null}}"#),
        "invalid value for field `breakpoints`"
    );
    assert_eq!(
        invalid(r#"{"seq":1,"type":"request","command":"setBreakpoints","arguments":{"source":{},"breakpoints":[{"line":1},{}]}}"#),
        "missing field `line`"
    );
    assert_eq!(
        invalid(r#"{"seq":1,"type":"request","command":"stackTrace","arguments":{"threadId":1.5}}"#),
        "invalid value for field `threadId`"
    );
    assert_eq!(
        invalid(r#"{"seq":1,"type":"request","command":"scopes","arguments":null}"#),
        "missing field `frameId`"
    );
    assert_eq!(
        invalid(r#"{"seq":1,"type":"request","command":"variables"}"#),
        "missing field `variablesReference`"
    );
    assert_eq!(
        invalid(r#"{"seq":1,"type":"request","command":"continue","arguments":{"threadId":18446744073709551615}}"#),
        "invalid value for field `threadId`"
    );
}

#[test]
fn a_number_that_is_handed_out_is_used_up() {
    let mut session = Session::new(test_backend());
    assert_eq!(session.upcoming_seq(), 1);
    assert_eq!(session.upcoming_seq(), 1);
    assert_eq!(session.next_seq(), 1);
    assert_eq!(session.next_seq(), 2);
    assert_eq!(session.upcoming_seq(), 3);
    assert!(!session.is_initialized());
    let mut written = Vec::new();
    let (messages, _) = run(&mut session, request(1, "threads", Arguments::Absent), b"", &mut written);
    assert_eq!(seq_of(&messages[0]), 3);
    assert_eq!(session.upcoming_seq(), 4);
}

#[test]
fn a_message_is_a_request_another_message_or_unreadable() {
    match read_envelope(r#"{"seq":4,"type":"request","command":"threads"}"#) {
        Envelope::Request(r) => {
            assert_eq!(r.seq, 4);
            assert_eq!(r.command, "threads");
        }
        other => panic!("no request: {other:?}"),
    }
    for text in [
        r#"{"seq":1,"type":"response","command":"x"}"#,
        r#"{"seq":1,"type":"event","event":"x"}"#,
        r#"{"type":"REQUEST","seq":1,"command":"threads"}"#,
        r#"{"type":""}"#,
    ] {
        assert!(matches!(read_envelope(text), Envelope::Other), "{text}");
    }
    for text in [
        "",
        "not json",
        r#"{"seq":1,"command":"threads"}"#,
        r#"{"type":7,"seq":1,"command":"threads"}"#,
        r#"{"type":"request","command":"threads"}"#,
        r#"{"seq":1,"type":"request"}"#,
        r#"{"seq":1.5,"type":"request","command":"threads"}"#,
    ] {
        assert!(matches!(read_envelope(text), Envelope::Unreadable), "{text}");
    }
}

#[test]
fn a_written_message_holds_the_blank_line_once() {
    let payload = Outbound::Response {
        seq: 3,
        request_seq: 2,
        success: false,
        command: "a\r\n\r\nb".into(),
        message: Some("\r\n\r\n\r\n\r\n".into()),
        body: None,
    };
    let json = write_outbound(&payload);
    assert!(!json.contains('\r'));
    let framed = write_dap_message(&json);
    let text = String::from_utf8(framed).unwrap();
    assert_eq!(text.matches("\r\n\r\n").count(), 1);
    let header = format!("Content-Length: {}", json.len());
    assert_eq!(text.find("\r\n\r\n"), Some(header.len()));
    assert_eq!(text, format!("{header}\r\n\r\n{json}"));
    assert_eq!(
        json,
        "{\"seq\":3,\"type\":\"response\",\"request_seq\":2,\"success\":false,\"command\":\"a\\r\\n\\r\\nb\",\"message\":\"\\r\\n\\r\\n\\r\\n\\r\\n\"}"
    );
}
