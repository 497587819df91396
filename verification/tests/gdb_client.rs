use ios_lldb_dap::gdb_client::{
    FailureKind, GdbRemoteClient, IoFailure, Outcome, WireAction, WireEvent, IO_TIMEOUT_MILLIS,
};
use ios_lldb_dap::gdb_remote::{encode_packet, GdbRemoteError, StopReason};

/// Plays the stub: answers each action of the client from a queue of bytes
/// and records what the client writes.
fn drive(
    client: &mut GdbRemoteClient,
    first: WireAction,
    incoming: &[u8],
    written: &mut Vec<Vec<u8>>,
) -> Outcome {
    let mut bytes = incoming.iter().copied();
    let mut action = first;
    loop {
        let event = match action {
            WireAction::Open { .. } => WireEvent::Opened,
            WireAction::Drain => WireEvent::Drained,
            WireAction::Write(data) => {
                written.push(data);
                WireEvent::Written
            }
            WireAction::ReadByte => match bytes.next() {
                Some(b) => WireEvent::Byte(b),
                None => WireEvent::Failed(IoFailure {
                    kind: FailureKind::TimedOut,
                    message: "timed out".to_string(),
                }),
            },
            WireAction::Done(outcome) => return outcome,
        };
        action = client.advance(event);
    }
}

fn stream(parts: &[&[u8]]) -> Vec<u8> {
    let mut out = Vec::new();
    for part in parts {
        out.extend_from_slice(part);
    }
    out
}

#[test]
fn connect_asks_for_the_local_port_with_the_timeout() {
    let (client, action) = GdbRemoteClient::connect(1234);
    assert_eq!(client.port, 1234);
    assert!(!client.no_ack_mode);
    assert_eq!(IO_TIMEOUT_MILLIS, 200);
    match action {
        WireAction::Open { port, timeout_millis } => {
            assert_eq!(port, 1234);
            assert_eq!(timeout_millis, 200);
        }
        other => panic!("unexpected action {:?}", other),
    }
}

#[test]
fn handshake_switches_acknowledgements_off_when_offered() {
    let (mut client, first) = GdbRemoteClient::connect(1234);
    let incoming = stream(&[
        b"+",
        &encode_packet(b"PacketSize=1000;QStartNoAckMode+"),
        b"+",
        &encode_packet(b"OK"),
        &encode_packet(b"S05"),
    ]);
    let mut written = Vec::new();
    let outcome = drive(&mut client, first, &incoming, &mut written);
    assert!(matches!(outcome, Outcome::Ready));
    assert!(client.no_ack_mode);
    assert!(client.is_idle());
    assert_eq!(
        written,
        vec![
            encode_packet(b"qSupported:multiprocess+;qRelocInsn+"),
            b"+".to_vec(),
            encode_packet(b"QStartNoAckMode"),
            b"+".to_vec(),
            encode_packet(b"?"),
        ]
    );
}

#[test]
fn handshake_keeps_acknowledgements_when_not_offered() {
    let (mut client, first) = GdbRemoteClient::connect(7);
    let incoming = stream(&[b"+", &encode_packet(b"PacketSize=1000"), b"+", &encode_packet(b"S05")]);
    let mut written = Vec::new();
    let outcome = drive(&mut client, first, &incoming, &mut written);
    assert!(matches!(outcome, Outcome::Ready));
    assert!(!client.no_ack_mode);
    assert_eq!(
        written,
        vec![
            encode_packet(b"qSupported:multiprocess+;qRelocInsn+"),
            b"+".to_vec(),
            encode_packet(b"?"),
            b"+".to_vec(),
        ]
    );
}

#[test]
fn handshake_passes_over_a_banner_read_that_times_out() {
    let (mut client, first) = GdbRemoteClient::connect(7);
    assert!(matches!(first, WireAction::Open { .. }));
    assert!(matches!(client.advance(WireEvent::Opened), WireAction::Drain));
    let next = client.advance(WireEvent::Failed(IoFailure {
        kind: FailureKind::WouldBlock,
        message: "would block".to_string(),
    }));
    match next {
        WireAction::Write(bytes) => {
            assert_eq!(bytes, encode_packet(b"qSupported:multiprocess+;qRelocInsn+"))
        }
        other => panic!("unexpected action {:?}", other),
    }
}

#[test]
fn handshake_fails_when_the_banner_read_fails_otherwise() {
    let (mut client, _first) = GdbRemoteClient::connect(7);
    client.advance(WireEvent::Opened);
    let next = client.advance(WireEvent::Failed(IoFailure {
        kind: FailureKind::Other,
        message: "connection reset".to_string(),
    }));
    match next {
        WireAction::Done(Outcome::Failed(GdbRemoteError::Io(message))) => {
            assert_eq!(message, "connection reset")
        }
        other => panic!("unexpected action {:?}", other),
    }
}

#[test]
fn connection_failure_ends_the_handshake() {
    let (mut client, _first) = GdbRemoteClient::connect(7);
    let next = client.advance(WireEvent::Failed(IoFailure {
        kind: FailureKind::Other,
        message: "connection refused".to_string(),
    }));
    match next {
        WireAction::Done(Outcome::Failed(e)) => {
            assert_eq!(e.message(), "I/O: connection refused")
        }
        other => panic!("unexpected action {:?}", other),
    }
}

fn connected_client(no_ack: bool) -> GdbRemoteClient {
    let (mut client, first) = GdbRemoteClient::connect(7);
    let incoming = if no_ack {
        stream(&[
            b"+",
            &encode_packet(b"QStartNoAckMode+"),
            b"+",
            &encode_packet(b"OK"),
            &encode_packet(b"S05"),
        ])
    } else {
        stream(&[b"+", &encode_packet(b""), b"+", &encode_packet(b"S05")])
    };
    let mut written = Vec::new();
    let outcome = drive(&mut client, first, &incoming, &mut written);
    assert!(matches!(outcome, Outcome::Ready));
    assert_eq!(client.no_ack_mode, no_ack);
    client
}

#[test]
fn set_software_breakpoint_sends_z0_with_lower_case_hex() {
    let mut client = connected_client(true);
    let first = client.set_software_breakpoint(0x1000);
    let mut written = Vec::new();
    let outcome = drive(&mut client, first, &encode_packet(b"OK"), &mut written);
    assert!(matches!(outcome, Outcome::Ready));
    assert_eq!(written, vec![b"$Z0,1000,1#d4".to_vec()]);
}

#[test]
fn breakpoint_addresses_are_written_in_lower_case_hex() {
    let mut client = connected_client(true);
    let first = client.set_software_breakpoint(0xDEADBEEF);
    let mut written = Vec::new();
    drive(&mut client, first, &encode_packet(b""), &mut written);
    assert_eq!(written, vec![encode_packet(b"Z0,deadbeef,1")]);
    let first = client.set_software_breakpoint(0);
    let mut written = Vec::new();
    drive(&mut client, first, &encode_packet(b"OK"), &mut written);
    assert_eq!(written, vec![encode_packet(b"Z0,0,1")]);
}

#[test]
fn clear_software_breakpoint_sends_lower_case_z0() {
    let mut client = connected_client(true);
    let first = client.clear_software_breakpoint(0x2a);
    let mut written = Vec::new();
    let outcome = drive(&mut client, first, &encode_packet(b"OK"), &mut written);
    assert!(matches!(outcome, Outcome::Ready));
    assert_eq!(written, vec![encode_packet(b"z0,2a,1")]);
}

#[test]
fn empty_reply_counts_as_ok() {
    let mut client = connected_client(true);
    let first = client.set_software_breakpoint(1);
    let mut written = Vec::new();
    let outcome = drive(&mut client, first, &encode_packet(b""), &mut written);
    assert!(matches!(outcome, Outcome::Ready));
}

#[test]
fn other_reply_is_the_refusal_of_the_stub() {
    let mut client = connected_client(true);
    let first = client.set_software_breakpoint(1);
    let mut written = Vec::new();
    let outcome = drive(&mut client, first, &encode_packet(b"E01"), &mut written);
    match outcome {
        Outcome::Failed(GdbRemoteError::Remote(text)) => assert_eq!(text, "E01"),
        other => panic!("unexpected outcome {:?}", other),
    }
}

#[test]
fn error_messages_read_as_lines() {
    assert_eq!(GdbRemoteError::Io("x".into()).message(), "I/O: x");
    assert_eq!(
        GdbRemoteError::Remote("E01".into()).message(),
        "remote rejected packet: E01"
    );
    assert_eq!(GdbRemoteError::BadChecksum.message(), "invalid packet checksum");
    assert_eq!(
        GdbRemoteError::UnexpectedReply("y".into()).message(),
        "unexpected reply: y"
    );
}

#[test]
fn continue_is_not_answered_at_once() {
    let mut client = connected_client(true);
    let first = client.continue_all();
    let mut written = Vec::new();
    let outcome = drive(&mut client, first, b"", &mut written);
    assert!(matches!(outcome, Outcome::Ready));
    assert_eq!(written, vec![encode_packet(b"vCont;c")]);
}

#[test]
fn step_names_no_thread() {
    let mut client = connected_client(true);
    let first = client.step_thread(42);
    let mut written = Vec::new();
    let outcome = drive(&mut client, first, b"", &mut written);
    assert!(matches!(outcome, Outcome::Ready));
    assert_eq!(written, vec![encode_packet(b"vCont;s")]);
}

#[test]
fn with_acknowledgements_a_packet_must_be_acknowledged() {
    let mut client = connected_client(false);
    let first = client.continue_all();
    let mut written = Vec::new();
    let outcome = drive(&mut client, first, b"-", &mut written);
    match outcome {
        Outcome::Failed(GdbRemoteError::UnexpectedReply(text)) => {
            assert_eq!(text, "expected ack '+', got '-'")
        }
        other => panic!("unexpected outcome {:?}", other),
    }
}

#[test]
fn with_acknowledgements_each_packet_read_is_acknowledged() {
    let mut client = connected_client(false);
    let first = client.set_software_breakpoint(0x10);
    let incoming = stream(&[b"+", &encode_packet(b"OK")]);
    let mut written = Vec::new();
    let outcome = drive(&mut client, first, &incoming, &mut written);
    assert!(matches!(outcome, Outcome::Ready));
    assert_eq!(written, vec![encode_packet(b"Z0,10,1"), b"+".to_vec()]);
}

#[test]
fn wait_for_stop_reads_until_a_stop_reply() {
    let mut client = connected_client(true);
    let first = client.wait_for_stop();
    let incoming = stream(&[
        b"junk",
        &encode_packet(b"OK"),
        &encode_packet(b"T05thread:1f;reason:single-step;"),
    ]);
    let mut written = Vec::new();
    let outcome = drive(&mut client, first, &incoming, &mut written);
    match outcome {
        Outcome::Stopped(reply) => {
            assert_eq!(reply.signal, 5);
            assert_eq!(reply.thread_id, Some(0x1f));
            assert!(matches!(reply.reason, StopReason::Step));
        }
        other => panic!("unexpected outcome {:?}", other),
    }
    assert!(written.is_empty());
}

#[test]
fn wait_for_stop_fails_on_a_bad_checksum() {
    let mut client = connected_client(true);
    let first = client.wait_for_stop();
    let mut written = Vec::new();
    let outcome = drive(&mut client, first, b"$S05#00", &mut written);
    assert!(matches!(outcome, Outcome::Failed(GdbRemoteError::BadChecksum)));
}

#[test]
fn wait_for_stop_fails_when_the_wire_fails() {
    let mut client = connected_client(true);
    let first = client.wait_for_stop();
    let mut written = Vec::new();
    let outcome = drive(&mut client, first, b"$S0", &mut written);
    match outcome {
        Outcome::Failed(GdbRemoteError::Io(text)) => assert_eq!(text, "timed out"),
        other => panic!("unexpected outcome {:?}", other),
    }
}

#[test]
fn reply_bytes_that_are_not_utf8_are_replaced() {
    let mut client = connected_client(true);
    let first = client.set_software_breakpoint(1);
    let mut written = Vec::new();
    let outcome = drive(&mut client, first, &encode_packet(&[b'E', 0xff]), &mut written);
    match outcome {
        Outcome::Failed(GdbRemoteError::Remote(text)) => assert_eq!(text, "E\u{fffd}"),
        other => panic!("unexpected outcome {:?}", other),
    }
}

#[test]
fn an_event_out_of_turn_ends_in_failure() {
    let mut client = connected_client(true);
    match client.advance(WireEvent::Written) {
        WireAction::Done(Outcome::Failed(GdbRemoteError::UnexpectedReply(text))) => {
            assert_eq!(text, "event out of turn")
        }
        other => panic!("unexpected action {:?}", other),
    }
}
