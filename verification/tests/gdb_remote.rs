use ios_lldb_dap::gdb_remote::{
    decode_packet, encode_packet, packet_checksum, parse_stop_reply, ReadStep, StopReason, text_of_payload,
};

#[test]
fn packet_round_trip() {
    let payload = "Z0,1000,1";
    let buf = encode_packet(payload.as_bytes());
    assert_eq!(String::from_utf8(buf.clone()).unwrap(), "$Z0,1000,1#d4");
}

#[test]
fn parse_stop_reply_signal() {
    let reply = parse_stop_reply("S05").unwrap();
    assert_eq!(reply.signal, 0x05);
}

#[test]
fn parse_stop_reply_thread() {
    let reply = parse_stop_reply("T05thread:1;reason:breakpoint;").unwrap();
    assert_eq!(reply.signal, 0x05);
    assert!(matches!(reply.reason, StopReason::Breakpoint));
    assert_eq!(reply.thread_id, Some(1));
}

#[test]
fn checksum_of_breakpoint_packet_is_d4() {
    assert_eq!(packet_checksum(b"Z0,1000,1"), 0xd4);
}

#[test]
fn decode_gives_back_what_encode_framed() {
    let payload = b"qSupported:multiprocess+;qRelocInsn+";
    let framed = encode_packet(payload);
    match decode_packet(&framed) {
        ReadStep::Packet(p) => assert_eq!(p, payload.to_vec()),
        other => panic!("no packet: {:?}", other),
    }
}

#[test]
fn decode_skips_what_comes_before_the_dollar() {
    match decode_packet(b"+++$OK#9a") {
        ReadStep::Packet(p) => assert_eq!(p, b"OK".to_vec()),
        other => panic!("no packet: {:?}", other),
    }
}

#[test]
fn decode_accepts_upper_case_checksum_digits() {
    match decode_packet(b"$Z0,1000,1#D4") {
        ReadStep::Packet(p) => assert_eq!(p, b"Z0,1000,1".to_vec()),
        other => panic!("no packet: {:?}", other),
    }
}

#[test]
fn decode_refuses_a_wrong_checksum() {
    assert!(matches!(decode_packet(b"$OK#00"), ReadStep::BadChecksum));
    assert!(matches!(decode_packet(b"$OK#zz"), ReadStep::BadChecksum));
    assert!(matches!(decode_packet(b"$OK#+a"), ReadStep::BadChecksum));
}

#[test]
fn decode_wants_the_whole_packet() {
    assert!(matches!(decode_packet(b""), ReadStep::More));
    assert!(matches!(decode_packet(b"$OK#9"), ReadStep::More));
    assert!(matches!(decode_packet(b"no packet here"), ReadStep::More));
}

#[test]
fn a_hash_in_the_payload_ends_it_early() {
    let framed = encode_packet(b"a#b");
    assert!(!matches!(decode_packet(&framed), ReadStep::Packet(p) if p == b"a#b".to_vec()));
}

#[test]
fn checksum_wraps_at_256() {
    assert_eq!(packet_checksum(&[0xff, 0x02]), 0x01);
    assert_eq!(packet_checksum(b""), 0);
    assert_eq!(encode_packet(b""), b"$#00".to_vec());
}

#[test]
fn stop_reply_s_is_a_signal_without_thread() {
    let reply = parse_stop_reply("S05").unwrap();
    assert_eq!(reply.signal, 0x05);
    assert_eq!(reply.thread_id, None);
    assert!(matches!(reply.reason, StopReason::Signal));
}

#[test]
fn stop_reply_t_reads_thread_and_reason() {
    let reply = parse_stop_reply("T0bthread:DEADbeef;reason:single-step;").unwrap();
    assert_eq!(reply.signal, 0x0b);
    assert_eq!(reply.thread_id, Some(0xdeadbeef));
    assert!(matches!(reply.reason, StopReason::Step));
}

#[test]
fn stop_reply_t_without_fields_has_the_reason_signal() {
    let reply = parse_stop_reply("T05").unwrap();
    assert_eq!(reply.thread_id, None);
    match reply.reason {
        StopReason::Unknown(text) => assert_eq!(text, "signal"),
        other => panic!("unexpected reason {:?}", other),
    }
}

#[test]
fn stop_reply_keeps_unknown_reasons_as_text() {
    let reply = parse_stop_reply("T05reason:watch\u{e9};thread:zz;00:11").unwrap();
    assert_eq!(reply.thread_id, None);
    match reply.reason {
        StopReason::Unknown(text) => assert_eq!(text, "watch\u{e9}"),
        other => panic!("unexpected reason {:?}", other),
    }
}

#[test]
fn stop_reply_takes_the_last_of_repeated_fields() {
    let reply = parse_stop_reply("T05thread:1;thread:2;reason:breakpoint;reason:x").unwrap();
    assert_eq!(reply.thread_id, Some(2));
    assert!(matches!(reply.reason, StopReason::Unknown(ref t) if t == "x"));
}

#[test]
fn stop_reply_thread_must_fit_in_64_bits() {
    let reply = parse_stop_reply("T05thread:ffffffffffffffff;").unwrap();
    assert_eq!(reply.thread_id, Some(u64::MAX));
    let reply = parse_stop_reply("T05thread:10000000000000000;").unwrap();
    assert_eq!(reply.thread_id, None);
    let reply = parse_stop_reply("T05thread:;").unwrap();
    assert_eq!(reply.thread_id, None);
}

#[test]
fn what_is_no_stop_reply_gives_nothing() {
    assert!(parse_stop_reply("").is_none());
    assert!(parse_stop_reply("OK").is_none());
    assert!(parse_stop_reply("S").is_none());
    assert!(parse_stop_reply("S5").is_none());
    assert!(parse_stop_reply("T").is_none());
    assert!(parse_stop_reply("T0").is_none());
    assert!(parse_stop_reply("Sxy").is_none());
    assert!(parse_stop_reply("S+5").is_none());
    assert!(parse_stop_reply("Tzz;thread:1").is_none());
    assert!(parse_stop_reply("W00").is_none());
}

#[test]
fn a_payload_of_text_is_read_as_that_text() {
    assert_eq!(text_of_payload(b"T05thread:1;"), "T05thread:1;");
    assert_eq!(text_of_payload(b""), "");
    assert_eq!(text_of_payload("\u{e9}\u{20ac}".as_bytes()), "\u{e9}\u{20ac}");
    assert_eq!(text_of_payload(b"a\xffb"), "a\u{fffd}b");
    assert_eq!(text_of_payload(b"\xe2\x82"), "\u{fffd}");
}

#[test]
fn text_that_is_framed_comes_back_as_text() {
    for text in ["OK", "", "qSupported:multiprocess+", "m1000,4", "\u{e9}t\u{e9}", "$x"] {
        match decode_packet(&encode_packet(text.as_bytes())) {
            ReadStep::Packet(payload) => assert_eq!(text_of_payload(&payload), text),
            other => panic!("no packet for {text:?}: {other:?}"),
        }
    }
}
