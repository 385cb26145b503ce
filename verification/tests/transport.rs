use scrcpy_launcher::adb_sync::{Action, AdbPusher, Phase, PushSession, TransportError};
use scrcpy_launcher::address::Ipv4;
use scrcpy_launcher::event::Event;
use scrcpy_launcher::push_laws::replay;
use scrcpy_launcher::status::{
    read_status, reply_step, ErrorKind, Reply, ReplyStage, StatusError,
};
use scrcpy_launcher::wire::{
    encode_data, encode_done, encode_send, frame_message, is_okay, read_length, CONTROL_PORT,
    MAX_CHUNK,
};

fn okay() -> Event {
    Event::Data(b"OKAY".to_vec())
}

/// Takes a fresh session up to the point where the `SEND` frame is written.
fn announced(serial: Option<&str>, remote: &str, size: u64) -> PushSession {
    let pusher = AdbPusher::new(serial.map(|s| s.to_string()));
    let (mut session, first) = pusher.push(remote);
    assert_eq!(first, Action::OpenSource);
    let events = vec![Event::Size(size), Event::Done, Event::Done, okay(), Event::Done, okay()];
    let actions = replay(&mut session, events);
    assert_eq!(actions.len(), 6);
    assert_eq!(session.phase(), Phase::Announcing);
    session
}

#[test]
fn control_message_has_four_hex_digits() {
    assert_eq!(frame_message(b"sync:"), b"0005sync:".to_vec());
    assert_eq!(frame_message(b"host:transport-any"), b"0012host:transport-any".to_vec());
    assert_eq!(frame_message(b""), b"0000".to_vec());
}

#[test]
fn control_message_length_is_lowercase() {
    let payload = vec![b'x'; 0xabc];
    let framed = frame_message(&payload);
    assert_eq!(&framed[..4], b"0abc");
    assert_eq!(framed.len(), 4 + 0xabc);
}

#[test]
fn control_message_of_65536_bytes_takes_five_digits() {
    let payload = vec![b'y'; 65536];
    let framed = frame_message(&payload);
    assert_eq!(&framed[..5], b"10000");
    assert_eq!(framed.len(), 5 + 65536);
}

#[test]
fn send_frame_carries_little_endian_length() {
    let frame = encode_send(b"/sdcard/a.txt,0644");
    assert_eq!(&frame[..4], b"SEND");
    assert_eq!(&frame[4..8], &[18u8, 0, 0, 0]);
    assert_eq!(&frame[8..], b"/sdcard/a.txt,0644");
}

#[test]
fn data_frame_carries_little_endian_length() {
    let chunk = vec![7u8; 0x1234];
    let frame = encode_data(&chunk);
    assert_eq!(&frame[..4], b"DATA");
    assert_eq!(&frame[4..8], &[0x34u8, 0x12, 0, 0]);
    assert_eq!(frame.len(), 8 + 0x1234);
    let full = vec![1u8; MAX_CHUNK];
    let frame = encode_data(&full);
    assert_eq!(&frame[4..8], &[0u8, 0, 1, 0]);
}

#[test]
fn done_frame_truncates_time_to_32_bits() {
    assert_eq!(encode_done(0x0102_0304), vec![b'D', b'O', b'N', b'E', 4, 3, 2, 1]);
    assert_eq!(encode_done(0x1_0000_0005), vec![b'D', b'O', b'N', b'E', 5, 0, 0, 0]);
}

#[test]
fn okay_is_recognised_exactly() {
    assert!(is_okay(b"OKAY"));
    assert!(!is_okay(b"FAIL"));
    assert!(!is_okay(b"okay"));
    assert!(!is_okay(b"OKAY!"));
    assert!(!is_okay(b""));
}

#[test]
fn length_field_is_hexadecimal() {
    assert_eq!(read_length(b"0005"), Some(5));
    assert_eq!(read_length(b"00ff"), Some(255));
    assert_eq!(read_length(b"FFFF"), Some(65535));
    assert_eq!(read_length(b"+0a0"), Some(160));
    assert_eq!(read_length(b"00g0"), None);
    assert_eq!(read_length(b"-001"), None);
    assert_eq!(read_length(b"005"), None);
    assert_eq!(read_length(b"00005"), None);
    assert_eq!(read_length(b"++12"), None);
    assert_eq!(read_length(&[0xff, b'0', b'0', b'1']), None);
}

#[test]
fn status_okay_succeeds_without_further_reads() {
    let reply = reply_step(ReplyStage::Status, &okay());
    assert_eq!(reply, Reply::Accepted);
}

#[test]
fn status_fail_carries_the_server_message() {
    let first = reply_step(ReplyStage::Status, &Event::Data(b"FAIL".to_vec()));
    assert_eq!(first, Reply::Continue(ReplyStage::Length));
    let second = reply_step(ReplyStage::Length, &Event::Data(b"0005".to_vec()));
    assert_eq!(second, Reply::Continue(ReplyStage::Message(5)));
    let third = reply_step(ReplyStage::Message(5), &Event::Data(b"boom!".to_vec()));
    match third {
        Reply::Refused(error) => {
            assert_eq!(error, StatusError::Failure("boom!".to_string()));
            assert!(error.message().contains("boom!"));
            assert_eq!(error.message(), "ADB Error: boom!");
            assert_eq!(error.kind(), ErrorKind::Connectivity);
        }
        other => panic!("unexpected reply {:?}", other),
    }
}

#[test]
fn status_with_unreadable_length_is_a_generic_failure() {
    let reply = reply_step(ReplyStage::Length, &Event::Data(b"zzzz".to_vec()));
    assert_eq!(reply, Reply::Refused(StatusError::Malformed));
    let reply = reply_step(ReplyStage::Length, &Event::Failed);
    assert_eq!(reply, Reply::Refused(StatusError::Malformed));
    assert_eq!(StatusError::Malformed.message(), "server returned failure");
    assert_eq!(StatusError::Malformed.kind(), ErrorKind::Protocol);
}

#[test]
fn status_that_cannot_be_read_is_an_io_error() {
    assert_eq!(reply_step(ReplyStage::Status, &Event::Failed), Reply::Refused(StatusError::Io));
    assert_eq!(
        reply_step(ReplyStage::Status, &Event::Data(b"OK".to_vec())),
        Reply::Refused(StatusError::Io)
    );
    assert_eq!(StatusError::Io.kind(), ErrorKind::Io);
}

#[test]
fn malformed_message_bytes_are_decoded_with_replacement() {
    let reply = reply_step(ReplyStage::Message(3), &Event::Data(vec![b'a', 0xff, b'b']));
    assert_eq!(reply, Reply::Refused(StatusError::Failure("a\u{fffd}b".to_string())));
    let reply = reply_step(ReplyStage::Message(3), &Event::Failed);
    assert_eq!(reply, Reply::Refused(StatusError::Failure(String::new())));
}

#[test]
fn transport_request_names_the_serial() {
    assert_eq!(AdbPusher::new(None).transport_request(), "host:transport-any");
    assert_eq!(
        AdbPusher::new(Some("emulator-5554".to_string())).transport_request(),
        "host:transport:emulator-5554"
    );
    assert_eq!(CONTROL_PORT, 5037);
}

#[test]
fn push_of_empty_file_sends_no_data() {
    let pusher = AdbPusher::new(None);
    let (mut session, first) = pusher.push("/sdcard/Download/empty.bin,0644");
    assert_eq!(first, Action::OpenSource);
    let events = vec![
        Event::Size(0),
        Event::Done,
        Event::Done,
        okay(),
        Event::Done,
        okay(),
        Event::Done,
        Event::Data(Vec::new()),
        Event::Time(1_700_000_000),
        Event::Done,
        okay(),
    ];
    let actions = replay(&mut session, events);
    let expected = vec![
        Action::Connect { host: Ipv4 { a: 127, b: 0, c: 0, d: 1 }, port: 5037 },
        Action::Send(b"0012host:transport-any".to_vec()),
        Action::Receive(4),
        Action::Send(b"0005sync:".to_vec()),
        Action::Receive(4),
        Action::Send(encode_send(b"/sdcard/Download/empty.bin,0644")),
        Action::ReadChunk(65536),
        Action::ReadClock,
        Action::Send(encode_done(1_700_000_000)),
        Action::Receive(4),
        Action::Finish(Ok(())),
    ];
    assert_eq!(actions, expected);
    assert!(!actions.iter().any(|a| matches!(a, Action::Report { .. })));
    assert_eq!(session.sent(), 0);
    assert_eq!(session.phase(), Phase::Finished);
}

#[test]
fn push_with_serial_selects_that_device() {
    let pusher = AdbPusher::new(Some("R58M".to_string()));
    let (mut session, _) = pusher.push("/x,0644");
    let actions = replay(&mut session, vec![Event::Size(1), Event::Done]);
    assert_eq!(actions[1], Action::Send(b"0013host:transport:R58M".to_vec()));
}

#[test]
fn push_of_large_file_sends_full_chunks_then_the_rest() {
    let n: usize = 65536 * 2 + 100;
    let content: Vec<u8> = (0..n).map(|i| (i % 251) as u8).collect();
    let mut session = announced(None, "/sdcard/big,0644", n as u64);
    let mut events = vec![Event::Done];
    for chunk in content.chunks(MAX_CHUNK) {
        events.push(Event::Data(chunk.to_vec()));
        events.push(Event::Done);
        events.push(Event::Done);
    }
    events.push(Event::Data(Vec::new()));
    let actions = replay(&mut session, events);
    let sizes: Vec<usize> = actions
        .iter()
        .filter_map(|a| match a {
            Action::Send(frame) if &frame[..4] == b"DATA" => Some(frame.len() - 8),
            _ => None,
        })
        .collect();
    assert_eq!(sizes, vec![65536, 65536, 100]);
    let reports: Vec<(u64, u64)> = actions
        .iter()
        .filter_map(|a| match a {
            Action::Report { sent, total } => Some((*sent, *total)),
            _ => None,
        })
        .collect();
    assert_eq!(
        reports,
        vec![(65536, n as u64), (131072, n as u64), (n as u64, n as u64)]
    );
    assert_eq!(actions.last(), Some(&Action::ReadClock));
    assert_eq!(session.sent(), n as u64);
    assert_eq!(session.total(), n as u64);
}

#[test]
fn push_of_exact_multiple_ends_on_a_full_chunk() {
    let n: usize = 65536 * 3;
    let content = vec![9u8; n];
    let mut session = announced(None, "/sdcard/even,0644", n as u64);
    let mut events = vec![Event::Done];
    for chunk in content.chunks(MAX_CHUNK) {
        events.push(Event::Data(chunk.to_vec()));
        events.push(Event::Done);
        events.push(Event::Done);
    }
    let actions = replay(&mut session, events);
    let frames = actions.iter().filter(|a| matches!(a, Action::Send(_))).count();
    assert_eq!(frames, 3);
    assert_eq!(session.sent(), n as u64);
    match &actions[actions.len() - 3] {
        Action::Send(frame) => assert_eq!(frame.len(), 8 + 65536),
        other => panic!("unexpected action {:?}", other),
    }
}

#[test]
fn progress_is_reported_after_the_chunk_is_written() {
    let mut session = announced(None, "/sdcard/p,0644", 3);
    let actions = replay(&mut session, vec![Event::Done, Event::Data(vec![1, 2, 3])]);
    assert_eq!(actions[0], Action::ReadChunk(65536));
    assert_eq!(actions[1], Action::Send(encode_data(&[1, 2, 3])));
    assert_eq!(session.sent(), 0);
    let after = session.step(Event::Done);
    assert_eq!(after, Action::Report { sent: 3, total: 3 });
    assert_eq!(session.sent(), 3);
}

#[test]
fn broken_socket_in_data_stream_ends_with_io_error() {
    let mut session = announced(None, "/sdcard/b,0644", 200_000);
    let actions = replay(
        &mut session,
        vec![Event::Done, Event::Data(vec![0u8; 65536]), Event::Done, Event::Done,
             Event::Data(vec![0u8; 65536]), Event::Failed],
    );
    assert_eq!(actions.last(), Some(&Action::Finish(Err(TransportError::Io))));
    assert_eq!(session.sent(), 65536);
    let later = replay(
        &mut session,
        vec![Event::Done, Event::Data(vec![1]), Event::Done, Event::Time(5), okay()],
    );
    assert_eq!(later.len(), 5);
    for action in &later {
        assert_eq!(action, &Action::Finish(Err(TransportError::Io)));
    }
    assert_eq!(session.sent(), 65536);
    assert_eq!(TransportError::Io.kind(), ErrorKind::Io);
}

#[test]
fn unreadable_file_is_an_io_error() {
    let (mut session, _) = AdbPusher::new(None).push("/x,0644");
    assert_eq!(session.step(Event::Failed), Action::Finish(Err(TransportError::Io)));
}

#[test]
fn unreachable_server_is_a_connectivity_error() {
    let (mut session, _) = AdbPusher::new(None).push("/x,0644");
    assert_eq!(
        session.step(Event::Size(10)),
        Action::Connect { host: Ipv4 { a: 127, b: 0, c: 0, d: 1 }, port: CONTROL_PORT }
    );
    let end = session.step(Event::Failed);
    assert_eq!(end, Action::Finish(Err(TransportError::ServerUnreachable)));
    assert_eq!(TransportError::ServerUnreachable.kind(), ErrorKind::Connectivity);
    assert_eq!(TransportError::ServerUnreachable.message(), "server not reachable");
}

#[test]
fn rejected_device_reports_the_server_message() {
    let (mut session, _) = AdbPusher::new(Some("nope".to_string())).push("/x,0644");
    let actions = replay(
        &mut session,
        vec![
            Event::Size(1),
            Event::Done,
            Event::Done,
            Event::Data(b"FAIL".to_vec()),
            Event::Data(b"0010".to_vec()),
            Event::Data(b"device not found".to_vec()),
        ],
    );
    assert_eq!(actions[3], Action::Receive(4));
    assert_eq!(actions[4], Action::ReceiveUpTo(16));
    let expected =
        TransportError::DeviceRejected(StatusError::Failure("device not found".to_string()));
    assert_eq!(expected.kind(), ErrorKind::Connectivity);
    assert_eq!(expected.message(), "device not found or unauthorized");
    assert_eq!(actions[5], Action::Finish(Err(expected)));
}

#[test]
fn rejected_sync_mode_is_told_apart() {
    let (mut session, _) = AdbPusher::new(None).push("/x,0644");
    let actions = replay(
        &mut session,
        vec![
            Event::Size(1),
            Event::Done,
            Event::Done,
            okay(),
            Event::Done,
            Event::Data(b"FAIL".to_vec()),
            Event::Data(b"????".to_vec()),
        ],
    );
    let expected = TransportError::SyncRejected(StatusError::Malformed);
    assert_eq!(expected.message(), "sync mode rejected");
    assert_eq!(expected.kind(), ErrorKind::Protocol);
    assert_eq!(actions.last(), Some(&Action::Finish(Err(expected))));
}

#[test]
fn missing_acknowledgement_is_its_own_error() {
    let mut session = announced(None, "/x,0644", 0);
    let actions = replay(
        &mut session,
        vec![Event::Done, Event::Data(Vec::new()), Event::Time(1), Event::Done,
             Event::Data(b"FAIL".to_vec())],
    );
    assert_eq!(actions.last(), Some(&Action::Finish(Err(TransportError::NotAcknowledged))));
    assert_eq!(TransportError::NotAcknowledged.kind(), ErrorKind::Acknowledgement);
    assert_eq!(TransportError::NotAcknowledged.message(), "transfer not acknowledged");

    let mut session = announced(None, "/x,0644", 0);
    let actions = replay(
        &mut session,
        vec![Event::Done, Event::Data(Vec::new()), Event::Time(1), Event::Done, Event::Failed],
    );
    assert_eq!(actions.last(), Some(&Action::Finish(Err(TransportError::NotAcknowledged))));
}

#[test]
fn oversized_chunk_is_not_framed() {
    let mut session = announced(None, "/x,0644", 70_000);
    let actions = replay(&mut session, vec![Event::Done, Event::Data(vec![0u8; 65537])]);
    assert_eq!(actions.last(), Some(&Action::Finish(Err(TransportError::Io))));
}

#[test]
fn finished_push_keeps_its_success() {
    let mut session = announced(None, "/x,0644", 0);
    let _ = replay(
        &mut session,
        vec![Event::Done, Event::Data(Vec::new()), Event::Time(1), Event::Done, okay()],
    );
    assert_eq!(session.phase(), Phase::Finished);
    assert_eq!(session.step(Event::Failed), Action::Finish(Ok(())));
    assert_eq!(session.step(Event::Done), Action::Finish(Ok(())));
}

#[test]
fn okay_reply_parses_without_error() {
    assert_eq!(read_status(b"OKAY"), Ok(()));
    assert_eq!(read_status(b"OKAYand more that is never read"), Ok(()));
}

#[test]
fn fail_reply_carries_boom() {
    let result = read_status(b"FAIL0005boom!");
    assert_eq!(result, Err(StatusError::Failure("boom!".to_string())));
    assert!(result.unwrap_err().message().contains("boom!"));
    assert_eq!(
        read_status(b"FAIL0005boom! and the rest"),
        Err(StatusError::Failure("boom!".to_string()))
    );
    assert_eq!(read_status(b"WHAT0000"), Err(StatusError::Failure(String::new())));
}

#[test]
fn short_or_garbled_replies_fail() {
    assert_eq!(read_status(b""), Err(StatusError::Io));
    assert_eq!(read_status(b"OKA"), Err(StatusError::Io));
    assert_eq!(read_status(b"FAIL"), Err(StatusError::Malformed));
    assert_eq!(read_status(b"FAIL00"), Err(StatusError::Malformed));
    assert_eq!(read_status(b"FAILzzzzboom!"), Err(StatusError::Malformed));
    assert_eq!(
        read_status(b"FAIL0005bo"),
        Err(StatusError::Failure("bo\u{0}\u{0}\u{0}".to_string()))
    );
}

#[test]
fn explanation_in_utf8_is_read_back() {
    let text = "设备未授权 (unauthorized)";
    let mut stream = b"FAIL".to_vec();
    stream.extend_from_slice(&frame_message(text.as_bytes())[..4]);
    stream.extend_from_slice(text.as_bytes());
    assert_eq!(&stream[4..8], b"001e");
    assert_eq!(read_status(&stream), Err(StatusError::Failure(text.to_string())));
}

#[test]
fn every_length_field_is_read_back() {
    for n in [0usize, 1, 9, 10, 15, 16, 255, 256, 4095, 4096, 65535] {
        let payload = vec![0x78u8; n];
        let framed = frame_message(&payload);
        assert_eq!(framed.len(), n + 4);
        assert_eq!(read_length(&framed[..4]), Some(n as u16));
    }
}

#[test]
fn rejections_are_classed_by_the_reply() {
    let explained = StatusError::Failure("no".to_string());
    assert_eq!(TransportError::SyncRejected(explained).kind(), ErrorKind::Connectivity);
    assert_eq!(TransportError::DeviceRejected(StatusError::Malformed).kind(), ErrorKind::Protocol);
    assert_eq!(TransportError::DeviceRejected(StatusError::Io).kind(), ErrorKind::Io);
    assert_eq!(TransportError::SyncRejected(StatusError::Io).kind(), ErrorKind::Io);
    assert_eq!(
        TransportError::DeviceRejected(StatusError::Io).message(),
        "device not found or unauthorized"
    );

    let (mut session, _) = AdbPusher::new(None).push("/x,0644");
    let actions = replay(&mut session, vec![Event::Size(1), Event::Done, Event::Done, Event::Failed]);
    let expected = TransportError::DeviceRejected(StatusError::Io);
    assert_eq!(actions.last(), Some(&Action::Finish(Err(expected))));
}
