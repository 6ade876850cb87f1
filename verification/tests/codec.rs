use bytes::{Bytes, BytesMut};
use nitox::commands::{Message, PubCommand, ServerError, SubCommand, UnsubCommand};
use nitox::{CommandError, NatsError, Op, OpCodec};

fn sample_ops() -> Vec<Op> {
    vec![
        Op::PING,
        Op::PUB(PubCommand { subject: "FOO".into(), reply_to: None, payload: "Hello NATS!".into() }),
        Op::PONG,
        Op::SUB(SubCommand { subject: "FOO".into(), queue_group: Some("G".into()), sid: "9".into() }),
        Op::MSG(Message {
            subject: "FOO".into(),
            sid: "9".into(),
            reply_to: Some("INBOX".into()),
            payload: Bytes::new(),
        }),
        Op::UNSUB(UnsubCommand { sid: "9".into(), max_msgs: Some(2) }),
        Op::OK,
        Op::ERR(ServerError::from("'Stale Connection'".to_string())),
    ]
}

fn wire(ops: &[Op]) -> BytesMut {
    let mut codec = OpCodec::new();
    let mut out = BytesMut::new();
    for op in ops {
        codec.encode(op.clone(), &mut out).unwrap();
    }
    out
}

fn decode_all(codec: &mut OpCodec, buf: &mut BytesMut, into: &mut Vec<Op>) {
    while let Some(op) = codec.decode(buf).unwrap() {
        into.push(op);
    }
}

#[test]
fn empty_buffer_needs_more() {
    let mut codec = OpCodec::new();
    let mut buf = BytesMut::new();
    assert_eq!(codec.decode(&mut buf), Ok(None));
    assert!(buf.is_empty());
    assert_eq!(codec, OpCodec::default());
}

#[test]
fn encode_appends_the_bytes_of_the_message() {
    let mut codec = OpCodec::new();
    let mut out = BytesMut::from(&b"x"[..]);
    codec.encode(Op::PING, &mut out).unwrap();
    codec
        .encode(
            Op::PUB(PubCommand { subject: "FOO".into(), reply_to: None, payload: "hi".into() }),
            &mut out,
        )
        .unwrap();
    assert_eq!(&out[..], &b"xPING\r\nPUB\tFOO\t2\r\nhi\r\n"[..]);
}

#[test]
fn encode_grows_a_buffer_without_room() {
    let mut codec = OpCodec::new();
    let mut out = BytesMut::with_capacity(0);
    let payload = vec![b'z'; 10_000];
    let op = Op::PUB(PubCommand {
        subject: "big".into(),
        reply_to: None,
        payload: Bytes::from(payload.clone()),
    });
    codec.encode(op.clone(), &mut out).unwrap();
    assert_eq!(out.len(), "PUB\tbig\t10000\r\n".len() + 10_000 + 2);
    assert_eq!(codec.decode(&mut out), Ok(Some(op)));
    assert!(out.is_empty());
}

#[test]
fn whole_stream_gives_every_message_in_order() {
    let ops = sample_ops();
    let mut buf = wire(&ops);
    let mut codec = OpCodec::new();
    let mut seen = Vec::new();
    decode_all(&mut codec, &mut buf, &mut seen);
    assert_eq!(seen, ops);
    assert!(buf.is_empty());
}

#[test]
fn chunks_of_any_size_give_the_same_messages() {
    let ops = sample_ops();
    let all = wire(&ops);
    for size in 1..all.len() + 1 {
        let mut codec = OpCodec::new();
        let mut buf = BytesMut::new();
        let mut seen = Vec::new();
        for chunk in all.chunks(size) {
            buf.extend_from_slice(chunk);
            decode_all(&mut codec, &mut buf, &mut seen);
        }
        assert_eq!(seen, ops, "chunks of {} bytes", size);
        assert!(buf.is_empty());
    }
}

#[test]
fn every_prefix_of_a_command_needs_more() {
    for op in sample_ops() {
        let all = wire(&[op.clone()]);
        for k in 0..all.len() {
            let mut codec = OpCodec::new();
            let mut buf = BytesMut::from(&all[..k]);
            assert_eq!(codec.decode(&mut buf), Ok(None), "{:?} cut at {}", op, k);
            assert_eq!(&buf[..], &all[..k]);
            // the rest arrives
            buf.extend_from_slice(&all[k..]);
            assert_eq!(codec.decode(&mut buf), Ok(Some(op.clone())));
            assert!(buf.is_empty());
        }
    }
}

#[test]
fn a_frame_that_cannot_be_read_is_an_error_and_is_taken_off() {
    let mut codec = OpCodec::new();
    let mut buf = BytesMut::from(&b"PUB FOO 5\r\nabc\r\nPING\r\n"[..]);
    assert_eq!(
        codec.decode(&mut buf),
        Err(NatsError::ProtocolError(CommandError::CommandMalformed))
    );
    assert_eq!(&buf[..], &b"PING\r\n"[..]);
    assert_eq!(codec.decode(&mut buf), Ok(Some(Op::PING)));
    assert_eq!(codec.decode(&mut buf), Ok(None));
}

#[test]
fn a_line_end_inside_a_payload_ends_the_frame_early() {
    let mut codec = OpCodec::new();
    let op = Op::PUB(PubCommand { subject: "FOO".into(), reply_to: None, payload: "a\r\nb".into() });
    let mut buf = wire(&[op]);
    assert_eq!(
        codec.decode(&mut buf),
        Err(NatsError::ProtocolError(CommandError::CommandMalformed))
    );
    assert_eq!(&buf[..], &b"b\r\n"[..]);
}

#[test]
fn a_payload_may_end_with_a_carriage_return() {
    for payload in [&b"a\r"[..], &b"\r"[..], &b"\n"[..], &b"\n\r"[..], &b"\r\r"[..]] {
        let op = Op::MSG(Message {
            subject: "FOO".into(),
            sid: "1".into(),
            reply_to: None,
            payload: Bytes::from(payload),
        });
        let all = wire(&[op.clone()]);
        for k in 0..all.len() {
            let mut codec = OpCodec::new();
            let mut buf = BytesMut::from(&all[..k]);
            assert_eq!(codec.decode(&mut buf), Ok(None), "{:?} cut at {}", payload, k);
            buf.extend_from_slice(&all[k..]);
            assert_eq!(codec.decode(&mut buf), Ok(Some(op.clone())));
        }
    }
}

#[test]
fn an_unknown_name_is_waited_on() {
    let mut codec = OpCodec::new();
    let mut buf = BytesMut::from(&b"HELLO world\r\n"[..]);
    assert_eq!(codec.decode(&mut buf), Ok(None));
    assert_eq!(&buf[..], &b"HELLO world\r\n"[..]);
    buf.extend_from_slice(b"PING\r\n");
    assert_eq!(codec.decode(&mut buf), Ok(None));
}

#[test]
fn a_name_without_blank_moves_the_cursor_to_the_end() {
    let mut codec = OpCodec::new();
    let mut buf = BytesMut::from(&b"PIN"[..]);
    assert_eq!(codec.decode(&mut buf), Ok(None));
    assert_ne!(codec, OpCodec::new());
    buf.extend_from_slice(b"G\r\n");
    assert_eq!(codec.decode(&mut buf), Ok(Some(Op::PING)));
    assert_eq!(codec, OpCodec::new());
}

#[test]
fn a_cursor_beyond_the_buffer_is_taken_as_its_end() {
    let mut codec = OpCodec::new();
    let mut long = BytesMut::from(&b"CONNECTCONNECT"[..]);
    assert_eq!(codec.decode(&mut long), Ok(None));
    let mut short = BytesMut::from(&b"PING\r\n"[..]);
    assert_eq!(codec.decode(&mut short), Ok(None));
    assert_eq!(&short[..], &b"PING\r\n"[..]);
}

#[test]
fn names_end_at_space_tab_or_carriage_return() {
    for frame in [&b"SUB a 1\r\n"[..], &b"SUB\ta\t1\r\n"[..]] {
        let mut codec = OpCodec::new();
        let mut buf = BytesMut::from(frame);
        let expected = SubCommand { subject: "a".into(), queue_group: None, sid: "1".into() };
        assert_eq!(codec.decode(&mut buf), Ok(Some(Op::SUB(expected))));
    }
    let mut codec = OpCodec::new();
    let mut buf = BytesMut::from(&b"+OK\r\n-ERR\r\n"[..]);
    assert_eq!(codec.decode(&mut buf), Ok(Some(Op::OK)));
    assert_eq!(codec.decode(&mut buf), Ok(Some(Op::ERR(ServerError::from(String::new())))));
}
