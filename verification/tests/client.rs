use bytes::Bytes;
use nitox::commands::{
    ConnectCommand, Message, PubCommand, ServerError, ServerInfo, SubCommand, UnsubCommand,
};
use nitox::{
    AckTrigger, Attempt, Delivery, IoFailure, IoFailureKind, NatsClient, NatsClientMultiplexer,
    NatsClientOptions, NatsClientSender, NatsClientTlsConfig, NatsConnection,
    NatsConnectionState, NatsError, Op, SendStatus, Transport,
};

fn msg(sid: &str, payload: &str) -> Message {
    Message { subject: "s".into(), sid: sid.into(), reply_to: None, payload: payload.into() }
}

fn info(max_payload: u32) -> ServerInfo {
    ServerInfo::builder()
        .server_id("id")
        .version("v")
        .go("g")
        .host("h")
        .port(4222)
        .max_payload(max_payload)
        .build()
        .unwrap()
}

fn client_with(connect: ConnectCommand, uri: &str) -> Result<NatsClient, NatsError> {
    NatsClient::from_options(
        NatsClientOptions::builder().connect_command(connect).cluster_uri(uri).build().unwrap(),
    )
}

fn client() -> NatsClient {
    client_with(ConnectCommand::builder().build().unwrap(), "127.0.0.1:4222").unwrap()
}

fn outbound(client: &mut NatsClient) -> Vec<Op> {
    let mut ops = Vec::new();
    while let Some(op) = client.next_outbound() {
        ops.push(op);
    }
    ops
}

fn payload_of(d: Delivery) -> Bytes {
    match d {
        Delivery::Message(m) => m.payload,
        other => panic!("no message: {:?}", other),
    }
}

// ---- multiplexer

#[test]
fn messages_go_to_the_stream_of_their_subscription() {
    let mut mux = NatsClientMultiplexer::new();
    mux.for_sid("A".into());
    mux.for_sid("B".into());
    mux.route(Op::MSG(msg("A", "a1")));
    mux.route(Op::MSG(msg("B", "b1")));
    mux.route(Op::MSG(msg("A", "a2")));
    assert_eq!(payload_of(mux.next_for("B")), "b1");
    assert!(matches!(mux.next_for("B"), Delivery::NotReady));
    assert_eq!(payload_of(mux.next_for("A")), "a1");
    assert_eq!(payload_of(mux.next_for("A")), "a2");
    assert!(matches!(mux.next_for("A"), Delivery::NotReady));
}

#[test]
fn a_message_without_subscription_is_dropped() {
    let mut mux = NatsClientMultiplexer::new();
    mux.route(Op::MSG(msg("nobody", "x")));
    assert!(matches!(mux.next_for("nobody"), Delivery::Closed));
    assert_eq!(mux.next_system(), None);
    mux.for_sid("nobody".into());
    assert!(matches!(mux.next_for("nobody"), Delivery::NotReady));
}

#[test]
fn everything_else_goes_to_the_system_channel() {
    let mut mux = NatsClientMultiplexer::new();
    mux.for_sid("A".into());
    let ops = vec![
        Op::PING,
        Op::INFO(info(10)),
        Op::OK,
        Op::ERR(ServerError::from("e".to_string())),
        Op::PONG,
    ];
    for op in ops.iter() {
        mux.route(op.clone());
    }
    for op in ops {
        assert_eq!(mux.next_system(), Some(op));
    }
    assert_eq!(mux.next_system(), None);
    assert!(matches!(mux.next_for("A"), Delivery::NotReady));
}

#[test]
fn a_budget_closes_the_stream_with_its_last_message() {
    let mut mux = NatsClientMultiplexer::new();
    mux.for_sid("A".into());
    mux.for_sid("B".into());
    assert!(mux.limit("A", 2));
    for i in 0..5 {
        mux.route(Op::MSG(msg("A", &format!("a{}", i))));
        mux.route(Op::MSG(msg("B", &format!("b{}", i))));
    }
    assert_eq!(payload_of(mux.next_for("A")), "a0");
    assert_eq!(payload_of(mux.next_for("A")), "a1");
    assert!(matches!(mux.next_for("A"), Delivery::CapReached(2)));
    assert!(matches!(mux.next_for("A"), Delivery::Closed));
    for i in 0..5 {
        assert_eq!(payload_of(mux.next_for("B")), format!("b{}", i));
    }
    assert!(matches!(mux.next_for("B"), Delivery::NotReady));
}

#[test]
fn a_budget_counts_from_when_it_is_set() {
    let mut mux = NatsClientMultiplexer::new();
    mux.for_sid("A".into());
    mux.route(Op::MSG(msg("A", "before")));
    assert!(mux.limit("A", 1));
    mux.route(Op::MSG(msg("A", "counted")));
    mux.route(Op::MSG(msg("A", "late")));
    assert_eq!(payload_of(mux.next_for("A")), "before");
    assert_eq!(payload_of(mux.next_for("A")), "counted");
    assert!(matches!(mux.next_for("A"), Delivery::CapReached(1)));
}

#[test]
fn a_budget_of_none_closes_at_once() {
    let mut mux = NatsClientMultiplexer::new();
    mux.for_sid("A".into());
    assert!(!mux.limit("A", 0));
    mux.route(Op::MSG(msg("A", "late")));
    assert!(matches!(mux.next_for("A"), Delivery::CapReached(0)));
    assert!(matches!(mux.next_for("A"), Delivery::Closed));
}

#[test]
fn a_lower_budget_than_the_count_closes_at_once() {
    let mut mux = NatsClientMultiplexer::new();
    mux.for_sid("A".into());
    assert!(mux.limit("A", 10));
    mux.route(Op::MSG(msg("A", "1")));
    mux.route(Op::MSG(msg("A", "2")));
    assert!(!mux.limit("A", 2));
    mux.route(Op::MSG(msg("A", "3")));
    assert_eq!(payload_of(mux.next_for("A")), "1");
    assert_eq!(payload_of(mux.next_for("A")), "2");
    assert!(matches!(mux.next_for("A"), Delivery::CapReached(2)));
}

#[test]
fn limit_on_an_unknown_subscription_changes_nothing() {
    let mut mux = NatsClientMultiplexer::new();
    assert!(!mux.limit("A", 3));
    assert!(matches!(mux.next_for("A"), Delivery::Closed));
}

#[test]
fn remove_sid_closes_the_stream_and_keeps_what_waits() {
    let mut mux = NatsClientMultiplexer::new();
    mux.for_sid("A".into());
    mux.route(Op::MSG(msg("A", "1")));
    mux.remove_sid("A");
    mux.route(Op::MSG(msg("A", "2")));
    assert_eq!(payload_of(mux.next_for("A")), "1");
    assert!(matches!(mux.next_for("A"), Delivery::Closed));
    mux.remove_sid("unknown");
}

#[test]
fn forget_drops_the_stream() {
    let mut mux = NatsClientMultiplexer::new();
    mux.for_sid("A".into());
    mux.for_sid("B".into());
    mux.route(Op::MSG(msg("A", "1")));
    mux.route(Op::MSG(msg("B", "2")));
    mux.forget("A");
    assert!(matches!(mux.next_for("A"), Delivery::Closed));
    assert_eq!(payload_of(mux.next_for("B")), "2");
}

#[test]
fn for_sid_again_starts_a_new_stream() {
    let mut mux = NatsClientMultiplexer::new();
    mux.for_sid("A".into());
    mux.route(Op::MSG(msg("A", "old")));
    mux.limit("A", 5);
    mux.for_sid("A".into());
    assert!(matches!(mux.next_for("A"), Delivery::NotReady));
    for i in 0..7 {
        mux.route(Op::MSG(msg("A", &format!("{}", i))));
    }
    for i in 0..7 {
        assert_eq!(payload_of(mux.next_for("A")), format!("{}", i));
    }
}

// ---- sender and acknowledgement flag

#[test]
fn ack_trigger() {
    let mut t = AckTrigger::default();
    assert!(!t.is_up());
    t.pull_up();
    assert!(t.is_up());
    assert!(t.poll());
    t.fire();
    assert!(!t.is_up());
    assert!(!t.poll());
    t.pull_up();
    t.pull_down();
    assert!(!t.is_up());
    assert!(AckTrigger::from(true).is_up());
    assert!(!AckTrigger::from(false).is_up());
}

#[test]
fn sender_keeps_the_order_of_sends() {
    let mut tx = NatsClientSender::new(AckTrigger::from(true));
    assert_eq!(tx.next_outbound(), None);
    assert_eq!(tx.send(Op::PING), Ok(SendStatus::Queued));
    assert_eq!(tx.send(Op::PONG), Ok(SendStatus::Queued));
    assert_eq!(tx.send(Op::OK), Ok(SendStatus::Queued));
    assert!(tx.is_acknowledged());
    assert_eq!(tx.next_outbound(), Some(Op::PING));
    assert_eq!(tx.next_outbound(), Some(Op::PONG));
    assert_eq!(tx.next_outbound(), Some(Op::OK));
    assert_eq!(tx.next_outbound(), None);
}

#[test]
fn verbose_sender_waits_for_the_acknowledgement() {
    let mut tx = NatsClientSender::new(AckTrigger::from(true));
    tx.set_verbose(true);
    assert_eq!(tx.send(Op::PING), Ok(SendStatus::AwaitingAck));
    assert!(!tx.is_acknowledged());
    tx.acknowledge();
    assert!(tx.is_acknowledged());
    assert_eq!(tx.send(Op::PING), Ok(SendStatus::AwaitingAck));
    assert!(!tx.is_acknowledged());
    tx.set_verbose(false);
    tx.acknowledge();
    assert_eq!(tx.send(Op::PING), Ok(SendStatus::Queued));
    assert!(tx.is_acknowledged());
}

#[test]
fn broken_sender_takes_nothing() {
    let mut tx = NatsClientSender::new(AckTrigger::default());
    tx.send(Op::PING).unwrap();
    assert!(!tx.is_broken());
    tx.close();
    assert!(tx.is_broken());
    assert_eq!(tx.send(Op::PONG), Err(NatsError::InnerBrokenChain));
    assert_eq!(tx.next_outbound(), Some(Op::PING));
    assert_eq!(tx.next_outbound(), None);
}

// ---- client

#[test]
fn a_new_client_has_sent_nothing() {
    let mut c = client();
    assert_eq!(c.next_outbound(), None);
    assert_eq!(c.poll(), None);
    assert_eq!(c.max_payload(), None);
    assert_eq!(c.transport_plan(), &Transport::Tcp);
    assert!(!c.is_acknowledged());
}

#[test]
fn connect_sends_the_connect_command_of_the_options() {
    let connect = ConnectCommand::builder().name(Some("me".into())).pedantic(true).build().unwrap();
    let mut c = client_with(connect.clone(), "127.0.0.1:4222").unwrap();
    assert_eq!(c.connect(), Ok(SendStatus::Queued));
    assert_eq!(outbound(&mut c), vec![Op::CONNECT(connect)]);
}

#[test]
fn tls_takes_the_host_from_the_url() {
    let tls = ConnectCommand::builder().tls_required(true).build().unwrap();
    let c = client_with(tls.clone(), "nats://demo.nats.io:4443").unwrap();
    assert_eq!(c.transport_plan(), &Transport::Tls { host: "demo.nats.io".into() });
    let c = client_with(tls.clone(), "tls://10.0.0.1:4222/").unwrap();
    assert_eq!(c.transport_plan(), &Transport::Tls { host: "10.0.0.1".into() });
    // a URL without host
    assert_eq!(client_with(tls.clone(), "unix:/run/nats.sock").err(), Some(NatsError::TlsHostMissingError));
    // no URL at all
    match client_with(tls.clone(), "127.0.0.1:4222") {
        Err(NatsError::UrlParseError(_)) => {}
        other => panic!("{:?}", other.map(|_| ())),
    }
    match client_with(tls, "") {
        Err(e @ NatsError::UrlParseError(_)) => assert_eq!(e.clone(), e),
        other => panic!("{:?}", other.map(|_| ())),
    }
    // without TLS the address is not read as a URL
    let plain = ConnectCommand::builder().build().unwrap();
    assert_eq!(client_with(plain, "").unwrap().transport_plan(), &Transport::Tcp);
}

#[test]
fn ping_is_answered_with_pong_and_handed_on() {
    let mut c = client();
    c.receive(Op::PING);
    assert_eq!(outbound(&mut c), vec![Op::PONG]);
    assert_eq!(c.poll(), Some(Op::PING));
    assert_eq!(c.poll(), None);
}

#[test]
fn pong_goes_out_even_if_nobody_reads_the_system_messages() {
    let mut c = client();
    for _ in 0..3 {
        c.receive(Op::PING);
        c.receive(Op::ERR(ServerError::from("x".to_string())));
    }
    assert_eq!(outbound(&mut c), vec![Op::PONG, Op::PONG, Op::PONG]);
}

#[test]
fn info_is_kept_and_not_handed_on() {
    let mut c = client();
    c.receive(Op::INFO(info(100)));
    assert_eq!(c.max_payload(), Some(100));
    c.receive(Op::INFO(info(7)));
    assert_eq!(c.max_payload(), Some(7));
    assert_eq!(c.poll(), None);
    assert_eq!(c.next_outbound(), None);
}

#[test]
fn ok_sets_the_flag_in_verbose_mode_only() {
    let mut quiet = client();
    quiet.receive(Op::OK);
    assert!(!quiet.is_acknowledged());
    assert_eq!(quiet.poll(), None);
    let verbose = ConnectCommand::builder().verbose(true).build().unwrap();
    let mut c = client_with(verbose, "127.0.0.1:4222").unwrap();
    assert_eq!(c.connect(), Ok(SendStatus::AwaitingAck));
    assert!(!c.is_acknowledged());
    c.receive(Op::OK);
    assert!(c.is_acknowledged());
    assert_eq!(c.poll(), None);
}

#[test]
fn other_system_messages_are_handed_on() {
    let mut c = client();
    let ops = vec![
        Op::ERR(ServerError::from("'Authorization Violation'".to_string())),
        Op::PONG,
        Op::SUB(SubCommand { subject: "s".into(), queue_group: None, sid: "1".into() }),
    ];
    for op in ops.iter() {
        c.receive(op.clone());
    }
    for op in ops {
        assert_eq!(c.poll(), Some(op));
    }
    assert_eq!(c.next_outbound(), None);
}

#[test]
fn publish_within_the_limit_is_queued() {
    let mut c = client();
    c.receive(Op::INFO(info(4)));
    let cmd = PubCommand { subject: "s".into(), reply_to: None, payload: "1234".into() };
    assert_eq!(c.publish(cmd.clone()), Ok(SendStatus::Queued));
    assert_eq!(outbound(&mut c), vec![Op::PUB(cmd)]);
}

#[test]
fn publish_beyond_the_limit_fails_and_queues_nothing() {
    let mut c = client();
    let big = PubCommand { subject: "s".into(), reply_to: None, payload: "12345".into() };
    // no limit is known yet
    assert_eq!(c.publish(big.clone()), Ok(SendStatus::Queued));
    assert_eq!(outbound(&mut c), vec![Op::PUB(big.clone())]);
    c.receive(Op::INFO(info(4)));
    assert_eq!(c.publish(big.clone()), Err(NatsError::MaxPayloadOverflow(4)));
    assert_eq!(c.next_outbound(), None);
    c.receive(Op::INFO(info(0)));
    let one = PubCommand { subject: "s".into(), reply_to: None, payload: "1".into() };
    assert_eq!(c.publish(one), Err(NatsError::MaxPayloadOverflow(0)));
    let none = PubCommand { subject: "s".into(), reply_to: None, payload: Bytes::new() };
    assert_eq!(c.publish(none), Ok(SendStatus::Queued));
}

#[test]
fn request_beyond_the_limit_fails_and_queues_nothing() {
    let mut c = client();
    c.receive(Op::INFO(info(2)));
    assert_eq!(c.request("s".into(), "123".into()), Err(NatsError::MaxPayloadOverflow(2)));
    assert_eq!(c.next_outbound(), None);
    assert!(c.request("s".into(), "12".into()).is_ok());
    assert_eq!(outbound(&mut c).len(), 3);
}

#[test]
fn request_sends_sub_unsub_pub_in_this_order() {
    let mut c = client();
    let ticket = c.request("subject".into(), "payload".into()).unwrap();
    assert_eq!(ticket.sid.len(), 8);
    assert_eq!(ticket.inbox.len(), 16);
    assert_eq!(
        outbound(&mut c),
        vec![
            Op::SUB(SubCommand {
                subject: ticket.inbox.clone(),
                queue_group: None,
                sid: ticket.sid.clone()
            }),
            Op::UNSUB(UnsubCommand { sid: ticket.sid.clone(), max_msgs: Some(1) }),
            Op::PUB(PubCommand {
                subject: "subject".into(),
                reply_to: Some(ticket.inbox.clone()),
                payload: "payload".into()
            }),
        ]
    );
    assert!(matches!(c.next_reply(&ticket.sid), Delivery::NotReady));
    c.receive(Op::MSG(msg(&ticket.sid, "first")));
    c.receive(Op::MSG(msg(&ticket.sid, "second")));
    assert_eq!(payload_of(c.next_reply(&ticket.sid)), "first");
    assert!(matches!(c.next_reply(&ticket.sid), Delivery::Closed));
}

#[test]
fn request_with_given_identifiers() {
    let mut c = client();
    let ticket = c.request_with("s".into(), "p".into(), "INBOX".into(), "SID".into()).unwrap();
    assert_eq!(ticket.sid, "SID");
    assert_eq!(ticket.inbox, "INBOX");
    let ops = outbound(&mut c);
    assert_eq!(
        ops[0],
        Op::SUB(SubCommand { subject: "INBOX".into(), queue_group: None, sid: "SID".into() })
    );
    assert_eq!(ops[1], Op::UNSUB(UnsubCommand { sid: "SID".into(), max_msgs: Some(1) }));
}

#[test]
fn subscribe_then_unsubscribe_without_count() {
    let mut c = client();
    let sub = SubCommand { subject: "s".into(), queue_group: None, sid: "A".into() };
    assert_eq!(c.subscribe(sub.clone()), Ok(SendStatus::Queued));
    c.receive(Op::MSG(msg("A", "1")));
    let unsub = UnsubCommand { sid: "A".into(), max_msgs: None };
    assert_eq!(c.unsubscribe(unsub.clone()), Ok(SendStatus::Queued));
    c.receive(Op::MSG(msg("A", "2")));
    assert_eq!(outbound(&mut c), vec![Op::SUB(sub), Op::UNSUB(unsub)]);
    assert_eq!(payload_of(c.next_message("A")), "1");
    assert!(matches!(c.next_message("A"), Delivery::Closed));
}

#[test]
fn unsubscribe_with_count_sets_the_budget() {
    let mut c = client();
    c.subscribe(SubCommand { subject: "s".into(), queue_group: None, sid: "A".into() }).unwrap();
    c.unsubscribe(UnsubCommand { sid: "A".into(), max_msgs: Some(3) }).unwrap();
    for i in 0..10 {
        c.receive(Op::MSG(msg("A", &format!("{}", i))));
    }
    for i in 0..3 {
        assert_eq!(payload_of(c.next_message("A")), format!("{}", i));
    }
    assert!(matches!(c.next_message("A"), Delivery::CapReached(3)));
    assert!(matches!(c.next_message("A"), Delivery::Closed));
}

#[test]
fn unsubscribe_still_sends_for_an_unknown_subscription() {
    let mut c = client();
    let unsub = UnsubCommand { sid: "nobody".into(), max_msgs: Some(3) };
    assert_eq!(c.unsubscribe(unsub.clone()), Ok(SendStatus::Queued));
    assert_eq!(outbound(&mut c), vec![Op::UNSUB(unsub)]);
    assert!(matches!(c.next_message("nobody"), Delivery::Closed));
}

#[test]
fn a_broken_sender_fails_every_operation() {
    let mut c = client();
    c.subscribe(SubCommand { subject: "s".into(), queue_group: None, sid: "A".into() }).unwrap();
    outbound(&mut c);
    c.close_sender();
    assert_eq!(c.connect(), Err(NatsError::InnerBrokenChain));
    assert_eq!(c.send(Op::PING), Err(NatsError::InnerBrokenChain));
    let cmd = PubCommand { subject: "s".into(), reply_to: None, payload: "p".into() };
    assert_eq!(c.publish(cmd), Err(NatsError::InnerBrokenChain));
    assert_eq!(
        c.subscribe(SubCommand { subject: "s".into(), queue_group: None, sid: "B".into() }),
        Err(NatsError::InnerBrokenChain)
    );
    assert!(matches!(c.next_message("B"), Delivery::Closed));
    assert_eq!(
        c.unsubscribe(UnsubCommand { sid: "A".into(), max_msgs: None }),
        Err(NatsError::InnerBrokenChain)
    );
    assert!(matches!(c.next_message("A"), Delivery::NotReady));
    assert_eq!(c.request("s".into(), "p".into()), Err(NatsError::InnerBrokenChain));
    c.receive(Op::PING);
    assert_eq!(c.next_outbound(), None);
    assert_eq!(c.poll(), Some(Op::PING));
}

#[test]
fn drop_subscription_forgets_the_stream() {
    let mut c = client();
    c.subscribe(SubCommand { subject: "s".into(), queue_group: None, sid: "A".into() }).unwrap();
    c.receive(Op::MSG(msg("A", "1")));
    c.drop_subscription("A");
    assert!(matches!(c.next_message("A"), Delivery::Closed));
}

#[test]
fn raw_send_queues_the_message() {
    let mut c = client();
    assert_eq!(c.send(Op::PING), Ok(SendStatus::Queued));
    assert_eq!(outbound(&mut c), vec![Op::PING]);
}

// ---- connection

fn reset() -> NatsError {
    NatsError::from_io(IoFailure { kind: IoFailureKind::ConnectionReset, message: "reset".into() })
}

#[test]
fn io_failures_are_sorted() {
    let refused = IoFailure { kind: IoFailureKind::ConnectionRefused, message: "r".into() };
    let other = IoFailure { kind: IoFailureKind::Other, message: "o".into() };
    assert_eq!(NatsError::from_io(refused.clone()), NatsError::ServerDisconnected(Some(refused)));
    assert!(reset().is_disconnected());
    assert_eq!(NatsError::from_io(other.clone()), NatsError::IOError(other));
    assert!(!NatsError::InnerBrokenChain.is_disconnected());
    assert!(NatsError::ServerDisconnected(None).is_disconnected());
    assert_eq!(
        NatsError::from(nitox::CommandError::CommandMalformed),
        NatsError::ProtocolError(nitox::CommandError::CommandMalformed)
    );
    assert_eq!(NatsError::from("x".to_string()), NatsError::GenericError("x".to_string()));
}

#[test]
fn a_connected_connection_hands_answers_on() {
    let mut conn = NatsConnection::new(Transport::Tcp);
    assert_eq!(conn.current_state(), NatsConnectionState::Connected);
    assert!(!conn.is_tls());
    assert!(conn.may_poll(true));
    assert!(!conn.may_poll(false));
    assert_eq!(conn.attempt(true, Some(Ok(5))), Attempt::Ready(5));
    assert_eq!(conn.attempt::<u8>(true, None), Attempt::NotReady);
    assert_eq!(conn.attempt(false, Some(Ok(5))), Attempt::NotReady);
    assert_eq!(
        conn.attempt::<u8>(true, Some(Err(NatsError::InnerBrokenChain))),
        Attempt::Failed(NatsError::InnerBrokenChain)
    );
    assert_eq!(conn.current_state(), NatsConnectionState::Connected);
}

#[test]
fn a_lost_server_parks_the_callers_until_reconnected() {
    let mut conn = NatsConnection::new(Transport::Tls { host: "h".into() });
    assert!(conn.is_tls());
    assert_eq!(conn.attempt::<u8>(true, Some(Err(reset()))), Attempt::Reconnect);
    assert_eq!(conn.current_state(), NatsConnectionState::Disconnected);
    assert!(!conn.may_poll(true));
    assert_eq!(conn.attempt(true, Some(Ok(1))), Attempt::NotReady);
    assert_eq!(conn.attempt::<u8>(true, Some(Err(NatsError::InnerBrokenChain))), Attempt::NotReady);
    let plan = conn.reconnect();
    assert_eq!(plan.transport, Transport::Tls { host: "h".into() });
    assert_eq!(conn.current_state(), NatsConnectionState::Reconnecting);
    assert_eq!(conn.attempt(true, Some(Ok(1))), Attempt::NotReady);
    assert_eq!(conn.reconnected(true), Ok(()));
    assert_eq!(conn.current_state(), NatsConnectionState::Connected);
    assert_eq!(conn.attempt(true, Some(Ok(1))), Attempt::Ready(1));
}

#[test]
fn a_failed_reconnection_leaves_the_connection_disconnected() {
    let mut conn = NatsConnection::new(Transport::Tcp);
    assert_eq!(conn.settle::<u8>(Err(reset())), Attempt::Reconnect);
    conn.reconnect();
    assert_eq!(conn.reconnected(false), Err(NatsError::CannotReconnectToServer));
    assert_eq!(conn.current_state(), NatsConnectionState::Disconnected);
    assert_eq!(conn.attempt(true, Some(Ok(1))), Attempt::NotReady);
}

// ---- TLS configuration

#[test]
fn tls_config_refuses_what_the_tls_library_refuses() {
    let config = NatsClientTlsConfig::new();
    assert!(config.identity_parts().is_none());
    assert!(config.root_cert_bytes().is_none());
    assert!(!config.identity_exists());
    assert!(!config.root_cert_exists());
    match config.clone().root_cert_der(b"no certificate") {
        Err(NatsError::TlsError(words)) => assert!(!words.is_empty()),
        other => panic!("{:?}", other.map(|_| ())),
    }
    match config.clone().pkcs12_identity(b"no archive", "secret") {
        Err(NatsError::TlsError(words)) => assert!(!words.is_empty()),
        other => panic!("{:?}", other.map(|_| ())),
    }
    let kept = match config.clone().with_root_cert(b"der", Ok(())) {
        Ok(kept) => kept,
        Err(e) => panic!("{:?}", e),
    };
    assert_eq!(kept.root_cert_bytes(), Some(&b"der"[..]));
    let kept = match kept.with_identity(b"p12", "pw", Ok(())) {
        Ok(kept) => kept,
        Err(e) => panic!("{:?}", e),
    };
    assert_eq!(kept.identity_parts(), Some((&b"p12"[..], "pw")));
    assert_eq!(kept.root_cert_bytes(), Some(&b"der"[..]));
    assert!(kept.identity_exists());
    assert!(kept.root_cert_exists());
    assert_eq!(
        config.with_identity(b"p12", "pw", Err("bad".to_string())).err(),
        Some(NatsError::TlsError("bad".to_string()))
    );
}
