use bytes::{Bytes, BytesMut};
use nitox::commands::{
    ConnectCommand, Message, PubCommand, ServerInfo, SubCommand, UnsubCommand,
};
use nitox::{Delivery, NatsClient, NatsClientOptions, NatsError, Op, OpCodec, SendStatus};

/// One end of a connection: a client, the bytes on their way to the server
/// and back, and the codecs of both sides.
struct Peer {
    client: NatsClient,
    client_codec: OpCodec,
    server_codec: OpCodec,
    to_server: BytesMut,
    to_client: BytesMut,
    /// What the server has read from this peer, if a record is kept
    seen_by_server: Option<Vec<Op>>,
    /// Whether the messages travel as bytes, through the codecs
    framed: bool,
}

impl Peer {
    fn new(options: NatsClientOptions) -> Result<Peer, NatsError> {
        Ok(Peer {
            client: NatsClient::from_options(options)?,
            client_codec: OpCodec::new(),
            server_codec: OpCodec::new(),
            to_server: BytesMut::new(),
            to_client: BytesMut::new(),
            seen_by_server: None,
            framed: true,
        })
    }

    /// Writes what the client has queued, and hands the server what it can
    /// read of it.
    fn flush(&mut self) -> Vec<Op> {
        let mut read = Vec::new();
        if !self.framed {
            while let Some(op) = self.client.next_outbound() {
                read.push(op);
            }
            return read;
        }
        while let Some(op) = self.client.next_outbound() {
            self.client_codec.encode(op, &mut self.to_server).unwrap();
        }
        while let Some(op) = self.server_codec.decode(&mut self.to_server).unwrap() {
            if let Some(record) = self.seen_by_server.as_mut() {
                record.push(op.clone());
            }
            read.push(op);
        }
        read
    }

    /// Writes what the server sends, and hands the client what it can read
    /// of it.
    fn deliver(&mut self, ops: Vec<Op>) {
        for op in ops {
            self.deliver_one(op);
        }
    }

    fn deliver_one(&mut self, op: Op) {
        if !self.framed {
            self.client.receive(op);
            return;
        }
        self.server_codec.encode(op, &mut self.to_client).unwrap();
        while let Some(op) = self.client_codec.decode(&mut self.to_client).unwrap() {
            self.client.receive(op);
        }
    }
}

struct Subscription {
    peer: usize,
    subject: String,
    sid: String,
    max: Option<u32>,
    count: u32,
}

/// A broker that does what a NATS server does with the commands that the
/// tests send: it greets, answers pings, and hands each publication to the
/// subscriptions of its subject, up to their budget.
struct Broker {
    subs: Vec<Subscription>,
}

impl Broker {
    fn new() -> Broker {
        Broker { subs: Vec::new() }
    }

    fn greeting() -> Vec<Op> {
        vec![Op::INFO(
            ServerInfo::builder()
                .server_id("broker")
                .version("1.3.0")
                .go("go1.10.3")
                .host("127.0.0.1")
                .port(4222u32)
                .max_payload(1048576u32)
                .build()
                .unwrap(),
        )]
    }

    /// What the server sends, and to whom, when it reads `op` from `peer`.
    fn handle(&mut self, peer: usize, op: Op) -> Vec<(usize, Op)> {
        let mut out = Vec::new();
        match op {
            Op::PING => out.push((peer, Op::PONG)),
            Op::SUB(cmd) => self.subs.push(Subscription {
                peer,
                subject: cmd.subject,
                sid: cmd.sid,
                max: None,
                count: 0,
            }),
            Op::UNSUB(cmd) => match cmd.max_msgs {
                Some(max) if max > 0 => {
                    for sub in self.subs.iter_mut() {
                        if sub.peer == peer && sub.sid == cmd.sid {
                            sub.max = Some(max);
                        }
                    }
                    self.subs.retain(|s| s.max.map_or(true, |m| s.count < m));
                }
                _ => self.subs.retain(|s| !(s.peer == peer && s.sid == cmd.sid)),
            },
            Op::PUB(cmd) => {
                for sub in self.subs.iter_mut() {
                    if sub.subject == cmd.subject {
                        sub.count += 1;
                        out.push((
                            sub.peer,
                            Op::MSG(Message {
                                subject: cmd.subject.clone(),
                                sid: sub.sid.clone(),
                                reply_to: cmd.reply_to.clone(),
                                payload: cmd.payload.clone(),
                            }),
                        ));
                    }
                }
                self.subs.retain(|s| s.max.map_or(true, |m| s.count < m));
            }
            _ => {}
        }
        out
    }
}

/// Moves what one peer has queued to the broker, and what the broker makes
/// of it to the peers that it is for. Says whether anything moved.
fn pump_from(peers: &mut Vec<Peer>, broker: &mut Broker, from: usize) -> bool {
    let read = peers[from].flush();
    let moved = !read.is_empty();
    for op in read {
        for (to, answer) in broker.handle(from, op) {
            peers[to].deliver_one(answer);
        }
    }
    moved
}

/// Moves bytes between the peers and the broker until nothing moves.
fn pump(peers: &mut Vec<Peer>, broker: &mut Broker) {
    loop {
        let mut moved = false;
        for i in 0..peers.len() {
            moved = pump_from(peers, broker, i) || moved;
        }
        if !moved {
            break;
        }
    }
}

fn options(connect_cmd: ConnectCommand, uri: &str) -> NatsClientOptions {
    NatsClientOptions::builder().connect_command(connect_cmd).cluster_uri(uri).build().unwrap()
}

/// A client that has reached the broker and has been greeted.
fn connected(connect_cmd: ConnectCommand) -> Result<Peer, NatsError> {
    let mut peer = Peer::new(options(connect_cmd, "127.0.0.1:4222"))?;
    peer.deliver(Broker::greeting());
    Ok(peer)
}

/// The mock server of the request and ping tests: it greets with an INFO
/// and a PING, remembers the ID of the last subscription, and answers every
/// PUB with a MSG on the reply subject whose payload is `bar`.
struct Mock {
    sid: String,
}

impl Mock {
    fn greeting() -> Vec<Op> {
        vec![
            Op::INFO(
                ServerInfo::builder()
                    .server_id("nitox-nats")
                    .version("0.1.0")
                    .go("lol")
                    .host("127.0.0.1")
                    .port(4222u32)
                    .max_payload(::std::u32::MAX)
                    .build()
                    .unwrap(),
            ),
            Op::PING,
        ]
    }

    fn handle(&mut self, op: Op, verbose: bool) -> Vec<Op> {
        let mut out = Vec::new();
        match op {
            Op::PONG => {
                if verbose {
                    out.push(Op::OK);
                }
            }
            Op::PING => {
                if verbose {
                    out.push(Op::OK);
                }
                out.push(Op::PONG);
            }
            Op::SUB(cmd) => {
                if verbose {
                    out.push(Op::OK);
                }
                self.sid = cmd.sid;
            }
            Op::PUB(cmd) => {
                if verbose {
                    out.push(Op::OK);
                }
                let sub = cmd.subject.clone();
                let msg = Message::builder()
                    .subject(&cmd.reply_to.unwrap_or(sub))
                    .sid(&self.sid)
                    .payload("bar".into())
                    .build()
                    .unwrap();
                out.push(Op::MSG(msg));
            }
            _ => {
                if verbose {
                    out.push(Op::OK);
                }
            }
        }
        out
    }
}

fn pump_mock(peer: &mut Peer, mock: &mut Mock, verbose: bool) {
    loop {
        let read = peer.flush();
        if read.is_empty() {
            break;
        }
        for op in read {
            let answers = mock.handle(op, verbose);
            peer.deliver(answers);
        }
    }
}

fn mocked(port: usize) -> Result<(Peer, Mock), NatsError> {
    let connect_cmd = ConnectCommand::builder().build().unwrap();
    let mut peer = Peer::new(options(connect_cmd, &format!("127.0.0.1:{}", port)))?;
    peer.deliver(Mock::greeting());
    Ok((peer, Mock { sid: String::new() }))
}

#[test]
fn can_connect_raw() {
    let connect_cmd = ConnectCommand::builder().build().unwrap();
    let options = NatsClientOptions::builder()
        .connect_command(connect_cmd)
        .cluster_uri("127.0.0.1:4222")
        .build()
        .unwrap();

    let connection_result = NatsClient::from_options(options);
    assert!(connection_result.is_ok());
    // nothing is sent before `connect` is called
    let mut client = connection_result.unwrap();
    assert_eq!(client.next_outbound(), None);
}

#[test]
fn can_connect() {
    let connect_cmd = ConnectCommand::builder().build().unwrap();
    let connection_result = connected(connect_cmd.clone()).and_then(|mut peer| {
        peer.client.connect()?;
        Ok(peer)
    });
    assert!(connection_result.is_ok());
    let mut peer = connection_result.unwrap();
    assert_eq!(peer.flush(), vec![Op::CONNECT(connect_cmd)]);
}

#[test]
fn can_sub_and_pub() {
    let connect_cmd = ConnectCommand::builder().build().unwrap();
    let mut broker = Broker::new();
    let mut peers = vec![connected(connect_cmd).unwrap()];
    peers[0].client.connect().unwrap();

    let sub = SubCommand::builder().subject("foo").build().unwrap();
    let sid = sub.sid.clone();
    peers[0].client.subscribe(sub).unwrap();
    peers[0]
        .client
        .publish(PubCommand::builder().subject("foo").payload("bar".into()).build().unwrap())
        .unwrap();
    pump(&mut peers, &mut broker);

    let connection_result = match peers[0].client.next_message(&sid) {
        Delivery::Message(msg) => Ok(msg),
        _ => Err(NatsError::InnerBrokenChain),
    };
    assert!(connection_result.is_ok());
    let msg = connection_result.unwrap();
    assert_eq!(msg.payload, "bar");
}

#[test]
fn can_subscribe_for_1000_messages() {
    let connect_cmd = ConnectCommand::builder().build().unwrap();
    let mut mock_all = Vec::new();
    let mut peer = connected(connect_cmd).unwrap();
    peer.client.connect().unwrap();

    let sub_cmd = SubCommand::builder().subject("foo-1000").build().unwrap();
    let sid = sub_cmd.sid.clone();
    let unsub_cmd =
        UnsubCommand::builder().sid(&sub_cmd.sid).max_msgs(Some(1000)).build().unwrap();

    peer.client.subscribe(sub_cmd).unwrap();
    peer.client.unsubscribe(unsub_cmd).unwrap();
    for i in 1..1010 {
        peer.client
            .publish(
                PubCommand::builder()
                    .subject("foo-1000")
                    .payload(format!("bar-{}", i).into())
                    .build()
                    .unwrap(),
            )
            .unwrap();
    }
    // this server passes the budget over and sends back everything that was
    // published, so that the client's own count decides
    for op in peer.flush() {
        if let Op::PUB(cmd) = op {
            mock_all.push(Op::MSG(Message {
                subject: cmd.subject,
                sid: sid.clone(),
                reply_to: None,
                payload: cmd.payload,
            }));
        }
    }
    assert_eq!(mock_all.len(), 1009);
    peer.deliver(mock_all);
    // one more, to make 1010
    peer.deliver(vec![Op::MSG(Message {
        subject: "foo-1000".into(),
        sid: sid.clone(),
        reply_to: None,
        payload: "bar-1010".into(),
    })]);

    let mut seen = 0;
    let connection_result: Result<(), NatsError> = loop {
        match peer.client.next_message(&sid) {
            Delivery::Message(msg) => {
                seen += 1;
                assert_eq!(msg.payload, format!("bar-{}", seen));
            }
            cap @ Delivery::CapReached(_) => break Err(cap.cap_error().unwrap()),
            Delivery::Closed => break Ok(()),
            Delivery::NotReady => panic!("the stream of a closed subscription cannot wait"),
        }
    };
    assert_eq!(seen, 1000);
    match connection_result {
        Ok(msg) => panic!("We shouldn't get Ok since we reached the end of the stream {:?}", msg),
        Err(NatsError::SubscriptionReachedMaxMsgs(i)) => {
            assert_eq!(i, 1000);
        }
        Err(e) => panic!("{:?}", e),
    }
    assert!(matches!(peer.client.next_message(&sid), Delivery::Closed));
}

#[test]
fn can_request() {
    let tcp_res = mocked(1339);
    assert!(tcp_res.is_ok());
    let (mut peer, mut mock) = tcp_res.unwrap();

    peer.client.connect().unwrap();
    let ticket = peer.client.request("foo2".into(), "foo".into()).unwrap();
    pump_mock(&mut peer, &mut mock, false);
    let connection_result = match peer.client.next_reply(&ticket.sid) {
        Delivery::Message(msg) => Ok(msg),
        _ => Err(NatsError::InnerBrokenChain),
    };
    assert!(connection_result.is_ok());
    let msg = connection_result.unwrap();
    assert_eq!(msg.payload, "bar");
    assert_eq!(msg.subject, ticket.inbox);
    // the subscription of the request is gone
    assert!(matches!(peer.client.next_reply(&ticket.sid), Delivery::Closed));
}

fn answer_requests(peers: &mut Vec<Peer>, answerer: usize, sid: &str) {
    loop {
        match peers[answerer].client.next_message(sid) {
            Delivery::Message(msg) => {
                let pub_command = PubCommand::builder()
                    .subject(&msg.reply_to.unwrap())
                    .payload("bar".into())
                    .build()
                    .unwrap();
                peers[answerer].client.publish(pub_command).unwrap();
            }
            _ => break,
        }
    }
}

const ROUNDTRIP_COUNT: usize = 1_000_000;

/// Lets one client ask `count` times and another answer each time. With
/// `framed`, every message travels as bytes through the codecs of both
/// sides; without, the messages are handed over as they are.
fn request_a_lot(connect_cmd: ConnectCommand, count: usize, framed: bool) -> Result<(), NatsError> {
    let mut broker = Broker::new();
    let mut peers = vec![connected(connect_cmd.clone())?, connected(connect_cmd)?];
    peers[0].framed = framed;
    peers[1].framed = framed;
    peers[0].client.connect()?;
    peers[1].client.connect()?;
    let sub_command = SubCommand::builder().subject("foo-requests").build().unwrap();
    let answerer_sid = sub_command.sid.clone();
    peers[1].client.subscribe(sub_command)?;
    pump(&mut peers, &mut broker);

    for _ in 0..count {
        let ticket = peers[0].client.request("foo-requests".into(), "foo".into())?;
        pump_from(&mut peers, &mut broker, 0);
        answer_requests(&mut peers, 1, &answerer_sid);
        pump_from(&mut peers, &mut broker, 1);
        match peers[0].client.next_reply(&ticket.sid) {
            Delivery::Message(msg) => {
                if msg.payload != "bar" {
                    return Err(NatsError::GenericError("another payload".into()));
                }
            }
            _ => return Err(NatsError::InnerBrokenChain),
        }
    }
    Ok(())
}

#[test]
fn can_request_a_lot() {
    let connect_cmd = ConnectCommand::builder().build().unwrap();
    let connection_result = request_a_lot(connect_cmd, ROUNDTRIP_COUNT, false);
    assert!(connection_result.is_ok());
}

#[test]
fn can_request_a_lot_pedantic() {
    let connect_cmd = ConnectCommand::builder().pedantic(true).build().unwrap();
    let connection_result = request_a_lot(connect_cmd, ROUNDTRIP_COUNT / 100, true);
    assert!(connection_result.is_ok());
}

#[test]
fn can_pong_to_ping() {
    let tcp_res = mocked(1338);
    assert!(tcp_res.is_ok());
    let (mut peer, mut mock) = tcp_res.unwrap();
    peer.seen_by_server = Some(Vec::new());

    let connection_result = peer.client.connect().and_then(|_| {
        let mut found = None;
        while let Some(op) = peer.client.poll() {
            if op == Op::PING {
                found = Some(op);
                break;
            }
        }
        found.ok_or(NatsError::InnerBrokenChain)
    });
    assert!(connection_result.is_ok());
    pump_mock(&mut peer, &mut mock, false);
    assert!(peer.seen_by_server.unwrap().contains(&Op::PONG));
}

#[test]
fn verbose_sends_wait_for_the_acknowledgement() {
    let connect_cmd = ConnectCommand::builder().verbose(true).build().unwrap();
    let mut peer = Peer::new(options(connect_cmd, "127.0.0.1:1340")).unwrap();
    let mut mock = Mock { sid: String::new() };
    assert_eq!(peer.client.connect(), Ok(SendStatus::AwaitingAck));
    assert!(!peer.client.is_acknowledged());
    pump_mock(&mut peer, &mut mock, true);
    assert!(peer.client.is_acknowledged());
    let payload: Bytes = "x".into();
    assert_eq!(
        peer.client.publish(PubCommand::builder().subject("s").payload(payload).build().unwrap()),
        Ok(SendStatus::AwaitingAck)
    );
    assert!(!peer.client.is_acknowledged());
}
