//! The client: publish, subscribe, unsubscribe and request, the reaction to
//! what the server sends, and the limit that the server sets on payloads.

use vstd::prelude::*;
use bytes::Bytes;
use crate::buf::bytes_content;
use crate::client::ack_trigger::AckTrigger;
use crate::client::multiplexer::{
    fresh_stream, op_views, stream_accept, stream_close, stream_limit, stream_poll, Delivery,
    DeliveryView, NatsClientMultiplexer, StreamView,
};
use crate::client::sender::{NatsClientSender, SendStatus};
use crate::error::NatsError;
use crate::net::{transport_for, transport_of, url_parsed, Transport, TransportView};
use crate::protocol::builder::{missing, missing_words};
use crate::protocol::client::connect::ConnectCommand;
use crate::protocol::client::pub_cmd::{PubCommand, PubCommandView};
use crate::protocol::client::sub_cmd::{SubCommand, SubCommandView};
use crate::protocol::client::unsub_cmd::{UnsubCommand, UnsubCommandView};
use crate::protocol::ident::{
    all_alphanumeric, generate_inbox, generate_sid, INBOX_LENGTH, SID_LENGTH,
};
use crate::protocol::op::{Op, OpView};
use crate::protocol::server::info::{ServerInfo, ServerInfoView};

verus! {

/// Options that are to be given to the client for initialization
#[derive(Debug, Clone)]
pub struct NatsClientOptions {
    /// CONNECT command that will be sent upon calling the `connect()` method
    pub connect_command: ConnectCommand,
    /// Cluster URI in the IP:PORT format
    pub cluster_uri: String,
}

/// The IDs that a request was made with.
#[derive(Debug, Clone, PartialEq)]
pub struct RequestTicket {
    /// The subscription under which the reply is awaited
    pub sid: String,
    /// The subject to which the reply is to be published
    pub inbox: String,
    /// What the sends of the request have to wait for
    pub status: SendStatus,
}

/// The NATS Client, without its socket: what it has queued for the server,
/// what it keeps for its subscribers, and what it knows of the server.
#[derive(Debug)]
pub struct NatsClient {
    /// Backup of options
    opts: NatsClientOptions,
    /// How the server is reached
    transport: Transport,
    /// Verbose setting
    verbose: bool,
    /// Server info
    server_info: Option<ServerInfo>,
    /// The messages that are not caught for subscriptions (only system messages like PING/PONG
    /// should be here)
    other_rx: Vec<Op>,
    /// Sink part to send commands
    tx: NatsClientSender,
    /// Subscription multiplexer
    rx: NatsClientMultiplexer,
}

/// What the client holds, as plain values, apart from its options, its
/// transport and its streams.
pub struct ClientView {
    /// What the server last said of itself
    pub server_info: Option<ServerInfoView>,
    /// Whether every send waits for the server's acknowledgement
    pub verbose: bool,
    /// Whether the server has acknowledged since the last send
    pub acknowledged: bool,
    /// Whether the sender has lost what drains its queue
    pub broken: bool,
    /// The messages that wait for the socket, oldest first
    pub outbound: Seq<OpView>,
    /// The system messages that wait for the application, oldest first
    pub events: Seq<OpView>,
}

/// The limit that a payload of the given length exceeds, if the server has
/// set one and the payload exceeds it.
pub open spec fn exceeded(info: Option<ServerInfoView>, payload_len: nat) -> Option<u32> {
    match info {
        Some(i) => if payload_len > i.max_payload {
            Some(i.max_payload)
        } else {
            None
        },
        None => None,
    }
}

/// What `send` answers where the sender is not broken.
pub open spec fn status_for(verbose: bool) -> SendStatus {
    if verbose {
        SendStatus::AwaitingAck
    } else {
        SendStatus::Queued
    }
}

/// The client after a message has joined its queue: in verbose mode the
/// acknowledgement flag is down.
pub open spec fn queued(v: ClientView, op: OpView) -> ClientView {
    ClientView { outbound: v.outbound.push(op), acknowledged: !v.verbose && v.acknowledged, ..v }
}

/// A send: a broken sender takes nothing and leaves the client as it was;
/// otherwise the message joins the queue.
pub open spec fn sending(v: ClientView, op: OpView) -> (ClientView, Result<SendStatus, NatsError>) {
    if v.broken {
        (v, Err(NatsError::InnerBrokenChain))
    } else {
        (queued(v, op), Ok(status_for(v.verbose)))
    }
}

/// A publication: a payload beyond the server's limit is refused and
/// leaves the client as it was; every other is sent.
pub open spec fn publishing(v: ClientView, cmd: PubCommandView) -> (
    ClientView,
    Result<SendStatus, NatsError>,
) {
    match exceeded(v.server_info, cmd.payload.len()) {
        Some(max) => (v, Err(NatsError::MaxPayloadOverflow(max))),
        None => sending(v, OpView::PUB(cmd)),
    }
}

/// The three commands of a request, in the order in which they go out: the
/// subscription to the inbox, its limit of one message, and the publication
/// that names the inbox for the reply.
pub open spec fn request_ops(
    subject: Seq<char>,
    payload: Seq<u8>,
    inbox: Seq<char>,
    sid: Seq<char>,
) -> Seq<OpView> {
    seq![
        OpView::SUB(SubCommandView { subject: inbox, queue_group: None, sid }),
        OpView::UNSUB(UnsubCommandView { sid, max_msgs: Some(1u32) }),
        OpView::PUB(PubCommandView { subject, reply_to: Some(inbox), payload }),
    ]
}

/// A request: a payload beyond the server's limit is refused, a broken
/// sender takes nothing, and both leave the client as it was; otherwise the
/// three commands of the request join the queue.
pub open spec fn requesting(
    v: ClientView,
    subject: Seq<char>,
    payload: Seq<u8>,
    inbox: Seq<char>,
    sid: Seq<char>,
) -> (ClientView, Result<SendStatus, NatsError>) {
    match exceeded(v.server_info, payload.len()) {
        Some(max) => (v, Err(NatsError::MaxPayloadOverflow(max))),
        None => if v.broken {
            (v, Err(NatsError::InnerBrokenChain))
        } else {
            (
                ClientView {
                    outbound: v.outbound + request_ops(subject, payload, inbox, sid),
                    acknowledged: !v.verbose && v.acknowledged,
                    ..v
                },
                Ok(status_for(v.verbose)),
            )
        },
    }
}

/// The reaction to a message of the system channel. A PING is answered
/// with a PONG, which is sent at once, and is handed on to the application.
/// An INFO replaces what is known of the server. An `+OK` puts the
/// acknowledgement flag up in verbose mode. Everything else is handed on to
/// the application.
pub open spec fn reacting(v: ClientView, op: OpView) -> ClientView {
    match op {
        OpView::PING => ClientView {
            events: v.events.push(OpView::PING),
            ..sending(v, OpView::PONG).0
        },
        OpView::INFO(info) => ClientView { server_info: Some(info), ..v },
        OpView::OK => ClientView { acknowledged: v.verbose || v.acknowledged, ..v },
        other => ClientView { events: v.events.push(other), ..v },
    }
}

/// What a message of the connection does to the client, its streams
/// apart: a delivered message does nothing, every other message is reacted
/// to.
pub open spec fn receiving(v: ClientView, op: OpView) -> ClientView {
    if op is MSG {
        v
    } else {
        reacting(v, op)
    }
}

impl View for NatsClient {
    type V = ClientView;

    closed spec fn view(&self) -> ClientView {
        ClientView {
            server_info: match self.server_info {
                Some(i) => Some(i@),
                None => None,
            },
            verbose: self.verbose,
            acknowledged: self.tx.acknowledged(),
            broken: self.tx.broken(),
            outbound: self.tx.queue(),
            events: op_views(self.other_rx@),
        }
    }
}

impl NatsClient {
    /// The invariant of the client: the multiplexer's table is well formed,
    /// nothing waits on the inner system channel, and the sender is verbose
    /// exactly if the client is.
    pub closed spec fn wf(&self) -> bool {
        &&& self.rx.wf()
        &&& self.rx.system() == Seq::<OpView>::empty()
        &&& self.tx.verbose() == self.verbose
    }

    /// The options that the client was made with.
    pub closed spec fn options(&self) -> NatsClientOptions {
        self.opts
    }

    /// How the server is reached.
    pub closed spec fn transport(&self) -> TransportView {
        self.transport@
    }

    /// The stream that is kept for a subscription, if there is one.
    pub closed spec fn stream(&self, sid: Seq<char>) -> Option<StreamView> {
        self.rx.stream(sid)
    }

    /// Whether the client has the options and the transport of another.
    pub open spec fn same_setup(&self, other: &NatsClient) -> bool {
        self.options() == other.options() && self.transport() == other.transport()
    }

    /// Whether the client keeps the streams of another.
    pub open spec fn same_streams(&self, other: &NatsClient) -> bool {
        forall|sid: Seq<char>| self.stream(sid) == other.stream(sid)
    }

    /// Whether the client keeps the streams of another, but for the stream
    /// of one subscription.
    pub open spec fn same_streams_but(&self, other: &NatsClient, sid: Seq<char>) -> bool {
        forall|any: Seq<char>| any != sid ==> self.stream(any) == other.stream(any)
    }

    /// Every stream that the client keeps is well formed: in particular,
    /// each message that waits on it is addressed to its subscription.
    pub proof fn lemma_streams_wf(&self, sid: Seq<char>)
        requires
            self.wf(),
        ensures
            self.stream(sid) matches Some(st) ==> crate::client::multiplexer::stream_wf(sid, st),
    {
        self.rx.lemma_streams_wf(sid);
    }

    /// Creates a client for the given options and decides how the server is
    /// to be reached. Nothing is queued for the server yet, not even the
    /// CONNECT command.
    pub fn from_options(opts: NatsClientOptions) -> (r: Result<Self, NatsError>)
        ensures
            match r {
                Ok(c) => {
                    &&& transport_of(
                        opts.connect_command.tls_required,
                        url_parsed(opts.cluster_uri@),
                    ) == Ok::<TransportView, NatsError>(c.transport())
                    &&& c.wf()
                    &&& c.options() == opts
                    &&& c@ == (ClientView {
                        server_info: None,
                        verbose: opts.connect_command.verbose,
                        acknowledged: false,
                        broken: false,
                        outbound: Seq::empty(),
                        events: Seq::empty(),
                    })
                    &&& forall|sid: Seq<char>| c.stream(sid) is None
                },
                Err(e) => transport_of(
                    opts.connect_command.tls_required,
                    url_parsed(opts.cluster_uri@),
                ) == Err::<TransportView, NatsError>(e),
            },
    {
        let transport = match transport_for(
            opts.connect_command.tls_required,
            opts.cluster_uri.as_str(),
        ) {
            Ok(t) => t,
            Err(e) => {
                return Err(e);
            },
        };
        let verbose = opts.connect_command.verbose;
        let mut tx = NatsClientSender::new(AckTrigger::new(false));
        tx.set_verbose(verbose);
        let rx = NatsClientMultiplexer::new();
        let client = NatsClient {
            opts,
            transport,
            verbose,
            server_info: None,
            other_rx: Vec::new(),
            tx,
            rx,
        };
        assert(client@.events =~= Seq::<OpView>::empty());
        Ok(client)
    }

    /// How the server is reached.
    pub fn transport_plan(&self) -> (r: &Transport)
        ensures
            r@ == self.transport(),
    {
        &self.transport
    }

    /// The largest payload that the server accepts, once the server has
    /// said so.
    pub fn max_payload(&self) -> (r: Option<u32>)
        ensures
            r == match self@.server_info {
                Some(i) => Some(i.max_payload),
                None => None,
            },
    {
        match &self.server_info {
            Some(i) => Some(i.max_payload),
            None => None,
        }
    }

    /// The limit that a payload of this length exceeds, if it exceeds one.
    fn check_payload(&self, len: usize) -> (r: Option<u32>)
        ensures
            r == exceeded(self@.server_info, len as nat),
    {
        match &self.server_info {
            Some(i) => if len > i.max_payload as usize {
                Some(i.max_payload)
            } else {
                None
            },
            None => None,
        }
    }

    /// Sends the CONNECT command to the server to setup connection
    pub fn connect(&mut self) -> (r: Result<SendStatus, NatsError>)
        requires
            old(self).wf(),
        ensures
            final(self).wf(),
            final(self).same_setup(old(self)),
            final(self).same_streams(old(self)),
            (final(self)@, r) == sending(
                old(self)@,
                OpView::CONNECT(old(self).options().connect_command@),
            ),
    {
        let cmd = self.opts.connect_command.duplicate();
        self.tx.send(Op::CONNECT(cmd))
    }

    /// Send a raw command to the server
    pub fn send(&mut self, op: Op) -> (r: Result<SendStatus, NatsError>)
        requires
            old(self).wf(),
        ensures
            final(self).wf(),
            final(self).same_setup(old(self)),
            final(self).same_streams(old(self)),
            (final(self)@, r) == sending(old(self)@, op@),
    {
        self.tx.send(op)
    }

    /// Send a PUB command to the server. A payload that is larger than the
    /// server accepts is refused, and nothing is queued for it.
    pub fn publish(&mut self, cmd: PubCommand) -> (r: Result<SendStatus, NatsError>)
        requires
            old(self).wf(),
        ensures
            final(self).wf(),
            final(self).same_setup(old(self)),
            final(self).same_streams(old(self)),
            (final(self)@, r) == publishing(old(self)@, cmd@),
    {
        let len = {
            let payload: &[u8] = cmd.payload.as_ref();
            payload.len()
        };
        match self.check_payload(len) {
            Some(max) => Err(NatsError::MaxPayloadOverflow(max)),
            None => self.tx.send(Op::PUB(cmd)),
        }
    }

    /// Send a UNSUB command to the server and de-register stream in the multiplexer. With a count,
    /// the count becomes the budget of the subscription; without one, or
    /// for a subscription that is not open, the stream is closed once the
    /// command is queued.
    pub fn unsubscribe(&mut self, cmd: UnsubCommand) -> (r: Result<SendStatus, NatsError>)
        requires
            old(self).wf(),
        ensures
            final(self).wf(),
            final(self).same_setup(old(self)),
            (final(self)@, r) == sending(old(self)@, OpView::UNSUB(cmd@)),
            final(self).same_streams_but(old(self), cmd.sid@),
            final(self).stream(cmd.sid@) == match old(self).stream(cmd.sid@) {
                None => None,
                Some(st) => Some(
                    match cmd.max_msgs {
                        Some(max) => if old(self)@.broken || stream_limit(st, max).open {
                            stream_limit(st, max)
                        } else {
                            stream_close(stream_limit(st, max))
                        },
                        None => if old(self)@.broken {
                            st
                        } else {
                            stream_close(st)
                        },
                    },
                ),
            },
    {
        let mut unsub_now = true;
        match cmd.max_msgs {
            Some(max) => {
                if self.rx.limit(cmd.sid.as_str(), max) {
                    unsub_now = false;
                }
            },
            None => {},
        }
        let sid = cmd.sid.clone();
        match self.tx.send(Op::UNSUB(cmd)) {
            Ok(status) => {
                if unsub_now {
                    self.rx.remove_sid(sid.as_str());
                }
                Ok(status)
            },
            Err(e) => Err(e),
        }
    }

    /// Send a SUB command and register subscription stream in the multiplexer. The messages of
    /// the subscription are then had with `next_message`.
    pub fn subscribe(&mut self, cmd: SubCommand) -> (r: Result<SendStatus, NatsError>)
        requires
            old(self).wf(),
        ensures
            final(self).wf(),
            final(self).same_setup(old(self)),
            (final(self)@, r) == sending(old(self)@, OpView::SUB(cmd@)),
            final(self).same_streams_but(old(self), cmd.sid@),
            final(self).stream(cmd.sid@) == if old(self)@.broken {
                old(self).stream(cmd.sid@)
            } else {
                Some(fresh_stream())
            },
    {
        let sid = cmd.sid.clone();
        match self.tx.send(Op::SUB(cmd)) {
            Ok(status) => {
                self.rx.for_sid(sid);
                Ok(status)
            },
            Err(e) => Err(e),
        }
    }

    /// Hands the consumer of a subscription its next item.
    pub fn next_message(&mut self, sid: &str) -> (r: Delivery)
        requires
            old(self).wf(),
        ensures
            final(self).wf(),
            final(self).same_setup(old(self)),
            final(self)@ == old(self)@,
            final(self).same_streams_but(old(self), sid@),
            match old(self).stream(sid@) {
                Some(st) => final(self).stream(sid@) == stream_poll(st).0 && r@ == stream_poll(
                    st,
                ).1,
                None => final(self).stream(sid@) is None && r@ == DeliveryView::Closed,
            },
    {
        self.rx.next_for(sid)
    }

    /// Performs a request with the given inbox and subscription ID: a
    /// subscription to the inbox with a budget of one message is started,
    /// and the subscription, its limit and the publication are queued in
    /// this order. A payload that is larger than the server accepts is
    /// refused, and nothing is queued or started for it.
    pub fn request_with(
        &mut self,
        subject: String,
        payload: Bytes,
        inbox: String,
        sid: String,
    ) -> (r: Result<RequestTicket, NatsError>)
        requires
            old(self).wf(),
        ensures
            final(self).wf(),
            final(self).same_setup(old(self)),
            final(self).same_streams_but(old(self), sid@),
            final(self)@ == requesting(
                old(self)@,
                subject@,
                bytes_content(payload),
                inbox@,
                sid@,
            ).0,
            match requesting(old(self)@, subject@, bytes_content(payload), inbox@, sid@).1 {
                Ok(status) => r matches Ok(ticket) && ticket.sid@ == sid@ && ticket.inbox@
                    == inbox@ && ticket.status == status && final(self).stream(sid@) == Some(
                    stream_limit(fresh_stream(), 1),
                ),
                Err(e) => r == Err::<RequestTicket, NatsError>(e) && final(self).stream(sid@)
                    == old(self).stream(sid@),
            },
    {
        let len = {
            let bytes: &[u8] = payload.as_ref();
            bytes.len()
        };
        match self.check_payload(len) {
            Some(max) => {
                return Err(NatsError::MaxPayloadOverflow(max));
            },
            None => {},
        }
        if self.tx.is_broken() {
            return Err(NatsError::InnerBrokenChain);
        }
        let pub_cmd = PubCommand { subject, payload, reply_to: Some(inbox.clone()) };
        let sub_cmd = SubCommand { queue_group: None, sid: sid.clone(), subject: inbox.clone() };
        let unsub_cmd = UnsubCommand { sid: sid.clone(), max_msgs: Some(1) };
        let ghost ops = request_ops(subject@, bytes_content(payload), inbox@, sid@);
        self.rx.for_sid(sid.clone());
        self.rx.limit(sid.as_str(), 1);
        let _ = self.tx.send(Op::SUB(sub_cmd));
        let _ = self.tx.send(Op::UNSUB(unsub_cmd));
        let status = match self.tx.send(Op::PUB(pub_cmd)) {
            Ok(status) => status,
            Err(e) => {
                return Err(e);
            },
        };
        assert(self@.outbound =~= old(self)@.outbound + ops);
        Ok(RequestTicket { sid, inbox, status })
    }

    /// Performs a request to the server following the Request/Reply pattern: draws a fresh inbox
    /// and a fresh subscription ID and goes on as `request_with` does. The
    /// reply is then had with `next_reply`.
    pub fn request(&mut self, subject: String, payload: Bytes) -> (r: Result<
        RequestTicket,
        NatsError,
    >)
        requires
            old(self).wf(),
        ensures
            final(self).wf(),
            final(self).same_setup(old(self)),
            match r {
                Ok(ticket) => {
                    &&& ticket.sid@.len() == SID_LENGTH
                    &&& all_alphanumeric(ticket.sid@)
                    &&& ticket.inbox@.len() == INBOX_LENGTH
                    &&& all_alphanumeric(ticket.inbox@)
                    &&& (final(self)@, Ok::<SendStatus, NatsError>(ticket.status)) == requesting(
                        old(self)@,
                        subject@,
                        bytes_content(payload),
                        ticket.inbox@,
                        ticket.sid@,
                    )
                    &&& final(self).stream(ticket.sid@) == Some(stream_limit(fresh_stream(), 1))
                    &&& final(self).same_streams_but(old(self), ticket.sid@)
                },
                Err(e) => {
                    &&& final(self)@ == old(self)@
                    &&& final(self).same_streams(old(self))
                    &&& e == match exceeded(old(self)@.server_info, bytes_content(payload).len()) {
                        Some(max) => NatsError::MaxPayloadOverflow(max),
                        None => NatsError::InnerBrokenChain,
                    }
                },
            },
            r is Err <==> exceeded(old(self)@.server_info, bytes_content(payload).len()) is Some
                || old(self)@.broken,
    {
        let inbox = generate_inbox();
        let sid = generate_sid();
        self.request_with(subject, payload, inbox, sid)
    }

    /// Asks for the reply to a request. Once the reply is handed out, the
    /// subscription of the request is forgotten.
    pub fn next_reply(&mut self, sid: &str) -> (r: Delivery)
        requires
            old(self).wf(),
        ensures
            final(self).wf(),
            final(self).same_setup(old(self)),
            final(self)@ == old(self)@,
            final(self).same_streams_but(old(self), sid@),
            match old(self).stream(sid@) {
                Some(st) => r@ == stream_poll(st).1 && final(self).stream(sid@) == (if r
                    is Message {
                    None
                } else {
                    stream_poll(st).0
                }),
                None => final(self).stream(sid@) is None && r@ == DeliveryView::Closed,
            },
    {
        let first = self.rx.next_for(sid);
        match first {
            Delivery::Message(msg) => {
                self.rx.forget(sid);
                Delivery::Message(msg)
            },
            other => other,
        }
    }

    /// The reaction to one message of the system channel.
    pub fn react(&mut self, op: Op)
        requires
            old(self).wf(),
        ensures
            final(self).wf(),
            final(self).same_setup(old(self)),
            final(self).same_streams(old(self)),
            final(self)@ == reacting(old(self)@, op@),
    {
        match op {
            Op::PING => {
                let _ = self.tx.send(Op::PONG);
                self.emit(Op::PING);
            },
            Op::INFO(info) => {
                self.server_info = Some(info);
            },
            Op::OK => {
                if self.verbose {
                    self.tx.acknowledge();
                }
            },
            other => {
                self.emit(other);
            },
        }
    }

    /// Hands a system message on to the application.
    fn emit(&mut self, op: Op)
        requires
            old(self).wf(),
        ensures
            final(self).wf(),
            final(self).same_setup(old(self)),
            final(self).same_streams(old(self)),
            final(self)@ == (ClientView { events: old(self)@.events.push(op@), ..old(self)@ }),
    {
        let ghost waiting = self.other_rx@;
        self.other_rx.push(op);
        assert(op_views(self.other_rx@) =~= op_views(waiting).push(op@));
    }

    /// Takes one message of the connection in. A delivered message goes to
    /// the stream of its subscription, or nowhere if the client keeps no
    /// stream under its ID. Every other message is reacted to as `react`
    /// does.
    pub fn receive(&mut self, op: Op)
        requires
            old(self).wf(),
        ensures
            final(self).wf(),
            final(self).same_setup(old(self)),
            final(self)@ == receiving(old(self)@, op@),
            match op@ {
                OpView::MSG(msg) => final(self).same_streams_but(old(self), msg.sid)
                    && final(self).stream(msg.sid) == match old(self).stream(msg.sid) {
                    Some(st) => Some(stream_accept(st, msg)),
                    None => None,
                },
                _ => final(self).same_streams(old(self)),
            },
    {
        self.rx.route(op);
        match self.rx.next_system() {
            Some(system_op) => {
                assert(system_op@ == op@);
                assert(self.rx.system() =~= Seq::<OpView>::empty());
                self.react(system_op);
            },
            None => {},
        }
    }

    /// Takes the oldest system message that waits for the application.
    pub fn poll(&mut self) -> (r: Option<Op>)
        requires
            old(self).wf(),
        ensures
            final(self).wf(),
            final(self).same_setup(old(self)),
            final(self).same_streams(old(self)),
            match r {
                Some(op) => old(self)@.events.len() > 0 && op@ == old(self)@.events[0]
                    && final(self)@ == (ClientView {
                    events: old(self)@.events.drop_first(),
                    ..old(self)@
                }),
                None => old(self)@.events.len() == 0 && final(self)@ == old(self)@,
            },
    {
        if self.other_rx.len() == 0 {
            return None;
        }
        let ghost waiting = self.other_rx@;
        let op = self.other_rx.remove(0);
        assert(op_views(self.other_rx@) =~= op_views(waiting).drop_first());
        Some(op)
    }

    /// Takes the oldest message that waits for the socket.
    pub fn next_outbound(&mut self) -> (r: Option<Op>)
        requires
            old(self).wf(),
        ensures
            final(self).wf(),
            final(self).same_setup(old(self)),
            final(self).same_streams(old(self)),
            match r {
                Some(op) => old(self)@.outbound.len() > 0 && op@ == old(self)@.outbound[0]
                    && final(self)@ == (ClientView {
                    outbound: old(self)@.outbound.drop_first(),
                    ..old(self)@
                }),
                None => old(self)@.outbound.len() == 0 && final(self)@ == old(self)@,
            },
    {
        self.tx.next_outbound()
    }

    /// Whether a send that waits for an acknowledgement is complete.
    pub fn is_acknowledged(&self) -> (r: bool)
        ensures
            r == self@.acknowledged,
    {
        self.tx.is_acknowledged()
    }

    /// Marks the sender broken: what drains its queue is gone, and every
    /// later send fails.
    pub fn close_sender(&mut self)
        requires
            old(self).wf(),
        ensures
            final(self).wf(),
            final(self).same_setup(old(self)),
            final(self).same_streams(old(self)),
            final(self)@ == (ClientView { broken: true, ..old(self)@ }),
    {
        self.tx.close();
    }

    /// Forgets the stream of a subscription whose consumer is gone.
    pub fn drop_subscription(&mut self, sid: &str)
        requires
            old(self).wf(),
        ensures
            final(self).wf(),
            final(self).same_setup(old(self)),
            final(self)@ == old(self)@,
            final(self).stream(sid@) is None,
            final(self).same_streams_but(old(self), sid@),
    {
        self.rx.forget(sid);
    }
}

/// PING auto-reply: a client whose sender works answers every PING that it
/// takes in with a PONG, which stands at the end of its queue for the
/// socket as soon as the PING is taken in, whether or not the application
/// reads the system messages.
pub proof fn law_ping_is_answered(v: ClientView)
    requires
        !v.broken,
    ensures
        receiving(v, OpView::PING).outbound == v.outbound.push(OpView::PONG),
        receiving(v, OpView::PING).outbound.last() == OpView::PONG,
        receiving(v, OpView::PING).events == v.events.push(OpView::PING),
{
}

/// Payload cap: once an INFO has set the limit, every publication and every
/// request whose payload is longer than the limit fails with the limit in
/// its error, and the client is as it was: nothing is queued for the
/// socket. This holds until another INFO sets another limit.
pub proof fn law_payload_cap(
    v: ClientView,
    info: ServerInfoView,
    later: Seq<OpView>,
    cmd: PubCommandView,
    subject: Seq<char>,
    inbox: Seq<char>,
    sid: Seq<char>,
)
    requires
        forall|i: int| 0 <= i < later.len() ==> !(#[trigger] later[i] is INFO),
        cmd.payload.len() > info.max_payload,
    ensures
        ({
            let limited = receiving_all(receiving(v, OpView::INFO(info)), later);
            &&& publishing(limited, cmd) == (
                limited,
                Err::<SendStatus, NatsError>(NatsError::MaxPayloadOverflow(info.max_payload)),
            )
            &&& requesting(limited, subject, cmd.payload, inbox, sid) == (
                limited,
                Err::<SendStatus, NatsError>(NatsError::MaxPayloadOverflow(info.max_payload)),
            )
        }),
{
    lemma_info_stays(receiving(v, OpView::INFO(info)), later);
}

/// The client after it has taken in the messages, one after the other.
pub open spec fn receiving_all(v: ClientView, ops: Seq<OpView>) -> ClientView
    decreases ops.len(),
{
    if ops.len() == 0 {
        v
    } else {
        receiving_all(receiving(v, ops[0]), ops.drop_first())
    }
}

/// What is known of the server changes with an INFO alone.
pub proof fn lemma_info_stays(v: ClientView, ops: Seq<OpView>)
    requires
        forall|i: int| 0 <= i < ops.len() ==> !(#[trigger] ops[i] is INFO),
    ensures
        receiving_all(v, ops).server_info == v.server_info,
    decreases ops.len(),
{
    if ops.len() > 0 {
        assert(!(ops[0] is INFO));
        assert forall|i: int| 0 <= i < ops.drop_first().len() implies !(
        #[trigger] ops.drop_first()[i] is INFO) by {
            assert(!(ops[i + 1] is INFO));
        }
        lemma_info_stays(receiving(v, ops[0]), ops.drop_first());
    }
}

/// Builder for [`NatsClientOptions`]: each setter takes the builder and
/// hands it back with one field set.
#[derive(Debug, Clone)]
pub struct NatsClientOptionsBuilder {
    pub connect_command: Option<ConnectCommand>,
    pub cluster_uri: Option<String>,
}

impl NatsClientOptions {
    /// A builder with no field set.
    pub fn builder() -> (r: NatsClientOptionsBuilder)
        ensures
            r.connect_command is None,
            r.cluster_uri is None,
    {
        NatsClientOptionsBuilder { connect_command: None, cluster_uri: None }
    }
}

impl NatsClientOptionsBuilder {
    /// CONNECT command that will be sent upon calling the `connect()` method
    pub fn connect_command(self, value: ConnectCommand) -> (r: Self)
        ensures
            r.connect_command == Some(value),
            r.cluster_uri == self.cluster_uri,
    {
        NatsClientOptionsBuilder { connect_command: Some(value), ..self }
    }

    /// Cluster URI in the IP:PORT format
    pub fn cluster_uri(self, value: &str) -> (r: Self)
        ensures
            r.cluster_uri matches Some(s) && s@ == value@,
            r.connect_command == self.connect_command,
    {
        NatsClientOptionsBuilder { cluster_uri: Some(value.to_owned()), ..self }
    }

    /// Builds the options: both fields must be set.
    pub fn build(self) -> (r: Result<NatsClientOptions, String>)
        ensures
            match (self.connect_command, self.cluster_uri) {
                (None, _) => r matches Err(m) && m@ == missing_words("connect_command"@),
                (Some(_), None) => r matches Err(m) && m@ == missing_words("cluster_uri"@),
                (Some(c), Some(uri)) => r matches Ok(o) && o.connect_command == c
                    && o.cluster_uri == uri,
            },
    {
        let connect_command = match self.connect_command {
            Some(c) => c,
            None => {
                return Err(missing("connect_command"));
            },
        };
        let cluster_uri = match self.cluster_uri {
            Some(c) => c,
            None => {
                return Err(missing("cluster_uri"));
            },
        };
        Ok(NatsClientOptions { connect_command, cluster_uri })
    }
}

impl Default for NatsClientOptionsBuilder {
    fn default() -> (r: Self)
        ensures
            r.connect_command is None,
            r.cluster_uri is None,
    {
        NatsClientOptions::builder()
    }
}

} // verus!
