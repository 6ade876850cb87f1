//! The subscription multiplexer: it keeps one stream for each subscription
//! ID, puts every delivered message on the stream of its subscription,
//! counts the messages of a subscription that has a budget, and closes the
//! stream when the budget is used up. Everything that is no delivered
//! message goes to the system channel.

use vstd::prelude::*;
use crate::error::NatsError;
use crate::protocol::op::{Op, OpView};
use crate::protocol::server::message::{Message, MessageView};
use crate::text::text_eq;

verus! {

/// The state that the multiplexer keeps for one subscription: the messages
/// that wait for the consumer, and the budget.
#[derive(Debug)]
pub struct SubscriptionSink {
    sid: String,
    pending: Vec<Message>,
    open: bool,
    max_count: Option<u32>,
    count: u32,
    cap: Option<u32>,
}

/// The stream of one subscription as plain values.
pub struct StreamView {
    /// The messages that wait for the consumer, oldest first
    pub pending: Seq<MessageView>,
    /// Whether messages are still accepted
    pub open: bool,
    /// The budget, once one was set
    pub max_count: Option<u32>,
    /// The messages counted against the budget
    pub count: u32,
    /// The budget that closed the stream, if one did
    pub cap: Option<u32>,
}

/// What the consumer of a subscription gets when it asks for the next item.
#[derive(Debug)]
pub enum Delivery {
    /// The next message
    Message(Message),
    /// Nothing waits; ask again later
    NotReady,
    /// The subscription has used up its budget, which is given; the stream
    /// is over
    CapReached(u32),
    /// The stream is over, or there is no such subscription
    Closed,
}

impl Delivery {
    /// The error in which a stream ends, if this item ends it with one:
    /// a used up budget is an error to the consumer, every other item is
    /// none.
    pub fn cap_error(&self) -> (r: Option<NatsError>)
        ensures
            r == match *self {
                Delivery::CapReached(max) => Some(NatsError::SubscriptionReachedMaxMsgs(max)),
                _ => None,
            },
    {
        match self {
            Delivery::CapReached(max) => Some(NatsError::SubscriptionReachedMaxMsgs(*max)),
            _ => None,
        }
    }
}

/// A `Delivery` as plain values.
pub enum DeliveryView {
    Message(MessageView),
    NotReady,
    CapReached(u32),
    Closed,
}

impl View for Delivery {
    type V = DeliveryView;

    open spec fn view(&self) -> DeliveryView {
        match *self {
            Delivery::Message(m) => DeliveryView::Message(m@),
            Delivery::NotReady => DeliveryView::NotReady,
            Delivery::CapReached(n) => DeliveryView::CapReached(n),
            Delivery::Closed => DeliveryView::Closed,
        }
    }
}

/// The delivered messages of a list as plain values.
pub open spec fn message_views(msgs: Seq<Message>) -> Seq<MessageView> {
    Seq::new(msgs.len(), |i: int| msgs[i]@)
}

/// The protocol messages of a list as plain values.
pub open spec fn op_views(ops: Seq<Op>) -> Seq<OpView> {
    Seq::new(ops.len(), |i: int| ops[i]@)
}

/// The stream of a subscription that was just made.
pub open spec fn fresh_stream() -> StreamView {
    StreamView { pending: Seq::empty(), open: true, max_count: None, count: 0, cap: None }
}

/// A message arrives for the stream. A closed stream passes it over. An
/// open one takes it; where a budget is set the message is counted, and the
/// message that uses the budget up closes the stream.
pub open spec fn stream_accept(st: StreamView, msg: MessageView) -> StreamView {
    if !st.open {
        st
    } else {
        match st.max_count {
            None => StreamView { pending: st.pending.push(msg), ..st },
            Some(max) => if st.count + 1 >= max {
                StreamView {
                    pending: st.pending.push(msg),
                    open: false,
                    count: (st.count + 1) as u32,
                    cap: Some(max),
                    ..st
                }
            } else {
                StreamView { pending: st.pending.push(msg), count: (st.count + 1) as u32, ..st }
            },
        }
    }
}

/// A budget is set on the stream. A budget that the count has reached
/// already closes the stream at once.
pub open spec fn stream_limit(st: StreamView, max: u32) -> StreamView {
    if !st.open {
        st
    } else if st.count >= max {
        StreamView { open: false, max_count: Some(max), cap: Some(max), ..st }
    } else {
        StreamView { max_count: Some(max), ..st }
    }
}

/// The stream is closed: no further message is accepted.
pub open spec fn stream_close(st: StreamView) -> StreamView {
    StreamView { open: false, ..st }
}

/// What the consumer gets next, and what is left of the stream: `None` when
/// the stream is over and forgotten.
pub open spec fn stream_poll(st: StreamView) -> (Option<StreamView>, DeliveryView) {
    if st.pending.len() > 0 {
        (
            Some(StreamView { pending: st.pending.drop_first(), ..st }),
            DeliveryView::Message(st.pending[0]),
        )
    } else if st.open {
        (Some(st), DeliveryView::NotReady)
    } else {
        match st.cap {
            Some(max) => (None, DeliveryView::CapReached(max)),
            None => (None, DeliveryView::Closed),
        }
    }
}

/// What holds of every stream that the multiplexer keeps: while a budget is
/// set and the stream is open, the count is below the budget; and every
/// message that waits on it is addressed to its subscription.
pub open spec fn stream_wf(sid: Seq<char>, st: StreamView) -> bool {
    &&& st.open ==> st.cap is None
    &&& st.open ==> match st.max_count {
        Some(max) => st.count < max,
        None => true,
    }
    &&& forall|i: int| 0 <= i < st.pending.len() ==> (#[trigger] st.pending[i]).sid == sid
}

impl View for SubscriptionSink {
    type V = StreamView;

    closed spec fn view(&self) -> StreamView {
        StreamView {
            pending: message_views(self.pending@),
            open: self.open,
            max_count: self.max_count,
            count: self.count,
            cap: self.cap,
        }
    }
}

/// Internal multiplexer for incoming streams and subscriptions
#[derive(Debug)]
pub struct NatsClientMultiplexer {
    subs: Vec<SubscriptionSink>,
    system: Vec<Op>,
}

impl NatsClientMultiplexer {
    /// Whether some stream is kept under the ID.
    pub closed spec fn has(&self, sid: Seq<char>) -> bool {
        exists|i: int| 0 <= i < self.subs@.len() && (#[trigger] self.subs@[i]).sid@ == sid
    }

    spec fn index_of(&self, sid: Seq<char>) -> int {
        choose|i: int| 0 <= i < self.subs@.len() && (#[trigger] self.subs@[i]).sid@ == sid
    }

    /// The stream that is kept under the ID, if there is one.
    pub closed spec fn stream(&self, sid: Seq<char>) -> Option<StreamView> {
        if self.has(sid) {
            Some(self.subs@[self.index_of(sid)]@)
        } else {
            None
        }
    }

    /// What waits on the system channel, oldest first.
    pub closed spec fn system(&self) -> Seq<OpView> {
        op_views(self.system@)
    }

    /// The invariant of the table: no ID is there twice, and every stream
    /// is well formed.
    pub closed spec fn wf(&self) -> bool {
        &&& forall|i: int, j: int|
            0 <= i < j < self.subs@.len() ==> (#[trigger] self.subs@[i]).sid@ != (
            #[trigger] self.subs@[j]).sid@
        &&& forall|i: int|
            0 <= i < self.subs@.len() ==> stream_wf(
                (#[trigger] self.subs@[i]).sid@,
                self.subs@[i]@,
            )
    }

    /// Every stream that is kept is well formed.
    pub proof fn lemma_streams_wf(&self, sid: Seq<char>)
        requires
            self.wf(),
        ensures
            self.stream(sid) matches Some(st) ==> stream_wf(sid, st),
    {
        if self.has(sid) {
            let i = self.index_of(sid);
            assert(self.subs@[i].sid@ == sid);
        }
    }

    proof fn lemma_at(&self, i: int)
        requires
            self.wf(),
            0 <= i < self.subs@.len(),
        ensures
            self.has(self.subs@[i].sid@),
            self.index_of(self.subs@[i].sid@) == i,
            self.stream(self.subs@[i].sid@) == Some(self.subs@[i]@),
    {
        let sid = self.subs@[i].sid@;
        let j = self.index_of(sid);
        assert(self.subs@[j].sid@ == sid);
        if j < i {
            assert(self.subs@[j].sid@ != self.subs@[i].sid@);
        }
        if i < j {
            assert(self.subs@[i].sid@ != self.subs@[j].sid@);
        }
    }

    /// An entry that changes in place, under its ID, leaves every other
    /// stream as it was.
    proof fn lemma_update(&self, before: &Self, i: int)
        requires
            before.wf(),
            0 <= i < before.subs@.len(),
            self.subs@.len() == before.subs@.len(),
            forall|j: int|
                0 <= j < before.subs@.len() ==> (#[trigger] self.subs@[j]).sid@
                    == before.subs@[j].sid@,
            forall|j: int|
                0 <= j < before.subs@.len() && j != i ==> (#[trigger] self.subs@[j])@
                    == before.subs@[j]@,
            stream_wf(self.subs@[i].sid@, self.subs@[i]@),
        ensures
            self.wf(),
            self.stream(before.subs@[i].sid@) == Some(self.subs@[i]@),
            forall|other: Seq<char>|
                other != before.subs@[i].sid@ ==> self.stream(other) == before.stream(other),
    {
        assert forall|a: int, b: int| 0 <= a < b < self.subs@.len() implies (
        #[trigger] self.subs@[a]).sid@ != (#[trigger] self.subs@[b]).sid@ by {
            assert(before.subs@[a].sid@ != before.subs@[b].sid@);
        }
        assert forall|j: int| 0 <= j < self.subs@.len() implies stream_wf(
            (#[trigger] self.subs@[j]).sid@,
            self.subs@[j]@,
        ) by {
            if j != i {
                assert(stream_wf(before.subs@[j].sid@, before.subs@[j]@));
            }
        }
        self.lemma_at(i);
        assert forall|other: Seq<char>| other != before.subs@[i].sid@ implies self.stream(other)
            == before.stream(other) by {
            if before.has(other) {
                let j = before.index_of(other);
                assert(before.subs@[j].sid@ == other);
                before.lemma_at(j);
                assert(self.subs@[j].sid@ == other);
                self.lemma_at(j);
            } else if self.has(other) {
                let j = self.index_of(other);
                assert(self.subs@[j].sid@ == other);
                assert(before.subs@[j].sid@ == other);
            }
        }
    }

    /// An entry that leaves takes its stream with it and leaves every other
    /// stream as it was.
    proof fn lemma_removed(&self, before: &Self, i: int)
        requires
            before.wf(),
            0 <= i < before.subs@.len(),
            self.subs@ == before.subs@.remove(i),
        ensures
            self.wf(),
            self.stream(before.subs@[i].sid@) is None,
            forall|other: Seq<char>|
                other != before.subs@[i].sid@ ==> self.stream(other) == before.stream(other),
    {
        let sid = before.subs@[i].sid@;
        let shift = |j: int|
            if j < i {
                j
            } else {
                j + 1
            };
        assert forall|j: int| 0 <= j < self.subs@.len() implies #[trigger] self.subs@[j]
            == before.subs@[shift(j)] by {}
        assert forall|a: int, b: int| 0 <= a < b < self.subs@.len() implies (
        #[trigger] self.subs@[a]).sid@ != (#[trigger] self.subs@[b]).sid@ by {
            assert(self.subs@[a] == before.subs@[shift(a)]);
            assert(self.subs@[b] == before.subs@[shift(b)]);
            assert(before.subs@[shift(a)].sid@ != before.subs@[shift(b)].sid@);
        }
        assert forall|j: int| 0 <= j < self.subs@.len() implies stream_wf(
            (#[trigger] self.subs@[j]).sid@,
            self.subs@[j]@,
        ) by {
            assert(self.subs@[j] == before.subs@[shift(j)]);
            assert(stream_wf(before.subs@[shift(j)].sid@, before.subs@[shift(j)]@));
        }
        if self.has(sid) {
            let j = self.index_of(sid);
            assert(self.subs@[j] == before.subs@[shift(j)]);
            before.lemma_at(shift(j));
            before.lemma_at(i);
        }
        assert forall|other: Seq<char>| other != sid implies self.stream(other) == before.stream(
            other,
        ) by {
            if before.has(other) {
                let j = before.index_of(other);
                assert(before.subs@[j].sid@ == other);
                before.lemma_at(j);
                let k = if j < i {
                    j
                } else {
                    j - 1
                };
                assert(self.subs@[k] == before.subs@[shift(k)]);
                self.lemma_at(k);
            } else if self.has(other) {
                let j = self.index_of(other);
                assert(self.subs@[j] == before.subs@[shift(j)]);
                assert(before.subs@[shift(j)].sid@ == other);
            }
        }
    }

    /// An entry that joins under an ID that was not there brings its stream
    /// and leaves every other stream as it was.
    proof fn lemma_added(&self, before: &Self)
        requires
            before.wf(),
            self.subs@.len() == before.subs@.len() + 1,
            self.subs@.drop_last() == before.subs@,
            !before.has(self.subs@.last().sid@),
            stream_wf(self.subs@.last().sid@, self.subs@.last()@),
        ensures
            self.wf(),
            self.stream(self.subs@.last().sid@) == Some(self.subs@.last()@),
            forall|other: Seq<char>|
                other != self.subs@.last().sid@ ==> self.stream(other) == before.stream(other),
    {
        let n = before.subs@.len() as int;
        let sid = self.subs@.last().sid@;
        assert forall|j: int| 0 <= j < n implies #[trigger] self.subs@[j] == before.subs@[j] by {
            assert(self.subs@.drop_last()[j] == self.subs@[j]);
        }
        assert forall|a: int, b: int| 0 <= a < b < self.subs@.len() implies (
        #[trigger] self.subs@[a]).sid@ != (#[trigger] self.subs@[b]).sid@ by {
            assert(self.subs@[a] == before.subs@[a]);
            if b < n {
                assert(self.subs@[b] == before.subs@[b]);
                assert(before.subs@[a].sid@ != before.subs@[b].sid@);
            } else {
                assert(before.subs@[a].sid@ != sid);
            }
        }
        assert forall|j: int| 0 <= j < self.subs@.len() implies stream_wf(
            (#[trigger] self.subs@[j]).sid@,
            self.subs@[j]@,
        ) by {
            if j < n {
                assert(self.subs@[j] == before.subs@[j]);
                assert(stream_wf(before.subs@[j].sid@, before.subs@[j]@));
            }
        }
        self.lemma_at(n);
        assert forall|other: Seq<char>| other != sid implies self.stream(other) == before.stream(
            other,
        ) by {
            if before.has(other) {
                let j = before.index_of(other);
                assert(before.subs@[j].sid@ == other);
                before.lemma_at(j);
                assert(self.subs@[j] == before.subs@[j]);
                self.lemma_at(j);
            } else if self.has(other) {
                let j = self.index_of(other);
                assert(self.subs@[j].sid@ == other);
                assert(self.subs@[j] == before.subs@[j]);
            }
        }
    }

    /// A multiplexer without subscriptions, with an empty system channel.
    pub fn new() -> (r: Self)
        ensures
            r.wf(),
            forall|sid: Seq<char>| r.stream(sid) is None,
            r.system() == Seq::<OpView>::empty(),
    {
        let r = NatsClientMultiplexer { subs: Vec::new(), system: Vec::new() };
        assert(r.system() =~= Seq::<OpView>::empty());
        r
    }

    /// Where the entry of the ID stands.
    fn position(&self, sid: &str) -> (r: Option<usize>)
        requires
            self.wf(),
        ensures
            match r {
                Some(i) => i < self.subs@.len() && self.subs@[i as int].sid@ == sid@ && self.stream(
                    sid@,
                ) == Some(self.subs@[i as int]@),
                None => !self.has(sid@) && self.stream(sid@) is None,
            },
    {
        let mut i: usize = 0;
        while i < self.subs.len()
            invariant
                i <= self.subs@.len(),
                self.wf(),
                forall|j: int| 0 <= j < i ==> (#[trigger] self.subs@[j]).sid@ != sid@,
            decreases self.subs@.len() - i,
        {
            if text_eq(self.subs[i].sid.as_str(), sid) {
                proof {
                    self.lemma_at(i as int);
                }
                return Some(i);
            }
            i += 1;
        }
        None
    }

    /// Starts the stream of a subscription. A stream that was kept under
    /// the same ID is given up for the new one.
    pub fn for_sid(&mut self, sid: String)
        requires
            old(self).wf(),
        ensures
            final(self).wf(),
            final(self).stream(sid@) == Some(fresh_stream()),
            forall|other: Seq<char>|
                other != sid@ ==> final(self).stream(other) == old(self).stream(other),
            final(self).system() == old(self).system(),
    {
        match self.position(sid.as_str()) {
            Some(i) => {
                let ghost before = *self;
                self.subs.remove(i);
                proof {
                    self.lemma_removed(&before, i as int);
                }
            },
            None => {},
        }
        let ghost mid = *self;
        let sink = SubscriptionSink {
            sid,
            pending: Vec::new(),
            open: true,
            max_count: None,
            count: 0,
            cap: None,
        };
        assert(sink@ =~= fresh_stream()) by {
            assert(sink@.pending =~= Seq::<MessageView>::empty());
        }
        self.subs.push(sink);
        proof {
            assert(self.subs@.drop_last() =~= mid.subs@);
            self.lemma_added(&mid);
        }
    }

    /// Closes the stream of a subscription: no further message is put on
    /// it. What waits on it stays for the consumer.
    pub fn remove_sid(&mut self, sid: &str)
        requires
            old(self).wf(),
        ensures
            final(self).wf(),
            final(self).stream(sid@) == match old(self).stream(sid@) {
                Some(st) => Some(stream_close(st)),
                None => None,
            },
            forall|other: Seq<char>|
                other != sid@ ==> final(self).stream(other) == old(self).stream(other),
            final(self).system() == old(self).system(),
    {
        match self.position(sid) {
            Some(i) => {
                let ghost before = *self;
                let mut sink = self.subs.remove(i);
                sink.open = false;
                self.subs.insert(i, sink);
                proof {
                    assert(stream_wf(before.subs@[i as int].sid@, before.subs@[i as int]@));
                    self.lemma_update(&before, i as int);
                }
            },
            None => {},
        }
    }

    /// Forgets the stream of a subscription, with everything that waits on
    /// it.
    pub fn forget(&mut self, sid: &str)
        requires
            old(self).wf(),
        ensures
            final(self).wf(),
            final(self).stream(sid@) is None,
            forall|other: Seq<char>|
                other != sid@ ==> final(self).stream(other) == old(self).stream(other),
            final(self).system() == old(self).system(),
    {
        match self.position(sid) {
            Some(i) => {
                let ghost before = *self;
                self.subs.remove(i);
                proof {
                    self.lemma_removed(&before, i as int);
                }
            },
            None => {},
        }
    }

    /// Sets the budget of a subscription and tells whether the stream is
    /// open behind that. A budget that the count has reached already closes
    /// the stream at once; an unknown or closed subscription is left alone.
    pub fn limit(&mut self, sid: &str, max: u32) -> (r: bool)
        requires
            old(self).wf(),
        ensures
            final(self).wf(),
            final(self).stream(sid@) == match old(self).stream(sid@) {
                Some(st) => Some(stream_limit(st, max)),
                None => None,
            },
            forall|other: Seq<char>|
                other != sid@ ==> final(self).stream(other) == old(self).stream(other),
            final(self).system() == old(self).system(),
            r == (final(self).stream(sid@) matches Some(st) && st.open),
    {
        match self.position(sid) {
            Some(i) => {
                let ghost before = *self;
                let mut sink = self.subs.remove(i);
                if sink.open {
                    sink.max_count = Some(max);
                    if sink.count >= max {
                        sink.open = false;
                        sink.cap = Some(max);
                    }
                }
                let open = sink.open;
                self.subs.insert(i, sink);
                proof {
                    assert(stream_wf(before.subs@[i as int].sid@, before.subs@[i as int]@));
                    self.lemma_update(&before, i as int);
                }
                open
            },
            None => false,
        }
    }

    /// Takes one message of the connection in. A delivered message goes to
    /// the stream of its subscription, or nowhere if no stream is kept under
    /// its ID. Everything else goes to the system channel.
    pub fn route(&mut self, op: Op)
        requires
            old(self).wf(),
        ensures
            final(self).wf(),
            match op@ {
                OpView::MSG(msg) => {
                    &&& final(self).system() == old(self).system()
                    &&& final(self).stream(msg.sid) == match old(self).stream(msg.sid) {
                        Some(st) => Some(stream_accept(st, msg)),
                        None => None,
                    }
                    &&& forall|other: Seq<char>|
                        other != msg.sid ==> final(self).stream(other) == old(self).stream(other)
                },
                other_op => {
                    &&& final(self).system() == old(self).system().push(other_op)
                    &&& forall|sid: Seq<char>| final(self).stream(sid) == old(self).stream(sid)
                },
            },
    {
        match op {
            Op::MSG(msg) => {
                match self.position(msg.sid.as_str()) {
                    Some(i) => {
                        let ghost before = *self;
                        let mut sink = self.subs.remove(i);
                        let ghost st = sink@;
                        assert(stream_wf(sink.sid@, st));
                        if sink.open {
                            let ghost waiting = sink.pending@;
                            sink.pending.push(msg);
                            assert(message_views(sink.pending@) =~= message_views(waiting).push(
                                msg@,
                            ));
                            match sink.max_count {
                                Some(max) => {
                                    sink.count = sink.count + 1;
                                    if sink.count >= max {
                                        sink.open = false;
                                        sink.cap = Some(max);
                                    }
                                },
                                None => {},
                            }
                        }
                        assert(sink@ == stream_accept(st, msg@));
                        self.subs.insert(i, sink);
                        proof {
                            self.lemma_update(&before, i as int);
                        }
                    },
                    None => {},
                }
            },
            other => {
                let ghost waiting = self.system@;
                self.system.push(other);
                assert(op_views(self.system@) =~= op_views(waiting).push(other@));
                assert(forall|sid: Seq<char>| self.stream(sid) == old(self).stream(sid));
            },
        }
    }

    /// Hands the consumer of a subscription its next item. A stream that is
    /// over is forgotten once the consumer has been told so.
    pub fn next_for(&mut self, sid: &str) -> (r: Delivery)
        requires
            old(self).wf(),
        ensures
            final(self).wf(),
            match old(self).stream(sid@) {
                Some(st) => final(self).stream(sid@) == stream_poll(st).0 && r@ == stream_poll(
                    st,
                ).1,
                None => final(self).stream(sid@) is None && r@ == DeliveryView::Closed,
            },
            forall|other: Seq<char>|
                other != sid@ ==> final(self).stream(other) == old(self).stream(other),
            final(self).system() == old(self).system(),
    {
        match self.position(sid) {
            Some(i) => {
                let ghost before = *self;
                let mut sink = self.subs.remove(i);
                let ghost st = sink@;
                assert(stream_wf(sink.sid@, st));
                if sink.pending.len() > 0 {
                    let ghost waiting = sink.pending@;
                    let msg = sink.pending.remove(0);
                    assert(message_views(sink.pending@) =~= message_views(waiting).drop_first());
                    assert(msg@ == message_views(waiting)[0]);
                    assert(stream_wf(sink.sid@, sink@)) by {
                        assert forall|k: int| 0 <= k < sink@.pending.len() implies (
                        #[trigger] sink@.pending[k]).sid == sink.sid@ by {
                            assert(sink@.pending[k] == st.pending[k + 1]);
                        }
                    }
                    self.subs.insert(i, sink);
                    proof {
                        self.lemma_update(&before, i as int);
                    }
                    Delivery::Message(msg)
                } else if sink.open {
                    self.subs.insert(i, sink);
                    proof {
                        self.lemma_update(&before, i as int);
                    }
                    Delivery::NotReady
                } else {
                    proof {
                        self.lemma_removed(&before, i as int);
                    }
                    match sink.cap {
                        Some(max) => Delivery::CapReached(max),
                        None => Delivery::Closed,
                    }
                }
            },
            None => Delivery::Closed,
        }
    }

    /// Takes the oldest message off the system channel.
    pub fn next_system(&mut self) -> (r: Option<Op>)
        requires
            old(self).wf(),
        ensures
            final(self).wf(),
            forall|sid: Seq<char>| final(self).stream(sid) == old(self).stream(sid),
            match r {
                Some(op) => old(self).system().len() > 0 && op@ == old(self).system()[0]
                    && final(self).system() == old(self).system().drop_first(),
                None => old(self).system().len() == 0 && final(self).system() == old(self).system(),
            },
    {
        if self.system.len() == 0 {
            return None;
        }
        let ghost waiting = self.system@;
        let op = self.system.remove(0);
        assert(op_views(self.system@) =~= op_views(waiting).drop_first());
        assert(forall|sid: Seq<char>| self.stream(sid) == old(self).stream(sid));
        Some(op)
    }
}

} // verus!
