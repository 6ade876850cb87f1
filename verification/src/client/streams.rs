//! Laws of the subscription streams: a stream carries the messages of its
//! own subscription and no others, and a budget is kept to the message.

use vstd::prelude::*;
use crate::client::multiplexer::{
    fresh_stream, stream_accept, stream_close, stream_limit, stream_poll, stream_wf,
    DeliveryView, StreamView,
};
use crate::protocol::server::message::MessageView;

verus! {

/// The stream after the messages have arrived for it, one after the other.
pub open spec fn accept_all(st: StreamView, msgs: Seq<MessageView>) -> StreamView
    decreases msgs.len(),
{
    if msgs.len() == 0 {
        st
    } else {
        accept_all(stream_accept(st, msgs[0]), msgs.drop_first())
    }
}

/// What is left of the stream after the consumer has asked `k` times;
/// `None` once the stream is forgotten.
pub open spec fn after_polls(st: StreamView, k: nat) -> Option<StreamView>
    decreases k,
{
    if k == 0 {
        Some(st)
    } else {
        match after_polls(st, (k - 1) as nat) {
            Some(s) => stream_poll(s).0,
            None => None,
        }
    }
}

/// What the consumer is handed when it asks once more after having asked
/// `k` times.
pub open spec fn poll_result(st: StreamView, k: nat) -> DeliveryView {
    match after_polls(st, k) {
        Some(s) => stream_poll(s).1,
        None => DeliveryView::Closed,
    }
}

/// A stream stays well formed: every step of a stream keeps it so, as long
/// as the messages that arrive for it are addressed to its subscription,
/// which is how the multiplexer routes them.
pub proof fn law_streams_stay_well_formed(sid: Seq<char>, st: StreamView, msg: MessageView, max: u32)
    requires
        stream_wf(sid, st),
    ensures
        stream_wf(sid, fresh_stream()),
        msg.sid == sid ==> stream_wf(sid, stream_accept(st, msg)),
        stream_wf(sid, stream_limit(st, max)),
        stream_wf(sid, stream_close(st)),
        stream_poll(st).0 matches Some(next) ==> stream_wf(sid, next),
{
    if msg.sid == sid {
        let next = stream_accept(st, msg);
        assert forall|i: int| 0 <= i < next.pending.len() implies (#[trigger] next.pending[i]).sid
            == sid by {
            if i < st.pending.len() {
                assert(st.pending[i].sid == sid);
            }
        }
    }
    if let Some(next) = stream_poll(st).0 {
        assert forall|i: int| 0 <= i < next.pending.len() implies (#[trigger] next.pending[i]).sid
            == sid by {
            if st.pending.len() > 0 {
                assert(st.pending[i + 1].sid == sid);
            } else {
                assert(st.pending[i].sid == sid);
            }
        }
    }
}

/// Subscription isolation: a message that is addressed to one subscription
/// waits on no other subscription's stream, and is never handed to another
/// subscription's consumer.
pub proof fn law_subscription_isolation(
    sid: Seq<char>,
    st: StreamView,
    msg: MessageView,
    k: int,
)
    requires
        stream_wf(sid, st),
        msg.sid != sid,
    ensures
        0 <= k < st.pending.len() ==> st.pending[k] != msg,
        stream_poll(st).1 != DeliveryView::Message(msg),
{
    if 0 <= k < st.pending.len() {
        assert(st.pending[k].sid == sid);
    }
    if st.pending.len() > 0 {
        assert(st.pending[0].sid == sid);
    }
}

/// A closed stream passes every message over.
pub proof fn lemma_closed_accepts_nothing(st: StreamView, msgs: Seq<MessageView>)
    requires
        !st.open,
    ensures
        accept_all(st, msgs) == st,
    decreases msgs.len(),
{
    if msgs.len() > 0 {
        lemma_closed_accepts_nothing(st, msgs.drop_first());
    }
}

/// An open stream with a budget takes messages until the budget is used
/// up, and the message that uses it up closes the stream.
pub proof fn lemma_budget(st: StreamView, max: u32, msgs: Seq<MessageView>)
    requires
        st.open,
        st.max_count == Some(max),
        st.count < max,
    ensures
        msgs.len() < max - st.count ==> accept_all(st, msgs) == (StreamView {
            pending: st.pending + msgs,
            count: (st.count + msgs.len()) as u32,
            ..st
        }),
        msgs.len() >= max - st.count ==> accept_all(st, msgs) == (StreamView {
            pending: st.pending + msgs.take(max - st.count),
            open: false,
            count: max,
            cap: Some(max),
            ..st
        }),
    decreases msgs.len(),
{
    if msgs.len() == 0 {
        assert(st.pending + msgs =~= st.pending);
    } else {
        let next = stream_accept(st, msgs[0]);
        let rest = msgs.drop_first();
        if st.count + 1 >= max {
            lemma_closed_accepts_nothing(next, rest);
            assert(msgs.take(1) =~= seq![msgs[0]]);
            assert(st.pending + msgs.take(1) =~= st.pending.push(msgs[0]));
        } else {
            lemma_budget(next, max, rest);
            if msgs.len() < max - st.count {
                assert(next.pending + rest =~= st.pending + msgs);
            } else {
                assert(next.pending + rest.take(max - next.count) =~= st.pending + msgs.take(
                    max - st.count,
                )) by {
                    assert(rest.take(max - next.count) =~= msgs.take(max - st.count).drop_first());
                }
            }
        }
    }
}

/// The consumer is handed what waits on the stream, oldest first.
pub proof fn lemma_polls(st: StreamView, k: nat)
    requires
        k <= st.pending.len(),
    ensures
        after_polls(st, k) == Some(StreamView { pending: st.pending.skip(k as int), ..st }),
        k < st.pending.len() ==> poll_result(st, k) == DeliveryView::Message(
            st.pending[k as int],
        ),
    decreases k,
{
    if k == 0 {
        assert(st.pending.skip(0) =~= st.pending);
    } else {
        lemma_polls(st, (k - 1) as nat);
        let before = StreamView { pending: st.pending.skip(k - 1), ..st };
        assert(before.pending.drop_first() =~= st.pending.skip(k as int));
    }
}

/// Cap enforcement: when a budget of `n` messages is set on a fresh
/// subscription and `n` messages or more arrive for it, its consumer is
/// handed the first `n` of them, in order, then the word that the budget is
/// used up, and after that the stream is over. A budget of none closes the
/// stream at once.
pub proof fn law_cap_enforcement(n: u32, msgs: Seq<MessageView>, k: nat)
    requires
        msgs.len() >= n,
    ensures
        k < n ==> poll_result(
            accept_all(stream_limit(fresh_stream(), n), msgs),
            k,
        ) == DeliveryView::Message(msgs[k as int]),
        poll_result(accept_all(stream_limit(fresh_stream(), n), msgs), n as nat)
            == DeliveryView::CapReached(n),
        k > n ==> poll_result(accept_all(stream_limit(fresh_stream(), n), msgs), k)
            == DeliveryView::Closed,
{
    let limited = stream_limit(fresh_stream(), n);
    let full = accept_all(limited, msgs);
    if n == 0 {
        lemma_closed_accepts_nothing(limited, msgs);
    } else {
        lemma_budget(limited, n, msgs);
        assert(Seq::<MessageView>::empty() + msgs.take(n as int) =~= msgs.take(n as int));
    }
    assert(full.pending =~= msgs.take(n as int));
    assert(!full.open && full.cap == Some(n));
    lemma_polls(full, n as nat);
    if k < n {
        lemma_polls(full, k);
    }
    if k > n {
        lemma_forgotten(full, n as nat, k);
    }
}

/// Once the stream is forgotten, every further question is answered with
/// `Closed`.
pub proof fn lemma_forgotten(st: StreamView, at: nat, k: nat)
    requires
        after_polls(st, at) matches Some(s) && stream_poll(s).0 is None,
        k > at,
    ensures
        after_polls(st, k) is None,
        poll_result(st, k) == DeliveryView::Closed,
    decreases k,
{
    if k > at + 1 {
        lemma_forgotten(st, at, (k - 1) as nat);
    }
}

/// A budget is an upper bound whatever comes: however many messages arrive
/// for a subscription with a budget of `n`, never more than `n` of them
/// wait on its stream.
pub proof fn law_budget_is_kept(n: u32, msgs: Seq<MessageView>)
    ensures
        accept_all(stream_limit(fresh_stream(), n), msgs).pending.len() <= n,
        accept_all(stream_limit(fresh_stream(), n), msgs).pending.len() <= msgs.len(),
{
    let limited = stream_limit(fresh_stream(), n);
    if n == 0 {
        lemma_closed_accepts_nothing(limited, msgs);
    } else {
        lemma_budget(limited, n, msgs);
    }
}

} // verus!
