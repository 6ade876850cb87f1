//! The sender: the one queue through which every outgoing message goes to
//! the socket, first in, first out.

use vstd::prelude::*;
use crate::client::ack_trigger::AckTrigger;
use crate::client::multiplexer::op_views;
use crate::error::NatsError;
use crate::protocol::op::{Op, OpView};

verus! {

/// What a caller of `send` has to wait for.
#[derive(Debug, Clone, Copy, PartialEq, Eq, Structural)]
pub enum SendStatus {
    /// The message is in the queue, and that is all there is to wait for
    Queued,
    /// The message is in the queue, and the send is complete once the
    /// server has acknowledged
    AwaitingAck,
}

/// Keep-alive for the sink, also takes care of handling verbose signaling
#[derive(Debug)]
pub struct NatsClientSender {
    queue: Vec<Op>,
    verbose: bool,
    trigger: AckTrigger,
    broken: bool,
}

impl NatsClientSender {
    /// The messages that wait for the socket, oldest first.
    pub closed spec fn queue(&self) -> Seq<OpView> {
        op_views(self.queue@)
    }

    /// Whether every send waits for the server's acknowledgement.
    pub closed spec fn verbose(&self) -> bool {
        self.verbose
    }

    /// Whether the server has acknowledged since the last send.
    pub closed spec fn acknowledged(&self) -> bool {
        self.trigger.up()
    }

    /// Whether the queue has lost the writer that drains it.
    pub closed spec fn broken(&self) -> bool {
        self.broken
    }

    /// A sender with an empty queue, not verbose.
    pub fn new(trigger: AckTrigger) -> (r: Self)
        ensures
            r.queue() == Seq::<OpView>::empty(),
            !r.verbose(),
            !r.broken(),
            r.acknowledged() == trigger.up(),
    {
        let r = NatsClientSender { queue: Vec::new(), verbose: false, trigger, broken: false };
        assert(r.queue() =~= Seq::<OpView>::empty());
        r
    }

    /// Turns the wait for acknowledgements on or off.
    pub fn set_verbose(&mut self, verbose: bool)
        ensures
            final(self).verbose() == verbose,
            final(self).queue() == old(self).queue(),
            final(self).acknowledged() == old(self).acknowledged(),
            final(self).broken() == old(self).broken(),
    {
        self.verbose = verbose;
    }

    /// Whether the queue has lost the writer that drains it.
    pub fn is_broken(&self) -> (r: bool)
        ensures
            r == self.broken(),
    {
        self.broken
    }

    /// Sends an OP to the server: puts it at the end of the queue. In
    /// verbose mode the acknowledgement flag is taken down, and the send
    /// is complete only when the flag is up again. A broken sender takes
    /// nothing.
    pub fn send(&mut self, op: Op) -> (r: Result<SendStatus, NatsError>)
        ensures
            final(self).verbose() == old(self).verbose(),
            final(self).broken() == old(self).broken(),
            old(self).broken() ==> r == Err::<SendStatus, NatsError>(NatsError::InnerBrokenChain)
                && final(self).queue() == old(self).queue()
                && final(self).acknowledged() == old(self).acknowledged(),
            !old(self).broken() ==> final(self).queue() == old(self).queue().push(op@),
            !old(self).broken() && old(self).verbose() ==> r == Ok::<SendStatus, NatsError>(
                SendStatus::AwaitingAck,
            ) && !final(self).acknowledged(),
            !old(self).broken() && !old(self).verbose() ==> r == Ok::<SendStatus, NatsError>(
                SendStatus::Queued,
            ) && final(self).acknowledged() == old(self).acknowledged(),
    {
        if self.broken {
            return Err(NatsError::InnerBrokenChain);
        }
        let ghost waiting = self.queue@;
        self.queue.push(op);
        assert(op_views(self.queue@) =~= op_views(waiting).push(op@));
        if self.verbose {
            self.trigger.fire();
            Ok(SendStatus::AwaitingAck)
        } else {
            Ok(SendStatus::Queued)
        }
    }

    /// Takes in an acknowledgement of the server.
    pub fn acknowledge(&mut self)
        ensures
            final(self).acknowledged(),
            final(self).queue() == old(self).queue(),
            final(self).verbose() == old(self).verbose(),
            final(self).broken() == old(self).broken(),
    {
        self.trigger.pull_up();
    }

    /// Whether a send that waits for an acknowledgement is complete.
    pub fn is_acknowledged(&self) -> (r: bool)
        ensures
            r == self.acknowledged(),
    {
        self.trigger.poll()
    }

    /// Takes the oldest message off the queue, for the socket.
    pub fn next_outbound(&mut self) -> (r: Option<Op>)
        ensures
            final(self).verbose() == old(self).verbose(),
            final(self).broken() == old(self).broken(),
            final(self).acknowledged() == old(self).acknowledged(),
            match r {
                Some(op) => old(self).queue().len() > 0 && op@ == old(self).queue()[0]
                    && final(self).queue() == old(self).queue().drop_first(),
                None => old(self).queue().len() == 0 && final(self).queue() == old(self).queue(),
            },
    {
        if self.queue.len() == 0 {
            return None;
        }
        let ghost waiting = self.queue@;
        let op = self.queue.remove(0);
        assert(op_views(self.queue@) =~= op_views(waiting).drop_first());
        Some(op)
    }

    /// Marks the sender broken: the writer that drains the queue is gone, and
    /// every later send fails.
    pub fn close(&mut self)
        ensures
            final(self).broken(),
            final(self).queue() == old(self).queue(),
            final(self).verbose() == old(self).verbose(),
            final(self).acknowledged() == old(self).acknowledged(),
    {
        self.broken = true;
    }
}

} // verus!
