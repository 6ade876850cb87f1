//! The phases of a connection, and what each attempt to read or write is to
//! do in each of them.

use vstd::prelude::*;
use crate::error::NatsError;
use crate::net::Transport;

verus! {

/// State of the raw connection
#[derive(Debug, Clone, Copy, PartialEq, Eq, Structural)]
pub enum NatsConnectionState {
    /// Reads and writes go to the socket
    Connected,
    /// A new socket is being made; reads and writes wait
    Reconnecting,
    /// The socket failed and no new one is being made yet; reads and writes
    /// wait
    Disconnected,
}

/// What an attempt to read or write comes to.
#[derive(Debug, Clone, PartialEq)]
pub enum Attempt<T> {
    /// The socket answered with a value
    Ready(T),
    /// Not now; the caller is to try again later
    NotReady,
    /// The server is lost. For the caller this is as `NotReady`; and one
    /// reconnection is to be started
    Reconnect,
    /// The socket failed in a way that no new socket will mend
    Failed(NatsError),
}

/// Represents a connection to a NATS server
#[derive(Debug)]
pub struct NatsConnection {
    /// How the server is reached
    transport: Transport,
    /// Current state of the connection
    state: NatsConnectionState,
}

/// What a reconnection needs to know.
#[derive(Debug, Clone, PartialEq)]
pub struct ReconnectPlan {
    /// How the server is to be reached again
    pub transport: Transport,
}

impl NatsConnection {
    /// The phase that the connection is in.
    pub closed spec fn state(&self) -> NatsConnectionState {
        self.state
    }

    /// How the server is reached.
    pub closed spec fn transport(&self) -> Transport {
        self.transport
    }

    /// A connection whose socket has just been made.
    pub fn new(transport: Transport) -> (r: Self)
        ensures
            r.state() == NatsConnectionState::Connected,
            r.transport() == transport,
    {
        NatsConnection { transport, state: NatsConnectionState::Connected }
    }

    /// The phase that the connection is in.
    pub fn current_state(&self) -> (r: NatsConnectionState)
        ensures
            r == self.state(),
    {
        self.state
    }

    /// indicates if the connection is made over TLS
    pub fn is_tls(&self) -> (r: bool)
        ensures
            r == (self.transport() is Tls),
    {
        match &self.transport {
            Transport::Tls { .. } => true,
            Transport::Tcp => false,
        }
    }

    /// Whether an attempt to read or write may touch the socket now: only
    /// while the connection is connected, and only if the caller has the
    /// socket to itself.
    pub fn may_poll(&self, socket_free: bool) -> (r: bool)
        ensures
            r == (self.state() == NatsConnectionState::Connected && socket_free),
    {
        match self.state {
            NatsConnectionState::Connected => socket_free,
            _ => false,
        }
    }

    /// Takes in what the socket answered to an attempt. An answer is handed
    /// on. A lost server makes the connection disconnected, and the attempt
    /// asks for a reconnection. Every other error is handed on.
    pub fn settle<T>(&mut self, outcome: Result<T, NatsError>) -> (r: Attempt<T>)
        requires
            old(self).state() == NatsConnectionState::Connected,
        ensures
            final(self).transport() == old(self).transport(),
            match outcome {
                Ok(v) => r == Attempt::Ready(v) && final(self).state() == old(self).state(),
                Err(NatsError::ServerDisconnected(_)) => r == Attempt::<T>::Reconnect
                    && final(self).state() == NatsConnectionState::Disconnected,
                Err(e) => r == Attempt::<T>::Failed(e) && final(self).state() == old(self).state(),
            },
    {
        match outcome {
            Ok(v) => Attempt::Ready(v),
            Err(NatsError::ServerDisconnected(_)) => {
                self.state = NatsConnectionState::Disconnected;
                Attempt::Reconnect
            },
            Err(e) => Attempt::Failed(e),
        }
    }

    /// One attempt to read or write, start to end: `answer` is what the
    /// socket said if it was asked, and it is asked only when `may_poll`
    /// allows. While the connection is not connected the attempt is not
    /// ready, whatever the socket would have said.
    pub fn attempt<T>(&mut self, socket_free: bool, answer: Option<Result<T, NatsError>>) -> (r:
        Attempt<T>)
        ensures
            final(self).transport() == old(self).transport(),
            old(self).state() != NatsConnectionState::Connected ==> r == Attempt::<T>::NotReady
                && final(self).state() == old(self).state(),
            old(self).state() == NatsConnectionState::Connected ==> match (socket_free, answer) {
                (true, Some(Ok(v))) => r == Attempt::Ready(v)
                    && final(self).state() == old(self).state(),
                (true, Some(Err(NatsError::ServerDisconnected(_)))) => r == Attempt::<T>::Reconnect
                    && final(self).state() == NatsConnectionState::Disconnected,
                (true, Some(Err(e))) => r == Attempt::<T>::Failed(e)
                    && final(self).state() == old(self).state(),
                _ => r == Attempt::<T>::NotReady && final(self).state() == old(self).state(),
            },
    {
        if !self.may_poll(socket_free) {
            return Attempt::NotReady;
        }
        match answer {
            Some(outcome) => self.settle(outcome),
            None => Attempt::NotReady,
        }
    }

    /// Starts a reconnection and says how the server is to be reached.
    /// Until the reconnection ends, every attempt to read or write is not
    /// ready.
    pub fn reconnect(&mut self) -> (r: ReconnectPlan)
        ensures
            final(self).state() == NatsConnectionState::Reconnecting,
            final(self).transport() == old(self).transport(),
            r.transport@ == old(self).transport()@,
    {
        self.state = NatsConnectionState::Reconnecting;
        ReconnectPlan { transport: copy_transport(&self.transport) }
    }

    /// Ends a reconnection. With a new socket the connection is connected
    /// again; without one it stays disconnected, and the error says that no
    /// further attempt is made.
    pub fn reconnected(&mut self, socket_made: bool) -> (r: Result<(), NatsError>)
        ensures
            final(self).transport() == old(self).transport(),
            socket_made ==> r is Ok && final(self).state() == NatsConnectionState::Connected,
            !socket_made ==> r == Err::<(), NatsError>(NatsError::CannotReconnectToServer)
                && final(self).state() == NatsConnectionState::Disconnected,
    {
        if socket_made {
            self.state = NatsConnectionState::Connected;
            Ok(())
        } else {
            self.state = NatsConnectionState::Disconnected;
            Err(NatsError::CannotReconnectToServer)
        }
    }
}

/// A second copy of a transport.
pub fn copy_transport(t: &Transport) -> (r: Transport)
    ensures
        r@ == t@,
{
    match t {
        Transport::Tcp => Transport::Tcp,
        Transport::Tls { host } => Transport::Tls { host: host.clone() },
    }
}

} // verus!
