//! The errors of the client.

use vstd::prelude::*;
use crate::protocol::error::CommandError;

verus! {

#[verifier::external_type_specification]
#[verifier::external_body]
pub struct ExUrlParseError(url::ParseError);

/// `url::ParseError` is a plain enum without fields, and its `clone` is a
/// copy.
pub assume_specification[ <url::ParseError as Clone>::clone ](e: &url::ParseError) -> (r:
    url::ParseError)
    ensures
        r == *e,
;

/// The kinds of I/O failure that the client tells apart.
#[derive(Debug, Clone, Copy, PartialEq, Eq, Structural)]
pub enum IoFailureKind {
    /// The connection was reset by the remote server.
    ConnectionReset,
    /// The connection was refused by the remote server.
    ConnectionRefused,
    /// Any other failure.
    Other,
}

/// An I/O failure, as the layer that owns the socket reports it.
#[derive(Debug, Clone, PartialEq)]
pub struct IoFailure {
    /// What kind of failure it was
    pub kind: IoFailureKind,
    /// The failure in words
    pub message: String,
}

/// Error enum for all cases of internal/external errors occuring during client execution
#[derive(Debug, Clone, PartialEq)]
pub enum NatsError {
    /// Building a command has failed because of invalid syntax or incorrect arguments
    CommandBuildError(String),
    /// Generic IO error
    IOError(IoFailure),
    /// Occurs when the client is not yet connected or got disconnected from the server.
    /// Contains `Some` when it's actually a disconnection or contains `None` when we are not
    /// connected at all
    ServerDisconnected(Option<IoFailure>),
    /// Protocol error
    ProtocolError(CommandError),
    /// Occurs if we try to parse a string that is supposed to be valid UTF8 and...is actually not
    UTF8Error,
    /// Error on TLS handling
    TlsError(String),
    /// Occurs when the host is not provided, removing the ability for TLS to function correctly for
    /// server identify verification
    TlsHostMissingError,
    /// Cannot parse an URL
    UrlParseError(url::ParseError),
    /// Cannot parse an IP
    AddrParseError(String),
    /// Occurs when we cannot resolve the URI given using the local host's DNS resolving mechanisms
    /// Will contain `Some` when the resolving has been tried with an error, and `None` when
    /// resolving succeeded but gave no results
    UriDNSResolveError(Option<IoFailure>),
    /// Cannot reconnect to server after retrying once
    CannotReconnectToServer,
    /// Something went wrong in one of the Reciever/Sender pairs
    InnerBrokenChain,
    /// The payload of a command is larger than the server accepts; holds the server's limit
    MaxPayloadOverflow(u32),
    /// Generic string error
    GenericError(String),
    /// Error thrown when a subscription is fused after reaching the maximum messages
    SubscriptionReachedMaxMsgs(u32),
}

/// Whether a failure of this kind means that the server is gone.
pub open spec fn is_disconnect(kind: IoFailureKind) -> bool {
    kind == IoFailureKind::ConnectionReset || kind == IoFailureKind::ConnectionRefused
}

impl NatsError {
    /// Takes an I/O failure in: a reset or refused connection becomes
    /// `ServerDisconnected`, so that the connection can look for it in one
    /// place; every other failure is an `IOError`.
    pub fn from_io(err: IoFailure) -> (r: NatsError)
        ensures
            r == if is_disconnect(err.kind) {
                NatsError::ServerDisconnected(Some(err))
            } else {
                NatsError::IOError(err)
            },
    {
        match err.kind {
            IoFailureKind::ConnectionReset | IoFailureKind::ConnectionRefused => {
                NatsError::ServerDisconnected(Some(err))
            },
            IoFailureKind::Other => NatsError::IOError(err),
        }
    }

    /// Whether the error says that the server is gone.
    pub fn is_disconnected(&self) -> (r: bool)
        ensures
            r == (*self is ServerDisconnected),
    {
        match self {
            NatsError::ServerDisconnected(_) => true,
            _ => false,
        }
    }
}

impl From<CommandError> for NatsError {
    fn from(e: CommandError) -> (r: NatsError)
        ensures
            r == NatsError::ProtocolError(e),
    {
        NatsError::ProtocolError(e)
    }
}

impl vstd::std_specs::convert::FromSpecImpl<CommandError> for NatsError {
    open spec fn obeys_from_spec() -> bool {
        true
    }

    open spec fn from_spec(e: CommandError) -> NatsError {
        NatsError::ProtocolError(e)
    }
}

impl From<String> for NatsError {
    fn from(s: String) -> (r: NatsError)
        ensures
            r == NatsError::GenericError(s),
    {
        NatsError::GenericError(s)
    }
}

impl vstd::std_specs::convert::FromSpecImpl<String> for NatsError {
    open spec fn obeys_from_spec() -> bool {
        true
    }

    open spec fn from_spec(s: String) -> NatsError {
        NatsError::GenericError(s)
    }
}

impl From<url::ParseError> for NatsError {
    fn from(e: url::ParseError) -> (r: NatsError)
        ensures
            r == NatsError::UrlParseError(e),
    {
        NatsError::UrlParseError(e)
    }
}

impl vstd::std_specs::convert::FromSpecImpl<url::ParseError> for NatsError {
    open spec fn obeys_from_spec() -> bool {
        true
    }

    open spec fn from_spec(e: url::ParseError) -> NatsError {
        NatsError::UrlParseError(e)
    }
}

} // verus!
