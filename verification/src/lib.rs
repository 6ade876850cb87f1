//! Client-side core of a NATS messaging client, free of I/O: bytes and
//! events come in, commands and decisions go out, and each function states
//! what it computes.
//!
//! - [`protocol`] holds one type for each command of the wire protocol, with
//!   the function that writes it as bytes and the function that reads it
//!   back, and the law that reading undoes writing.
//! - [`codec`] finds the frames in a stream of bytes; [`framing`] holds its
//!   laws: frames do not depend on how the stream was cut into chunks.
//! - [`client`] holds the multiplexer that sorts incoming messages by
//!   subscription and keeps their budgets, the sender that queues outgoing
//!   ones, and the client that owns both and reacts to the server.
//! - [`net`] holds the phases of a connection and the choice of transport.
//! - [`buf`], [`json`] and [`text`] hold what the others stand on: the byte
//!   buffers of the `bytes` crate, JSON through `serde_json`, and fields,
//!   numbers and UTF-8.

pub mod buf;
pub mod client;
pub mod codec;
pub mod error;
pub mod framing;
pub mod json;
pub mod net;
pub mod protocol;
pub mod text;

pub use self::client::ack_trigger::AckTrigger;
pub use self::client::client::{
    NatsClient, NatsClientOptions, NatsClientOptionsBuilder, RequestTicket,
};
pub use self::client::multiplexer::{Delivery, NatsClientMultiplexer, SubscriptionSink};
pub use self::client::sender::{NatsClientSender, SendStatus};
pub use self::codec::OpCodec;
pub use self::error::{IoFailure, IoFailureKind, NatsError};
pub use self::net::connection::{Attempt, NatsConnection, NatsConnectionState, ReconnectPlan};
pub use self::net::tls::NatsClientTlsConfig;
pub use self::net::Transport;
pub use self::protocol::check_command_arg;
pub use self::protocol::commands;
pub use self::protocol::error::{ArgumentValidationError, CommandError, JsonFault};
pub use self::protocol::op::Op;
pub use self::protocol::Command;
pub use self::text::IntParseFault;
