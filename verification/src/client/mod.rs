//! The client: the multiplexer of incoming messages, the sender of outgoing
//! ones, and the client that owns both.

pub mod ack_trigger;
pub mod client;
pub mod multiplexer;
pub mod sender;
pub mod streams;
