//! Commands that the client sends.

pub mod connect;
pub mod pub_cmd;
pub mod sub_cmd;
pub mod unsub_cmd;
