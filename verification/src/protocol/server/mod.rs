//! Commands that the server sends.

pub mod info;
pub mod message;
pub mod server_error;
