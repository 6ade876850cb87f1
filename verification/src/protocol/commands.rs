//! The commands of the protocol, gathered under one path.

pub use super::client::connect::{ConnectCommand, ConnectCommandBuilder};
pub use super::client::pub_cmd::{PubCommand, PubCommandBuilder};
pub use super::client::sub_cmd::{SubCommand, SubCommandBuilder};
pub use super::client::unsub_cmd::{UnsubCommand, UnsubCommandBuilder};
pub use super::server::info::{ServerInfo, ServerInfoBuilder};
pub use super::server::message::{Message, MessageBuilder};
pub use super::server::server_error::ServerError;
pub use super::Command;
