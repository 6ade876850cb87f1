//! The protocol model: one type for each command of the wire protocol, with
//! the function that writes it as bytes and the function that reads it back.

use vstd::prelude::*;
use bytes::Bytes;
use crate::text::{contains_byte, lemma_ascii_byte_occurs};
use self::error::{ArgumentValidationError, CommandError};

pub mod builder;
pub mod client;
pub mod commands;
pub mod error;
pub mod ident;
pub mod op;
pub mod round_trip;
pub mod server;
pub mod wire;

verus! {

/// What every command of the protocol offers: its form on the wire, and the
/// way back from a frame that holds exactly one command.
pub trait Command: Sized {
    /// Encodes the command into bytes
    fn into_vec(self) -> Result<Bytes, CommandError>;

    /// Tries to parse a buffer into a command
    fn try_parse(buf: Bytes) -> Result<Self, CommandError>;
}

/// Checks a subject, inbox or queue group: such an argument may hold neither
/// an ASCII space nor a tab. Spaces are reported before tabs.
pub fn check_command_arg(s: &str) -> (r: Result<(), ArgumentValidationError>)
    ensures
        match self::builder::argument_fault(s@) {
            Some(fault) => r == Err::<(), _>(fault),
            None => r is Ok,
        },
{
    let bytes = s.as_bytes();
    proof {
        lemma_ascii_byte_occurs(s@, 0x20u8);
        lemma_ascii_byte_occurs(s@, 0x09u8);
    }
    if contains_byte(bytes, 0x20u8) {
        Err(ArgumentValidationError::ContainsSpace)
    } else if contains_byte(bytes, 0x09u8) {
        Err(ArgumentValidationError::ContainsTab)
    } else {
        Ok(())
    }
}

} // verus!
