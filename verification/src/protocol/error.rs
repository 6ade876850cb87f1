use vstd::prelude::*;
use crate::text::IntParseFault;

verus! {

/// Why a subject, inbox or queue group was refused.
#[derive(Debug, Clone, Copy, PartialEq, Eq, Structural)]
pub enum ArgumentValidationError {
    /// The argument contains spaces
    ContainsSpace,
    /// The argument contains tabs
    ContainsTab,
}

/// Why the JSON body of a command was refused.
#[derive(Debug, Clone, Copy, PartialEq, Eq, Structural)]
pub enum JsonFault {
    /// The body is no JSON object, or a text could not be written as JSON.
    Syntax,
    /// The body is a JSON object, but a member that the command needs is
    /// missing or holds a value of the wrong kind.
    Structure,
}

/// Everything that can go wrong while a command is read from bytes or
/// written to them.
#[derive(Debug, Clone, PartialEq)]
pub enum CommandError {
    /// The given JSON was invalid and/or malformed
    JsonError(JsonFault),
    /// A validation of the arguments failed, meaning improper arguments were
    /// given to it
    ValidationError(ArgumentValidationError),
    /// Occurs when a command is incomplete and we cannot parse it yet
    /// without more from the buffer
    IncompleteCommandError,
    /// Occurs when a command name that doesn't exist (or is not supported
    /// as of now) is given to the parser
    CommandNotFoundOrSupported,
    /// Occurs when a command is malformed, whether it's order/conformance of
    /// fields (for instance, a mismatch between the declared length and the
    /// length of the actual payload in PUB and MSG commands triggers this
    /// error)
    CommandMalformed,
    /// Occurs if a piece of a command that is supposed to be valid UTF-8 is
    /// not
    UTF8SliceError,
    /// Occurs if an owned string that is supposed to be valid UTF-8 is not
    UTF8StringError,
    /// Occurs when a length or a count is no decimal number, or exceeds the
    /// bounds of integers
    PayloadLengthParseError(IntParseFault),
    /// Generic error for untyped `String` errors
    GenericError(String),
}

impl From<ArgumentValidationError> for CommandError {
    fn from(e: ArgumentValidationError) -> (r: CommandError)
        ensures
            r == CommandError::ValidationError(e),
    {
        CommandError::ValidationError(e)
    }
}

impl vstd::std_specs::convert::FromSpecImpl<ArgumentValidationError> for CommandError {
    open spec fn obeys_from_spec() -> bool {
        true
    }

    open spec fn from_spec(e: ArgumentValidationError) -> CommandError {
        CommandError::ValidationError(e)
    }
}

impl From<String> for CommandError {
    fn from(s: String) -> (r: CommandError)
        ensures
            r == CommandError::GenericError(s),
    {
        CommandError::GenericError(s)
    }
}

impl vstd::std_specs::convert::FromSpecImpl<String> for CommandError {
    open spec fn obeys_from_spec() -> bool {
        true
    }

    open spec fn from_spec(s: String) -> CommandError {
        CommandError::GenericError(s)
    }
}

} // verus!
