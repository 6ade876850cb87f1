use vstd::prelude::*;

verus! {

/// The -ERR message is used by the server indicate a protocol,
/// authorization, or other runtime connection error to the client. Most of
/// these errors result in the server closing the connection.
///
/// Handling of these errors usually has to be done asynchronously.
#[derive(Debug, Clone, PartialEq)]
pub struct ServerError(pub String);

impl View for ServerError {
    type V = Seq<char>;

    open spec fn view(&self) -> Seq<char> {
        self.0@
    }
}

/// The error that carries the given message.
impl From<String> for ServerError {
    fn from(s: String) -> (r: ServerError)
        ensures
            r == ServerError(s),
    {
        ServerError(s)
    }
}

impl vstd::std_specs::convert::FromSpecImpl<String> for ServerError {
    open spec fn obeys_from_spec() -> bool {
        true
    }

    open spec fn from_spec(s: String) -> ServerError {
        ServerError(s)
    }
}

impl ServerError {
    /// The message that the server sent.
    pub fn message(&self) -> (r: &str)
        ensures
            r@ == self@,
    {
        self.0.as_str()
    }
}

} // verus!
