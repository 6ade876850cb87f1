//! The flag on which a sender in verbose mode waits for the server's `+OK`.

use vstd::prelude::*;

verus! {

/// The acknowledgement flag: down while an acknowledgement is awaited, up
/// once the server has sent one.
#[derive(Debug, Clone, Copy, PartialEq, Eq, Structural)]
pub struct AckTrigger {
    up: bool,
}

impl AckTrigger {
    /// Whether the flag is up.
    pub closed spec fn up(&self) -> bool {
        self.up
    }

    /// A flag in the given position.
    pub fn new(up: bool) -> (r: Self)
        ensures
            r.up() == up,
    {
        AckTrigger { up }
    }

    /// Takes the flag down: an acknowledgement is awaited.
    pub fn pull_down(&mut self)
        ensures
            !final(self).up(),
    {
        self.up = false;
    }

    /// Puts the flag up: the server has acknowledged.
    pub fn pull_up(&mut self)
        ensures
            final(self).up(),
    {
        self.up = true;
    }

    /// Whether the flag is up.
    pub fn is_up(&self) -> (r: bool)
        ensures
            r == self.up(),
    {
        self.up
    }

    /// Starts a wait: the flag goes down, and the wait is over when it is
    /// up again.
    pub fn fire(&mut self)
        ensures
            !final(self).up(),
    {
        self.pull_down();
    }

    /// Whether a wait that `fire` started is over.
    pub fn poll(&self) -> (ready: bool)
        ensures
            ready == self.up(),
    {
        self.is_up()
    }
}

/// A flag in the given position.
impl From<bool> for AckTrigger {
    fn from(v: bool) -> (r: AckTrigger)
        ensures
            r.up() == v,
    {
        AckTrigger { up: v }
    }
}

impl vstd::std_specs::convert::FromSpecImpl<bool> for AckTrigger {
    open spec fn obeys_from_spec() -> bool {
        true
    }

    closed spec fn from_spec(v: bool) -> AckTrigger {
        AckTrigger { up: v }
    }
}

impl Default for AckTrigger {
    fn default() -> (r: Self)
        ensures
            !r.up(),
    {
        AckTrigger { up: false }
    }
}

} // verus!
