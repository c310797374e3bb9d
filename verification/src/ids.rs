//! Identifiers of connections.
use vstd::prelude::*;
use crate::registry::UserID;

verus! {

/// Hands out the identifiers of connections: 1, 2, 3 and so on, each once.
#[derive(Debug)]
pub struct ConnectionCounter {
    issued: u32,
}

impl View for ConnectionCounter {
    type V = nat;

    /// The number of identifiers handed out so far, which is also the last
    /// of them.
    closed spec fn view(&self) -> nat {
        self.issued as nat
    }
}

impl ConnectionCounter {
    /// A counter that has handed out nothing.
    pub fn new() -> (counter: ConnectionCounter)
        ensures
            counter@ == 0,
    {
        ConnectionCounter { issued: 0 }
    }

    /// The identifier for the next connection: one more than the last, and
    /// so larger than every identifier handed out before. `None` once all
    /// identifiers are used up.
    pub fn next_id(&mut self) -> (id: Option<UserID>)
        ensures
            match id {
                Some(id) => id == old(self)@ + 1 && final(self)@ == id,
                None => old(self)@ == u32::MAX && final(self)@ == old(self)@,
            },
    {
        if self.issued == u32::MAX {
            return None;
        }
        self.issued = self.issued + 1;
        Some(self.issued)
    }
}

} // verus!
