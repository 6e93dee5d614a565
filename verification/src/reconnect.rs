//! The decisions of the loop that introduces this node to a peer: it keeps
//! trying to connect and to send a Hello until it succeeds, or until
//! another connection to the peer exists.

use vstd::prelude::*;

verus! {

/// What one attempt of the introduction loop found.
#[derive(Clone, Copy, Debug, PartialEq, Eq, Structural)]
pub enum Attempt {
    /// A connection to the peer exists already.
    AlreadyConnected,
    /// Connecting to the peer failed.
    ConnectFailed,
    /// The Hello was sent on a new connection.
    HelloSent,
    /// Sending the Hello on a new connection failed.
    HelloFailed,
}

/// What the introduction loop does next.
#[derive(Clone, Copy, Debug, PartialEq, Eq, Structural)]
pub enum Next {
    /// Stop introducing.
    Stop,
    /// Wait this many seconds, then try again.
    RetryAfter { secs: u64 },
}

/// The state of an introduction loop: how many Hellos failed so far.
#[derive(Clone, Copy, Debug, PartialEq, Eq, Structural)]
pub struct Reconnect {
    pub retries: u16,
}

impl Reconnect {
    /// A loop that has not failed yet.
    pub fn new() -> (r: Reconnect)
        ensures
            r.retries == 0,
    {
        Reconnect { retries: 0 }
    }

    /// The next step after an attempt: stop once a connection exists or the
    /// Hello went out; after a failed connection wait 5 seconds; after a
    /// failed Hello count the retry and wait 10 seconds.
    pub fn step(&mut self, attempt: Attempt) -> (next: Next)
        requires
            attempt == Attempt::HelloFailed ==> old(self).retries < u16::MAX,
        ensures
            match attempt {
                Attempt::AlreadyConnected | Attempt::HelloSent =>
                    next == Next::Stop && final(self).retries == old(self).retries,
                Attempt::ConnectFailed =>
                    next == (Next::RetryAfter { secs: 5 }) && final(self).retries == old(self).retries,
                Attempt::HelloFailed =>
                    next == (Next::RetryAfter { secs: 10 }) && final(self).retries == old(self).retries + 1,
            },
    {
        match attempt {
            Attempt::AlreadyConnected => Next::Stop,
            Attempt::ConnectFailed => Next::RetryAfter { secs: 5 },
            Attempt::HelloSent => Next::Stop,
            Attempt::HelloFailed => {
                self.retries = self.retries + 1;
                Next::RetryAfter { secs: 10 }
            },
        }
    }
}

} // verus!
