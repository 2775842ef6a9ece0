//! Waiting for a client to connect.
//!
//! The device polls its radio a bounded number of times and gives up after
//! the last poll that brought no connection. Polling and sleeping between
//! two polls are the caller's part: it hands in what each poll gave and does
//! what the answer says.

use vstd::prelude::*;

verus! {

/// The number of polls after which the device stops waiting.
pub const MAX_POLLS: u8 = 50;

/// What one poll of the radio gave.
#[derive(Debug, Clone, Copy, PartialEq, Eq, Structural)]
pub enum Polled {
    /// Nothing happened.
    Nothing,
    /// A client has connected.
    Connected,
    /// Something else came in.
    Other,
}

/// What to do after a poll.
#[derive(Debug, Clone, Copy, PartialEq, Eq, Structural)]
pub enum Step {
    /// A client is connected: stop polling.
    Connected,
    /// Sleep, then poll again.
    Retry,
    /// Sleep, then stop: no client came.
    GiveUp,
}

/// Counts the polls made while waiting for a client.
#[derive(Debug, Clone, Copy)]
pub struct ConnectionWait {
    polls: u8,
}

impl ConnectionWait {
    /// The polls made so far that brought no connection.
    pub closed spec fn polls(&self) -> nat {
        self.polls as nat
    }

    /// A wait that has not polled yet.
    pub fn new() -> (wait: Self)
        ensures
            wait.polls() == 0,
    {
        Self { polls: 0 }
    }

    /// Takes note of what a poll gave and says how to go on: a connection
    /// ends the wait at once, the last of `MAX_POLLS` polls without one ends
    /// it too, and any poll before that is followed by another.
    pub fn on_poll(&mut self, polled: Polled) -> (step: Step)
        ensures
            polled == Polled::Connected ==> {
                &&& step == Step::Connected
                &&& final(self).polls() == old(self).polls()
            },
            polled != Polled::Connected ==> {
                &&& final(self).polls() == (if old(self).polls() < MAX_POLLS {
                    old(self).polls() + 1
                } else {
                    old(self).polls()
                })
                &&& step == (if final(self).polls() < MAX_POLLS {
                    Step::Retry
                } else {
                    Step::GiveUp
                })
            },
    {
        match polled {
            Polled::Connected => Step::Connected,
            _ => {
                if self.polls < MAX_POLLS {
                    self.polls += 1;
                }
                if self.polls < MAX_POLLS {
                    Step::Retry
                } else {
                    Step::GiveUp
                }
            },
        }
    }
}

} // verus!
