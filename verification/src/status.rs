//! The status of the node.

use vstd::prelude::*;

verus! {

/// What the node is doing.
#[derive(PartialEq, Eq, Clone, Copy, Debug, Structural)]
pub enum Status {
    /// Waiting: the status of a new node.
    Idle,
    /// Producing blocks.
    Mining,
    /// Catching up with its peers.
    Syncing,
    /// Stopping. A node that is shutting down stays so.
    ShuttingDown,
}

impl Status {
    /// The status as one byte: 0 for `Idle`, 1 for `Mining`, 2 for `Syncing`,
    /// 3 for `ShuttingDown`.
    pub open spec fn code_of(self) -> u8 {
        match self {
            Status::Idle => 0,
            Status::Mining => 1,
            Status::Syncing => 2,
            Status::ShuttingDown => 3,
        }
    }

    /// The status after `requested` was asked of a node in status `self`:
    /// the requested one, unless the node is shutting down already.
    pub open spec fn after(self, requested: Status) -> Status {
        if self == Status::ShuttingDown {
            Status::ShuttingDown
        } else {
            requested
        }
    }

    /// The status as one byte.
    pub fn code(self) -> (code: u8)
        ensures
            code == self.code_of(),
    {
        match self {
            Status::Idle => 0,
            Status::Mining => 1,
            Status::Syncing => 2,
            Status::ShuttingDown => 3,
        }
    }

    /// The status that `code` stands for, or nothing if it stands for none.
    pub fn from_code(code: u8) -> (status: Option<Status>)
        ensures
            match status {
                Some(status) => status.code_of() == code,
                None => code > 3,
            },
    {
        match code {
            0 => Some(Status::Idle),
            1 => Some(Status::Mining),
            2 => Some(Status::Syncing),
            3 => Some(Status::ShuttingDown),
            _ => None,
        }
    }

    /// Whether nothing leads out of this status.
    pub fn is_terminal(self) -> (terminal: bool)
        ensures
            terminal == (self == Status::ShuttingDown),
            terminal == (forall|requested: Status| self.after(requested) == self),
    {
        proof {
            if self != Status::ShuttingDown {
                let other = if self == Status::Idle {
                    Status::Mining
                } else {
                    Status::Idle
                };
                assert(self.after(other) != self);
            }
        }
        match self {
            Status::ShuttingDown => true,
            _ => false,
        }
    }

    /// The status of a node in status `self` that is asked for `requested`.
    pub fn next(self, requested: Status) -> (next: Status)
        ensures
            next == self.after(requested),
    {
        if self.is_terminal() {
            Status::ShuttingDown
        } else {
            requested
        }
    }
}

/// A status is found again from its byte, and no two have the same byte.
pub proof fn lemma_code_round_trip(status: Status, other: Status)
    ensures
        status.code_of() <= 3,
        status.code_of() == other.code_of() ==> status == other,
{
}

/// Once a node is shutting down, no request changes that; before, every
/// request is granted.
pub proof fn lemma_shutting_down_is_terminal(current: Status, requested: Status)
    ensures
        Status::ShuttingDown.after(requested) == Status::ShuttingDown,
        current != Status::ShuttingDown ==> current.after(requested) == requested,
        current.after(Status::ShuttingDown) == Status::ShuttingDown,
{
}

} // verus!
