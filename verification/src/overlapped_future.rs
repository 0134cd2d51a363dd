//! Waiting for an operation that the system carries out in the background.

use vstd::prelude::*;

verus! {

/// What the system notes in an operation as long as it is under way.
pub const STATUS_PENDING: usize = 0x103;

/// The result of asking for the outcome of an operation that is under way:
/// `0x800703e4`.
pub const IO_INCOMPLETE: i32 = -2147023900;

/// What is known of the operation.
#[derive(Debug, Clone, Copy, PartialEq, Eq, Structural)]
pub enum OverlappedStatus {
    Pending,
    Done { bytes_transferred: u32 },
    Failed { code: i32, bytes_transferred: u32 },
}

/// What a poll finds.
#[derive(Debug, Clone, Copy, PartialEq, Eq)]
pub enum OverlappedPoll {
    /// The operation is under way: poll again.
    Pending,
    /// The operation has come to an end: ask the system for its outcome, and
    /// hand it to `accept`.
    AskForOutcome,
    /// The outcome of the operation: the number of bytes, or the error.
    Ready(Result<u32, i32>),
}

/// An operation of the system, seen from the program that waits for it.
#[derive(Debug, Clone, Copy, PartialEq, Eq, Structural)]
pub struct OverlappedFuture {
    pub status: OverlappedStatus,
}

/// What a poll finds of an operation whose status is known.
pub open spec fn outcome(status: OverlappedStatus) -> OverlappedPoll {
    match status {
        OverlappedStatus::Pending => OverlappedPoll::Pending,
        OverlappedStatus::Done { bytes_transferred } => OverlappedPoll::Ready(Ok(bytes_transferred)),
        OverlappedStatus::Failed { code, .. } => OverlappedPoll::Ready(Err(code)),
    }
}

/// The status after the system has told the outcome of an operation that was
/// under way.
pub open spec fn told(result: Result<(), i32>, bytes_transferred: u32) -> OverlappedStatus {
    match result {
        Ok(_) => OverlappedStatus::Done { bytes_transferred },
        Err(code) => if code == IO_INCOMPLETE {
            OverlappedStatus::Pending
        } else {
            OverlappedStatus::Failed { code, bytes_transferred }
        },
    }
}

/// Tells by what the system notes in an operation whether it has come to an end.
pub fn is_completed(internal: usize) -> (r: bool)
    ensures
        r == (internal != STATUS_PENDING),
{
    internal != STATUS_PENDING
}

impl OverlappedFuture {
    /// An operation that is about to start.
    pub fn new() -> (r: OverlappedFuture)
        ensures
            r.status == OverlappedStatus::Pending,
    {
        OverlappedFuture { status: OverlappedStatus::Pending }
    }

    /// The number of bytes that the operation moved, once it has come to an end.
    pub fn bytes_transferred(&self) -> (r: Option<u32>)
        ensures
            r == (match self.status {
                OverlappedStatus::Pending => None,
                OverlappedStatus::Done { bytes_transferred } => Some(bytes_transferred),
                OverlappedStatus::Failed { bytes_transferred, .. } => Some(bytes_transferred),
            }),
    {
        match self.status {
            OverlappedStatus::Pending => None,
            OverlappedStatus::Done { bytes_transferred } => Some(bytes_transferred),
            OverlappedStatus::Failed { bytes_transferred, .. } => Some(bytes_transferred),
        }
    }

    /// Prepares for the next operation.
    pub fn reset(&mut self)
        ensures
            final(self).status == OverlappedStatus::Pending,
    {
        self.status = OverlappedStatus::Pending;
    }

    /// Looks at the operation, of which the system notes `internal`.
    pub fn poll(&self, internal: usize) -> (r: OverlappedPoll)
        ensures
            r == (if self.status == OverlappedStatus::Pending && internal != STATUS_PENDING {
                OverlappedPoll::AskForOutcome
            } else {
                outcome(self.status)
            }),
    {
        match self.status {
            OverlappedStatus::Done { bytes_transferred } => OverlappedPoll::Ready(
                Ok(bytes_transferred),
            ),
            OverlappedStatus::Failed { code, .. } => OverlappedPoll::Ready(Err(code)),
            OverlappedStatus::Pending => if is_completed(internal) {
                OverlappedPoll::AskForOutcome
            } else {
                OverlappedPoll::Pending
            },
        }
    }

    /// Takes in what the system tells of the outcome.
    pub fn accept(&mut self, result: Result<(), i32>, bytes_transferred: u32) -> (r: OverlappedPoll)
        ensures
            final(self).status == (if old(self).status == OverlappedStatus::Pending {
                told(result, bytes_transferred)
            } else {
                old(self).status
            }),
            r == outcome(final(self).status),
    {
        if let OverlappedStatus::Pending = self.status {
            match result {
                Ok(_) => {
                    self.status = OverlappedStatus::Done { bytes_transferred };
                },
                Err(code) => {
                    if code != IO_INCOMPLETE {
                        self.status = OverlappedStatus::Failed { code, bytes_transferred };
                    }
                },
            }
        }
        match self.status {
            OverlappedStatus::Pending => OverlappedPoll::Pending,
            OverlappedStatus::Done { bytes_transferred } => OverlappedPoll::Ready(
                Ok(bytes_transferred),
            ),
            OverlappedStatus::Failed { code, .. } => OverlappedPoll::Ready(Err(code)),
        }
    }
}

} // verus!
