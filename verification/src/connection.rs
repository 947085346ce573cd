//! Judging a connection by its reads: errors in a row are counted, and a
//! connection that has failed too often in a row is given up. Also, how
//! to empty a receive buffer before the first read.

use vstd::prelude::*;

use crate::reader::{is_fatal, ReadError, TransportFault};

verus! {

/// The number of errors in a row that a connection is allowed by default.
pub const DEFAULT_MAX_ERRORS: u32 = 10;

/// What to do with the connection after a read.
#[derive(Debug, Clone, Copy, PartialEq, Eq, Structural)]
pub enum Verdict {
    /// Read again.
    Continue,
    /// Give the connection up; a new one may be made.
    Teardown,
}

/// The count after one more read: a packet sets it to zero, a timeout
/// leaves it, any other error adds one. A count already above the ceiling
/// stays where it is.
pub open spec fn count_after(count: nat, ceiling: nat, outcome: Option<ReadError>) -> nat {
    match outcome {
        None => 0,
        Some(error) => if is_fatal(error) && count <= ceiling {
            count + 1
        } else {
            count
        },
    }
}

/// The verdict at a count: teardown once the count exceeds the ceiling.
pub open spec fn verdict_at(count: nat, ceiling: nat) -> Verdict {
    if count > ceiling {
        Verdict::Teardown
    } else {
        Verdict::Continue
    }
}

/// Counts the errors that a connection's reads end with, in a row.
pub struct ErrorTracker {
    consecutive: u64,
    ceiling: u32,
}

impl ErrorTracker {
    /// Errors in a row so far.
    pub closed spec fn count(&self) -> nat {
        self.consecutive as nat
    }

    /// Errors in a row that the connection is allowed.
    pub closed spec fn spec_ceiling(&self) -> nat {
        self.ceiling as nat
    }

    /// The count has not run away from the ceiling.
    pub closed spec fn wf(&self) -> bool {
        self.consecutive <= self.ceiling + 1
    }

    /// A tracker that allows `ceiling` errors in a row, with none counted.
    pub fn new(ceiling: u32) -> (tracker: ErrorTracker)
        ensures
            tracker.wf(),
            tracker.count() == 0,
            tracker.spec_ceiling() == ceiling,
    {
        ErrorTracker { consecutive: 0, ceiling }
    }

    /// Errors in a row so far.
    pub fn consecutive_errors(&self) -> (count: u64)
        ensures
            count == self.count(),
    {
        self.consecutive
    }

    /// Notes a read that gave a packet: the count starts over.
    pub fn record_success(&mut self)
        ensures
            final(self).wf(),
            final(self).spec_ceiling() == old(self).spec_ceiling(),
            final(self).count() == count_after(old(self).count(), old(self).spec_ceiling(), None),
    {
        self.consecutive = 0;
    }

    /// Notes a read that ended with `error` and says whether the
    /// connection is to go on. A timeout counts for nothing. Any other
    /// error counts, and the connection is given up once more errors in a
    /// row have been counted than the ceiling allows.
    pub fn record_error(&mut self, error: ReadError) -> (verdict: Verdict)
        requires
            old(self).wf(),
        ensures
            final(self).wf(),
            final(self).spec_ceiling() == old(self).spec_ceiling(),
            final(self).count() == count_after(
                old(self).count(),
                old(self).spec_ceiling(),
                Some(error),
            ),
            verdict == verdict_at(final(self).count(), final(self).spec_ceiling()),
    {
        if error.is_fatal() && self.consecutive <= self.ceiling as u64 {
            self.consecutive = self.consecutive + 1;
        }
        if self.consecutive > self.ceiling as u64 {
            Verdict::Teardown
        } else {
            Verdict::Continue
        }
    }
}

/// What one read led to while a receive buffer is being emptied.
#[derive(Debug, Clone, Copy, PartialEq, Eq, Structural)]
pub enum DrainRead {
    /// The read returned this many bytes.
    Bytes(usize),
    /// The read failed.
    Fault(TransportFault),
}

/// What to do next while a receive buffer is being emptied.
#[derive(Debug, Clone, Copy, PartialEq, Eq, Structural)]
pub enum DrainStep {
    /// Discard what was read and read again.
    Again,
    /// The buffer is empty.
    Done,
    /// Give up: the transport has failed.
    Failed,
}

/// What to do after `read` while a receive buffer is being emptied: a
/// read of no bytes and a timeout both mean that the buffer is empty, any
/// other fault is a failure, and bytes call for another read.
pub open spec fn drain_step_spec(read: DrainRead) -> DrainStep {
    match read {
        DrainRead::Bytes(count) => if count == 0 {
            DrainStep::Done
        } else {
            DrainStep::Again
        },
        DrainRead::Fault(TransportFault::TimedOut) => DrainStep::Done,
        DrainRead::Fault(_) => DrainStep::Failed,
    }
}

/// What to do after `read` while a receive buffer is being emptied.
pub fn drain_step(read: DrainRead) -> (step: DrainStep)
    ensures
        step == drain_step_spec(read),
{
    match read {
        DrainRead::Bytes(count) => if count == 0 {
            DrainStep::Done
        } else {
            DrainStep::Again
        },
        DrainRead::Fault(TransportFault::TimedOut) => DrainStep::Done,
        DrainRead::Fault(_) => DrainStep::Failed,
    }
}

} // verus!
