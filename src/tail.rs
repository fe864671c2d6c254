//! The decisions of a blocking tail reader over one file.
//!
//! The reader loops: unless closed, it reads what is ready; it yields what it
//! read; when nothing was ready it takes the waiter slot, checks the closed
//! flag once more, and parks until a signal comes. A content change signals
//! the `WakeGate`; `close` sets the flag and then signals it. [`TailControl`] holds
//! that state and says at each point what the reader does next; the caller
//! keeps it under one lock and performs the step.
use vstd::prelude::*;
use crate::gate::{WakeGate, signal_spec, suspend_spec, resume_spec};

verus! {

/// What the reader does next.
#[derive(Debug, Clone, Copy, PartialEq, Eq, Structural)]
pub enum TailStep {
    /// Read the records that are ready in the file.
    Read,
    /// Hand the records just read to the consumer.
    Yield,
    /// Park until woken.
    Park,
    /// The reader is closed: end the sequence.
    Stop,
}

#[derive(Debug, Clone, Copy, PartialEq, Eq, Structural)]
pub struct TailControl {
    /// Set once by `close`, never cleared.
    pub closed: bool,
    pub gate: WakeGate,
}

/// The step at the top of the loop.
pub open spec fn poll_spec(c: TailControl) -> TailStep {
    if c.closed {
        TailStep::Stop
    } else {
        TailStep::Read
    }
}

/// The state and step after a read that found records or found none.
pub open spec fn after_read_spec(c: TailControl, found: bool) -> (TailControl, TailStep) {
    if found {
        (c, TailStep::Yield)
    } else {
        let (g, park) = suspend_spec(c.gate);
        if c.closed {
            (TailControl { closed: true, gate: WakeGate { pending: g.pending, waiting: false } }, TailStep::Stop)
        } else if park {
            (TailControl { closed: false, gate: g }, TailStep::Park)
        } else {
            (TailControl { closed: false, gate: g }, TailStep::Read)
        }
    }
}

/// The state and step when the parked reader wakes.
pub open spec fn wake_spec(c: TailControl) -> (TailControl, TailStep) {
    let (g, go_on) = resume_spec(c.gate);
    let step = if !go_on {
        TailStep::Park
    } else if c.closed {
        TailStep::Stop
    } else {
        TailStep::Read
    };
    (TailControl { closed: c.closed, gate: g }, step)
}

/// The state after the file's content changed.
pub open spec fn notify_spec(c: TailControl) -> TailControl {
    TailControl { closed: c.closed, gate: signal_spec(c.gate) }
}

/// The state after `close`.
pub open spec fn close_spec(c: TailControl) -> TailControl {
    TailControl { closed: true, gate: signal_spec(c.gate) }
}

impl TailControl {
    /// An open reader, not parked, with no pending signal.
    pub fn new() -> (r: Self)
        ensures
            r == (TailControl { closed: false, gate: WakeGate { pending: false, waiting: false } }),
    {
        TailControl { closed: false, gate: WakeGate::new() }
    }

    /// The step at the top of the loop: read, unless closed.
    pub fn poll(&self) -> (r: TailStep)
        ensures
            r == poll_spec(*self),
    {
        if self.closed {
            TailStep::Stop
        } else {
            TailStep::Read
        }
    }

    /// The step after a read. When nothing was found the reader takes the
    /// waiter slot before it checks the closed flag, so a concurrent close is
    /// never missed.
    pub fn after_read(&mut self, found: bool) -> (r: TailStep)
        requires
            !old(self).gate.waiting,
        ensures
            (*final(self), r) == after_read_spec(*old(self), found),
    {
        if found {
            return TailStep::Yield;
        }
        let park = self.gate.begin_suspend();
        if self.closed {
            self.gate.leave();
            TailStep::Stop
        } else if park {
            TailStep::Park
        } else {
            TailStep::Read
        }
    }

    /// The step when the parked reader wakes, spuriously or not.
    pub fn on_wake(&mut self) -> (r: TailStep)
        requires
            old(self).gate.waiting,
        ensures
            (*final(self), r) == wake_spec(*old(self)),
    {
        let go_on = self.gate.resume();
        if !go_on {
            TailStep::Park
        } else if self.closed {
            TailStep::Stop
        } else {
            TailStep::Read
        }
    }

    /// The file's content changed. Returns whether the parked reader must be
    /// woken.
    pub fn notify(&mut self) -> (wake: bool)
        ensures
            *final(self) == notify_spec(*old(self)),
            wake == old(self).gate.waiting,
    {
        self.gate.signal()
    }

    /// Closes the reader. Returns whether the parked reader must be woken.
    pub fn close(&mut self) -> (wake: bool)
        ensures
            *final(self) == close_spec(*old(self)),
            wake == old(self).gate.waiting,
    {
        self.closed = true;
        self.gate.signal()
    }
}

/// A parked reader with no signal pending does not read: a wake without a
/// signal parks it again, unchanged. An open reader that finds nothing and
/// has no signal pending parks instead of reading again.
pub proof fn lemma_no_busy_wait(c: TailControl)
    requires
        !c.gate.pending,
    ensures
        c.gate.waiting ==> wake_spec(c) == (c, TailStep::Park),
        !c.gate.waiting && !c.closed ==> after_read_spec(c, false).1 == TailStep::Park,
{
}

/// A content change that comes between an empty read and the suspension is
/// not lost: the reader reads again instead of parking. One that comes while
/// it is parked makes its next wake read.
pub proof fn lemma_no_lost_wakeup(c: TailControl)
    requires
        !c.closed,
    ensures
        !c.gate.waiting ==> after_read_spec(notify_spec(c), false).1 == TailStep::Read,
        c.gate.waiting ==> wake_spec(notify_spec(c)).1 == TailStep::Read,
{
}

/// Closing twice leaves the reader as closing once. After a close the reader
/// stops: at the top of its loop, after an empty read, and at the very next
/// wake when it was parked, which the close itself asks for.
pub proof fn lemma_close_idempotent(c: TailControl)
    ensures
        close_spec(close_spec(c)) == close_spec(c),
        poll_spec(close_spec(c)) == TailStep::Stop,
        !c.gate.waiting ==> after_read_spec(close_spec(c), false).1 == TailStep::Stop,
        c.gate.waiting ==> wake_spec(close_spec(c)).1 == TailStep::Stop,
{
}

} // verus!
