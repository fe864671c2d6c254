//! A `WakeGate`: the state behind one consumer that suspends and any number of
//! notifiers that wake it. A signal given while nobody waits stays pending, so
//! the next suspension returns at once; several signals given before a
//! suspension count as one.
//!
//! The `WakeGate` itself only decides. Whoever holds it under a lock performs what
//! its methods return: parks the consumer, or wakes the parked one.
use vstd::prelude::*;

verus! {

#[derive(Debug, Clone, Copy, PartialEq, Eq, Structural)]
pub struct WakeGate {
    /// A signal arrived that no suspension has taken yet.
    pub pending: bool,
    /// The waiter slot: a consumer is parked on the `WakeGate`.
    pub waiting: bool,
}

/// The `WakeGate` after a notifier signals it.
pub open spec fn signal_spec(g: WakeGate) -> WakeGate {
    WakeGate { pending: true, waiting: g.waiting }
}

/// The `WakeGate` after a consumer asks to suspend, and whether it must park.
pub open spec fn suspend_spec(g: WakeGate) -> (WakeGate, bool) {
    if g.pending {
        (WakeGate { pending: false, waiting: false }, false)
    } else {
        (WakeGate { pending: false, waiting: true }, true)
    }
}

/// The `WakeGate` after a parked consumer is woken, and whether a signal was taken
/// (otherwise the wake was spurious and it parks again).
pub open spec fn resume_spec(g: WakeGate) -> (WakeGate, bool) {
    if g.pending {
        (WakeGate { pending: false, waiting: false }, true)
    } else {
        (g, false)
    }
}

impl WakeGate {
    /// A `WakeGate` with no pending signal and nobody waiting.
    pub fn new() -> (r: Self)
        ensures
            r == (WakeGate { pending: false, waiting: false }),
    {
        WakeGate { pending: false, waiting: false }
    }

    /// Records a signal. Returns whether a parked consumer must be woken.
    pub fn signal(&mut self) -> (wake: bool)
        ensures
            *final(self) == signal_spec(*old(self)),
            wake == old(self).waiting,
    {
        self.pending = true;
        self.waiting
    }

    /// The consumer asks to suspend. A pending signal is taken and the
    /// consumer goes on (`false`); otherwise it takes the waiter slot and must
    /// park (`true`).
    pub fn begin_suspend(&mut self) -> (park: bool)
        requires
            !old(self).waiting,
        ensures
            (*final(self), park) == suspend_spec(*old(self)),
    {
        if self.pending {
            self.pending = false;
            false
        } else {
            self.waiting = true;
            true
        }
    }

    /// A parked consumer was woken. Returns whether it took a signal and may
    /// go on; if not, it stays in the waiter slot.
    pub fn resume(&mut self) -> (go_on: bool)
        requires
            old(self).waiting,
        ensures
            (*final(self), go_on) == resume_spec(*old(self)),
    {
        if self.pending {
            self.pending = false;
            self.waiting = false;
            true
        } else {
            false
        }
    }

    /// The consumer leaves the waiter slot without parking.
    pub fn leave(&mut self)
        ensures
            *final(self) == (WakeGate { pending: old(self).pending, waiting: false }),
    {
        self.waiting = false;
    }
}

/// Signals coalesce: signalling twice leaves the `WakeGate` as signalling once.
pub proof fn lemma_signals_coalesce(g: WakeGate)
    ensures
        signal_spec(signal_spec(g)) == signal_spec(g),
{
}

/// No wakeup is lost: a signal given before the consumer suspends makes that
/// suspension return at once, and one given while it is parked lets its next
/// wake go on.
pub proof fn lemma_signal_not_lost(g: WakeGate)
    ensures
        !g.waiting ==> !suspend_spec(signal_spec(g)).1,
        g.waiting ==> resume_spec(signal_spec(g)).1,
{
}

} // verus!
