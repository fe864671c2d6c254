//! The merge of a directory's log records with reloads of a snapshot file.
//!
//! Snapshot reloads are made on the notification side and wait in a
//! first-in first-out queue. The consumer takes a ready log record first,
//! then the head of the queue, and suspends on the `WakeGate` when neither is
//! there. [`MergeControl`] holds the queue and the `WakeGate` under one lock.
use vstd::prelude::*;
use std::collections::VecDeque;
use crate::gate::{WakeGate, signal_spec, suspend_spec, resume_spec};

verus! {

/// One event of the merged sequence.
#[derive(Debug, Clone, PartialEq, Eq)]
pub enum LiveEvent<L, S> {
    /// A record of the tailed log files.
    LogRecord(L),
    /// The snapshot file, read again after it changed.
    SnapshotRecord(S),
}

/// What the consumer does next.
#[derive(Debug, Clone, PartialEq, Eq)]
pub enum MergeStep<T> {
    /// Hand this item to the caller.
    Deliver(T),
    /// Park until a source signals.
    Park,
    /// A signal was pending: look at the sources again.
    Retry,
}

/// A log record, or the error of reading one, as an item of the merged
/// sequence.
pub open spec fn wrap_log<L, S, E>(r: Result<L, E>) -> Result<LiveEvent<L, S>, E> {
    match r {
        Ok(l) => Ok(LiveEvent::LogRecord(l)),
        Err(e) => Err(e),
    }
}

/// A snapshot reload, or the error of it, as an item of the merged sequence.
pub open spec fn wrap_snapshot<L, S, E>(r: Result<S, E>) -> Result<LiveEvent<L, S>, E> {
    match r {
        Ok(s) => Ok(LiveEvent::SnapshotRecord(s)),
        Err(e) => Err(e),
    }
}

/// The queue, the `WakeGate` and the step when the consumer looks for the next
/// item, `log` being what the directory reader has ready.
pub open spec fn merge_next_spec<L, S, E>(
    pending: Seq<Result<LiveEvent<L, S>, E>>,
    gate: WakeGate,
    log: Option<Result<L, E>>,
) -> (Seq<Result<LiveEvent<L, S>, E>>, WakeGate, MergeStep<Result<LiveEvent<L, S>, E>>) {
    match log {
        Some(r) => (pending, gate, MergeStep::Deliver(wrap_log(r))),
        None => if pending.len() > 0 {
            (pending.skip(1), gate, MergeStep::Deliver(pending[0]))
        } else {
            let (g, park) = suspend_spec(gate);
            (pending, g, if park {
                MergeStep::Park
            } else {
                MergeStep::Retry
            })
        },
    }
}

pub struct MergeControl<L, S, E> {
    /// Snapshot reloads not yet taken, oldest first.
    pub pending: VecDeque<Result<LiveEvent<L, S>, E>>,
    pub gate: WakeGate,
}

impl<L, S, E> MergeControl<L, S, E> {
    /// An empty queue and a `WakeGate` with nothing pending.
    pub fn new() -> (r: Self)
        ensures
            r.pending@ == Seq::<Result<LiveEvent<L, S>, E>>::empty(),
            r.gate == (WakeGate { pending: false, waiting: false }),
    {
        MergeControl { pending: VecDeque::new(), gate: WakeGate::new() }
    }

    /// Queues the result of reading the snapshot file again and signals the
    /// `WakeGate`. Returns whether the parked consumer must be woken.
    pub fn push_snapshot(&mut self, item: Result<S, E>) -> (wake: bool)
        ensures
            final(self).pending@ == old(self).pending@.push(wrap_snapshot(item)),
            final(self).gate == signal_spec(old(self).gate),
            wake == old(self).gate.waiting,
    {
        let wrapped = match item {
            Ok(s) => Ok(LiveEvent::SnapshotRecord(s)),
            Err(e) => Err(e),
        };
        self.pending.push_back(wrapped);
        self.gate.signal()
    }

    /// The log side has new data. Returns whether the parked consumer must be
    /// woken.
    pub fn on_log_activity(&mut self) -> (wake: bool)
        ensures
            final(self).pending@ == old(self).pending@,
            final(self).gate == signal_spec(old(self).gate),
            wake == old(self).gate.waiting,
    {
        self.gate.signal()
    }

    /// The next step of the consumer: the ready log record if there is one,
    /// else the oldest queued snapshot item, else a suspension on the `WakeGate`.
    pub fn next_step(&mut self, log: Option<Result<L, E>>) -> (r: MergeStep<
        Result<LiveEvent<L, S>, E>,
    >)
        requires
            !old(self).gate.waiting,
        ensures
            (final(self).pending@, final(self).gate, r) == merge_next_spec(
                old(self).pending@,
                old(self).gate,
                log,
            ),
    {
        match log {
            Some(Ok(l)) => MergeStep::Deliver(Ok(LiveEvent::LogRecord(l))),
            Some(Err(e)) => MergeStep::Deliver(Err(e)),
            None => match self.pending.pop_front() {
                Some(item) => {
                    proof {
                        assert(self.pending@ =~= old(self).pending@.skip(1));
                    }
                    MergeStep::Deliver(item)
                },
                None => {
                    if self.gate.begin_suspend() {
                        MergeStep::Park
                    } else {
                        MergeStep::Retry
                    }
                },
            },
        }
    }

    /// The parked consumer woke. Returns whether it took a signal and must
    /// look at the sources again; otherwise it parks again.
    pub fn on_wake(&mut self) -> (go_on: bool)
        requires
            old(self).gate.waiting,
        ensures
            final(self).pending@ == old(self).pending@,
            (final(self).gate, go_on) == resume_spec(old(self).gate),
    {
        self.gate.resume()
    }
}

/// Log records come first: with a log record ready and snapshot items
/// queued, the log record is delivered and the queue is left as it was.
pub proof fn lemma_log_first<L, S, E>(
    pending: Seq<Result<LiveEvent<L, S>, E>>,
    gate: WakeGate,
    log: Result<L, E>,
)
    requires
        pending.len() > 0,
    ensures
        merge_next_spec(pending, gate, Some(log)) == (pending, gate, MergeStep::<
            Result<LiveEvent<L, S>, E>,
        >::Deliver(wrap_log(log))),
{
}

/// Queued snapshot items come out in the order they were queued: with no
/// log record ready, the oldest one is delivered and the rest stay queued.
pub proof fn lemma_snapshots_in_order<L, S, E>(
    pending: Seq<Result<LiveEvent<L, S>, E>>,
    gate: WakeGate,
    item: Result<S, E>,
)
    requires
        pending.len() > 0,
    ensures
        ({
            let (rest, g, step) = merge_next_spec(pending.push(wrap_snapshot(item)), gate, None);
            rest == pending.skip(1).push(wrap_snapshot(item)) && g == gate && step
                == MergeStep::Deliver(pending[0])
        }),
{
    assert(pending.push(wrap_snapshot(item)).skip(1) =~= pending.skip(1).push(
        wrap_snapshot(item),
    ));
}

} // verus!
