//! The live-reload broadcast signal.
//!
//! The signal carries no queue: a generation counter says "there is
//! something new", and a shutdown flag says "stop watching". The embedding
//! program keeps the signal under one lock together with a wake-all
//! primitive; every decision about what a waiter does next is made here,
//! under that lock.

use vstd::prelude::*;

verus! {

/// What a signal holds: its generation counter and whether it was shut down.
pub struct SignalView {
    pub generation: u64,
    pub shutting_down: bool,
}

/// A broadcast "reload now" signal: a generation counter that only grows
/// and a shutdown flag that is never cleared.
pub struct ReloadSignal {
    generation: u64,
    shutting_down: bool,
}

/// What a waiter does after looking at the signal.
#[derive(PartialEq, Eq, Structural, Clone, Copy, Debug)]
pub enum WaitOutcome {
    /// The signal was shut down: stop waiting.
    Closed,
    /// The generation differs from the one last seen; it now holds this value.
    Changed(u64),
    /// Nothing new: park on the wake primitive and look again when woken.
    Pending,
}

/// The signal after one more notification. The counter saturates at its
/// largest value rather than wrapping, so that it never goes back.
pub open spec fn notified(v: SignalView) -> SignalView {
    SignalView {
        generation: if v.generation < u64::MAX {
            (v.generation + 1) as u64
        } else {
            v.generation
        },
        shutting_down: v.shutting_down,
    }
}

/// The signal after `n` notifications.
pub open spec fn notified_times(v: SignalView, n: nat) -> SignalView
    decreases n,
{
    if n == 0 {
        v
    } else {
        notified(notified_times(v, (n - 1) as nat))
    }
}

/// The signal after shutdown.
pub open spec fn shut_down(v: SignalView) -> SignalView {
    SignalView { generation: v.generation, shutting_down: true }
}

/// What a waiter that last saw `last_seen` does on a signal in state `v`.
pub open spec fn wait_outcome(v: SignalView, last_seen: u64) -> WaitOutcome {
    if v.shutting_down {
        WaitOutcome::Closed
    } else if v.generation != last_seen {
        WaitOutcome::Changed(v.generation)
    } else {
        WaitOutcome::Pending
    }
}

impl View for ReloadSignal {
    type V = SignalView;

    closed spec fn view(&self) -> SignalView {
        SignalView { generation: self.generation, shutting_down: self.shutting_down }
    }
}

impl ReloadSignal {
    /// A fresh signal: generation zero, not shut down.
    pub fn new() -> (r: ReloadSignal)
        ensures
            r@ == (SignalView { generation: 0, shutting_down: false }),
    {
        ReloadSignal { generation: 0, shutting_down: false }
    }

    /// Announces that there is something new. Never blocks and never fails,
    /// whether or not anyone is watching; the caller then wakes all waiters.
    pub fn notify(&mut self)
        ensures
            final(self)@ == notified(old(self)@),
    {
        if self.generation < u64::MAX {
            self.generation = self.generation + 1;
        }
    }

    /// Marks the signal shut down; the caller then wakes all waiters.
    pub fn shutdown(&mut self)
        ensures
            final(self)@ == shut_down(old(self)@),
    {
        self.shutting_down = true;
    }

    /// Decides what a waiter that last saw generation `last_seen` does now.
    /// The caller evaluates this under the same lock that guards `notify`
    /// and `shutdown`, and parks on the wake primitive while the answer is
    /// `Pending`, so that no wake-up is missed between looking and parking.
    pub fn wait(&self, last_seen: u64) -> (r: WaitOutcome)
        ensures
            r == wait_outcome(self@, last_seen),
    {
        if self.shutting_down {
            WaitOutcome::Closed
        } else if self.generation != last_seen {
            WaitOutcome::Changed(self.generation)
        } else {
            WaitOutcome::Pending
        }
    }

    /// The current generation.
    pub fn current(&self) -> (r: u64)
        ensures
            r == self@.generation,
    {
        self.generation
    }

    /// Whether the signal was shut down.
    pub fn is_shut_down(&self) -> (r: bool)
        ensures
            r == self@.shutting_down,
    {
        self.shutting_down
    }
}

/// The generation never goes back: neither a notification nor a shutdown
/// lowers it, and a shutdown is never undone by a notification.
pub proof fn lemma_generation_monotonic(v: SignalView)
    ensures
        notified(v).generation >= v.generation,
        shut_down(v).generation == v.generation,
        v.shutting_down ==> notified(v).shutting_down,
        v.generation < u64::MAX ==> notified(v).generation == v.generation + 1,
{
}

} // verus!
