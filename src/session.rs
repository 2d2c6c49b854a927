//! One subscriber of the live-reload stream.
//!
//! A session remembers only the last generation it reported. Each time it
//! looks at the signal it either emits one event (and catches up to the
//! current generation), parks until woken, or closes for good.

use vstd::prelude::*;
use crate::reload::{ReloadSignal, SignalView, WaitOutcome, notified, notified_times, shut_down, wait_outcome};

verus! {

/// The bytes of one server-sent event frame that asks the page to reload.
pub open spec fn reload_frame() -> Seq<u8> {
    seq![
        100u8, 97, 116, 97, 58, 32, 114, 101, 108, 111, 97, 100, 10, 10,
    ]
}

/// What a session does after one look at the signal.
#[derive(PartialEq, Eq, Structural, Clone, Copy, Debug)]
pub enum SessionStep {
    /// Send one reload event to the client, then look again.
    Emit,
    /// Park on the wake primitive, then look again.
    Park,
    /// End the stream: the server is shutting down.
    Close,
}

/// The step a session that last saw `last_seen` takes on a signal in state
/// `v`, and the generation it has seen afterwards.
pub open spec fn session_step(v: SignalView, last_seen: u64) -> (SessionStep, u64) {
    match wait_outcome(v, last_seen) {
        WaitOutcome::Closed => (SessionStep::Close, last_seen),
        WaitOutcome::Changed(g) => (SessionStep::Emit, g),
        WaitOutcome::Pending => (SessionStep::Park, last_seen),
    }
}

/// A subscriber of the reload signal.
pub struct SseSession {
    last_seen: u64,
}

impl SseSession {
    /// Subscribes at the signal's current generation: only later
    /// notifications produce events.
    pub fn subscribe(signal: &ReloadSignal) -> (r: SseSession)
        ensures
            r.last_seen() == signal@.generation,
    {
        SseSession { last_seen: signal.current() }
    }

    /// The last generation this session reported (or subscribed at).
    pub closed spec fn last_seen(&self) -> u64 {
        self.last_seen
    }

    /// The last generation this session reported (or subscribed at).
    pub fn seen(&self) -> (r: u64)
        ensures
            r == self.last_seen(),
    {
        self.last_seen
    }

    /// Looks at the signal once. After any number of notifications the
    /// session emits a single event and catches up to the latest
    /// generation; once the signal is shut down it closes.
    pub fn step(&mut self, signal: &ReloadSignal) -> (r: SessionStep)
        ensures
            (r, final(self).last_seen()) == session_step(signal@, old(self).last_seen()),
    {
        match signal.wait(self.last_seen) {
            WaitOutcome::Closed => SessionStep::Close,
            WaitOutcome::Changed(g) => {
                self.last_seen = g;
                SessionStep::Emit
            },
            WaitOutcome::Pending => SessionStep::Park,
        }
    }

    /// The frame to write to the client for one `Emit` step.
    pub fn frame() -> (r: Vec<u8>)
        ensures
            r@ == reload_frame(),
    {
        let r = vec![
            100u8, 97, 116, 97, 58, 32, 114, 101, 108, 111, 97, 100, 10, 10,
        ];
        assert(r@ =~= reload_frame());
        r
    }
}

/// Notifications never lower the generation.
pub proof fn lemma_notified_times_grows(v: SignalView, n: nat)
    ensures
        notified_times(v, n).generation >= v.generation,
        notified_times(v, n).shutting_down == v.shutting_down,
        v.generation + n <= u64::MAX ==> notified_times(v, n).generation == v.generation + n,
    decreases n,
{
    if n > 0 {
        lemma_notified_times_grows(v, (n - 1) as nat);
    }
}

/// Coalescing: a session that subscribed at the signal's generation and then
/// missed `n >= 1` notifications emits exactly one event on its next look,
/// which brings it to the final generation; the look after that parks.
pub proof fn lemma_missed_notifications_coalesce(v: SignalView, n: nat)
    requires
        !v.shutting_down,
        n >= 1,
        v.generation + n <= u64::MAX,
    ensures
        ({
            let w = notified_times(v, n);
            &&& session_step(w, v.generation) == (SessionStep::Emit, w.generation)
            &&& session_step(w, w.generation) == (SessionStep::Park, w.generation)
        }),
{
    lemma_notified_times_grows(v, n);
}

/// A session only ever moves forward, and never past the signal: if it has
/// not seen beyond the signal's generation, the same holds after a step.
pub proof fn lemma_session_monotonic(v: SignalView, last_seen: u64)
    requires
        last_seen <= v.generation,
    ensures
        last_seen <= session_step(v, last_seen).1 <= v.generation,
{
}

/// A notification reaches a waiting session: one that has caught up with
/// the signal emits after the next notification, unless the counter is
/// already at its largest value.
pub proof fn lemma_notify_wakes(v: SignalView)
    requires
        !v.shutting_down,
        v.generation < u64::MAX,
    ensures
        session_step(v, v.generation).0 == SessionStep::Park,
        session_step(notified(v), v.generation).0 == SessionStep::Emit,
{
}

/// Shutdown ends every session, whatever it last saw and however many
/// notifications come after.
pub proof fn lemma_shutdown_closes(v: SignalView, last_seen: u64, n: nat)
    ensures
        session_step(notified_times(shut_down(v), n), last_seen) == (SessionStep::Close, last_seen),
{
    lemma_notified_times_grows(shut_down(v), n);
}

} // verus!
