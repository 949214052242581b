//! Cancellation and completion signalling.
//!
//! `CancellationSignal` is a boolean-once latch: once cancelled it stays
//! cancelled, and cancelling again changes nothing. `CompletionEvent`
//! models the single-fire completion side of the shutdown handshake:
//! the orchestrator fires it at most once, and a reader observes either
//! the delivered event, a pending event, or a lost one (the writer went
//! away without firing).

use vstd::prelude::*;

verus! {

/// Broadcastable, idempotent "begin shutdown" latch.
///
/// Level-triggered: once `cancel` has been called, every later read
/// observes the cancelled state; there is no way back to the initial
/// state.
pub struct CancellationSignal {
    cancelled: bool,
}

impl CancellationSignal {
    /// Whether shutdown has been requested.
    pub closed spec fn is_set(&self) -> bool {
        self.cancelled
    }

    /// A fresh signal; shutdown has not been requested.
    pub fn new() -> (s: CancellationSignal)
        ensures
            !s.is_set(),
    {
        CancellationSignal { cancelled: false }
    }

    /// Request shutdown. Idempotent: the state after the call is the
    /// cancelled state no matter how often the signal was cancelled
    /// before, so repeated callers cannot disturb one another.
    pub fn cancel(&mut self)
        ensures
            final(self).is_set(),
    {
        self.cancelled = true;
    }

    /// Observe the latch. Never blocks in this model; a waiter simply
    /// polls until this returns true, and once it does it stays true.
    pub fn is_cancelled(&self) -> (r: bool)
        ensures
            r <==> self.is_set(),
    {
        self.cancelled
    }
}

/// Cancelling is idempotent: however many times `cancel` runs, the
/// signal ends in the one cancelled state, so any number of callers
/// (including none before a later one) leave the same state behind.
pub proof fn lemma_cancel_idempotent(s1: CancellationSignal, s2: CancellationSignal)
    requires
        s1.is_set(),
        s2.is_set(),
    ensures
        s1 == s2,
{
}

/// What has become of the single-fire completion event.
#[derive(Clone, Copy, Debug, PartialEq, Eq, Structural)]
pub enum CompletionStatus {
    /// Not fired yet; the writer is still alive.
    Pending,
    /// Fired, exactly once.
    Fired,
    /// The writer went away without firing: the orchestrator died
    /// before reaching its completion point.
    Lost,
}

/// Single-fire, single-consumer completion event.
///
/// The orchestrator owns the writing side; `fire` moves a pending event
/// to `Fired` and is the only transition out of `Pending` besides the
/// writer being dropped (`lose`). A fired or lost event never changes
/// again.
pub struct CompletionEvent {
    status: CompletionStatus,
}

impl CompletionEvent {
    /// The current status of the event.
    pub closed spec fn status(&self) -> CompletionStatus {
        self.status
    }

    /// A fresh, unfired event.
    pub fn new() -> (e: CompletionEvent)
        ensures
            e.status() is Pending,
    {
        CompletionEvent { status: CompletionStatus::Pending }
    }

    /// Deliver the completion event. Only a pending event can fire, so
    /// it is delivered at most once.
    pub fn fire(&mut self)
        requires
            old(self).status() is Pending,
        ensures
            final(self).status() is Fired,
    {
        self.status = CompletionStatus::Fired;
    }

    /// The writer goes away without having fired: the event is lost.
    pub fn lose(&mut self)
        requires
            old(self).status() is Pending,
        ensures
            final(self).status() is Lost,
    {
        self.status = CompletionStatus::Lost;
    }

    /// Read the status.
    pub fn current(&self) -> (r: CompletionStatus)
        ensures
            r == self.status(),
    {
        self.status
    }
}

} // verus!
