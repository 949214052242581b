//! The external control surface of a running server.
//!
//! `wait_for_completion` must always give the caller a definitive
//! outcome: completed, timed out (the shutdown is taking longer than the
//! caller's budget), or signal lost (the orchestrator task died before
//! firing completion — a different operational failure than a timeout,
//! and the two must stay distinguishable).

use vstd::prelude::*;
use crate::signal::CompletionStatus;

verus! {

/// Why waiting for shutdown completion did not succeed.
#[derive(Clone, Copy, Debug, PartialEq, Eq, Structural)]
pub enum ShutdownError {
    /// The timeout budget (in milliseconds) elapsed while shutdown
    /// operations were still in progress.
    Timeout(u64),
    /// The completion signal was lost: its writer went away without
    /// firing. The shutdown may have finished, but that can no longer
    /// be confirmed.
    SignalLost,
}

/// The outcome `wait_for_completion` owes its caller, given what the
/// bounded wait observed.
///
/// A wait that sees the event delivered returns success. A wait that
/// sees the writer gone without delivery reports `SignalLost`. A wait
/// whose budget elapsed while the event was still pending reports
/// `Timeout` carrying that budget.
pub open spec fn spec_completion_outcome(observed: CompletionStatus, timeout_ms: u64) -> Result<
    (),
    ShutdownError,
> {
    match observed {
        CompletionStatus::Fired => Ok(()),
        CompletionStatus::Lost => Err(ShutdownError::SignalLost),
        CompletionStatus::Pending => Err(ShutdownError::Timeout(timeout_ms)),
    }
}

/// Classify what a bounded wait for the completion event observed.
///
/// `observed` is the event status when the wait ended: `Fired` if the
/// event arrived within the budget, `Lost` if the writer was gone, and
/// `Pending` if the budget of `timeout_ms` elapsed first.
pub fn completion_outcome(observed: CompletionStatus, timeout_ms: u64) -> (r: Result<
    (),
    ShutdownError,
>)
    ensures
        r == spec_completion_outcome(observed, timeout_ms),
        r is Ok <==> observed is Fired,
        r == Err::<(), ShutdownError>(ShutdownError::SignalLost) <==> observed is Lost,
        r == Err::<(), ShutdownError>(ShutdownError::Timeout(timeout_ms)) <==> observed is Pending,
{
    match observed {
        CompletionStatus::Fired => Ok(()),
        CompletionStatus::Lost => Err(ShutdownError::SignalLost),
        CompletionStatus::Pending => Err(ShutdownError::Timeout(timeout_ms)),
    }
}

} // verus!
