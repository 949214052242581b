//! The shutdown orchestrator: one supervisory state machine per server.
//!
//! The orchestrator starts in `Running` and races the cancellation
//! signal against unexpected transport-task termination. On the graceful
//! path it drains the transport under a bounded wait, then polls the
//! in-flight request count to zero under an independent bound, then
//! tears dependent resources down, and finally fires the completion
//! event exactly once. On the emergency path (the transport stopped
//! before any cancellation) it skips the transport wait but still runs
//! the whole common tail, so shutdown never hangs and resources are
//! still released.
//!
//! The machine only decides; the caller performs each returned action
//! (await the transport, sleep and poll, run the hook registry, deliver
//! the completion event) and reports the observed outcome back as the
//! next event.

use vstd::prelude::*;

verus! {

/// Upper bound, in milliseconds, on waiting for in-flight request
/// handlers to finish before dependent resources are torn down anyway.
pub const REQUEST_DRAIN_TIMEOUT_MS: u64 = 30000;

/// How long to sleep between two reads of the in-flight request count.
pub const REQUEST_POLL_INTERVAL_MS: u64 = 100;

/// Where the orchestrator stands in the phased shutdown.
#[derive(Clone, Copy, Debug, PartialEq, Eq, Structural)]
pub enum Phase {
    /// Serving traffic; no shutdown condition observed yet.
    Running,
    /// Cancellation observed; waiting (bounded) for the transport task.
    DrainingTransport,
    /// Polling the in-flight request count down to zero (bounded).
    WaitingForRequests,
    /// Running the dependent-resource registry.
    ShuttingDownManagers,
    /// Shutdown finished and the completion event has been fired.
    Done,
}

/// What the caller observed and reports to the orchestrator.
#[derive(Clone, Copy, Debug, PartialEq, Eq, Structural)]
pub enum OrchestratorEvent {
    /// The cancellation signal is set.
    CancelObserved,
    /// The transport task finished (expected while draining; an error
    /// condition while still running).
    TransportStopped,
    /// The bounded wait for the transport task elapsed.
    TransportWaitExpired,
    /// The in-flight request count reached zero.
    RequestsDrained,
    /// The bounded wait for in-flight requests elapsed.
    RequestWaitExpired,
    /// Every registered hook has been attempted.
    ManagersFinished,
}

/// What the caller must do next.
#[derive(Clone, Copy, Debug, PartialEq, Eq, Structural)]
pub enum OrchestratorAction {
    /// Wait for the transport task, but no longer than the carried
    /// budget in milliseconds.
    AwaitTransport(u64),
    /// Poll the in-flight request count (sleeping between reads).
    PollRequests,
    /// Run the shutdown-hook registry, last registered hook first.
    RunManagerShutdown,
    /// Deliver the completion event to the waiting handle.
    FireCompletion,
    /// Nothing: the event does not apply to the current phase.
    Ignore,
}

/// The phase after observing `ev` in phase `p`.
pub open spec fn spec_transition(p: Phase, ev: OrchestratorEvent) -> Phase {
    match p {
        Phase::Running => match ev {
            OrchestratorEvent::CancelObserved => Phase::DrainingTransport,
            OrchestratorEvent::TransportStopped => Phase::WaitingForRequests,
            _ => p,
        },
        Phase::DrainingTransport => match ev {
            OrchestratorEvent::TransportStopped => Phase::WaitingForRequests,
            OrchestratorEvent::TransportWaitExpired => Phase::WaitingForRequests,
            _ => p,
        },
        Phase::WaitingForRequests => match ev {
            OrchestratorEvent::RequestsDrained => Phase::ShuttingDownManagers,
            OrchestratorEvent::RequestWaitExpired => Phase::ShuttingDownManagers,
            _ => p,
        },
        Phase::ShuttingDownManagers => match ev {
            OrchestratorEvent::ManagersFinished => Phase::Done,
            _ => p,
        },
        Phase::Done => p,
    }
}

/// Whether the step from `p` on `ev` delivers the completion event.
pub open spec fn spec_fires(p: Phase, ev: OrchestratorEvent) -> bool {
    p is ShuttingDownManagers && ev is ManagersFinished
}

/// The action the caller is handed for the step from `p` on `ev`,
/// with `wait_ms` as the bounded transport-wait budget.
pub open spec fn spec_action(p: Phase, ev: OrchestratorEvent, wait_ms: u64) -> OrchestratorAction {
    match (spec_transition(p, ev), p) {
        (Phase::DrainingTransport, Phase::Running) => OrchestratorAction::AwaitTransport(wait_ms),
        (Phase::WaitingForRequests, Phase::Running) => OrchestratorAction::PollRequests,
        (Phase::WaitingForRequests, Phase::DrainingTransport) => OrchestratorAction::PollRequests,
        (Phase::ShuttingDownManagers, Phase::WaitingForRequests)
            => OrchestratorAction::RunManagerShutdown,
        (Phase::Done, Phase::ShuttingDownManagers) => OrchestratorAction::FireCompletion,
        _ => OrchestratorAction::Ignore,
    }
}

/// The phase after a whole run of events, applied in order.
pub open spec fn run_phases(p: Phase, evs: Seq<OrchestratorEvent>) -> Phase
    decreases evs.len(),
{
    if evs.len() == 0 {
        p
    } else {
        spec_transition(run_phases(p, evs.drop_last()), evs.last())
    }
}

/// How many steps of the run deliver the completion event.
pub open spec fn count_completions(p: Phase, evs: Seq<OrchestratorEvent>) -> int
    decreases evs.len(),
{
    if evs.len() == 0 {
        0
    } else {
        count_completions(p, evs.drop_last()) + if spec_fires(
            run_phases(p, evs.drop_last()),
            evs.last(),
        ) {
            1int
        } else {
            0int
        }
    }
}

/// Whether the step from `p` on `ev` hands out the manager-shutdown
/// action: only the step that ends the request-drain phase does, so no
/// dependent resource is torn down while a request handler might still
/// reference it.
pub open spec fn spec_runs_managers(p: Phase, ev: OrchestratorEvent) -> bool {
    p is WaitingForRequests && (ev is RequestsDrained || ev is RequestWaitExpired)
}

/// How many steps of the run hand out the manager-shutdown action.
pub open spec fn count_manager_runs(p: Phase, evs: Seq<OrchestratorEvent>) -> int
    decreases evs.len(),
{
    if evs.len() == 0 {
        0
    } else {
        count_manager_runs(p, evs.drop_last()) + if spec_runs_managers(
            run_phases(p, evs.drop_last()),
            evs.last(),
        ) {
            1int
        } else {
            0int
        }
    }
}

/// The dependent-resource registry is driven exactly once on every run
/// that gets as far as tearing resources down, and never on one that
/// does not — and always strictly after the request-drain phase ended,
/// since only that phase's exit step hands the action out.
pub proof fn lemma_managers_run_exactly_once(p: Phase, evs: Seq<OrchestratorEvent>)
    requires
        p is Running || p is DrainingTransport || p is WaitingForRequests,
    ensures
        count_manager_runs(p, evs) == if run_phases(p, evs) is ShuttingDownManagers || run_phases(
            p,
            evs,
        ) is Done {
            1int
        } else {
            0int
        },
    decreases evs.len(),
{
    if evs.len() > 0 {
        lemma_managers_run_exactly_once(p, evs.drop_last());
    }
}

/// `Done` is terminal: no later event leaves it, and no later step
/// fires the completion event again.
pub proof fn lemma_done_is_terminal(evs: Seq<OrchestratorEvent>)
    ensures
        run_phases(Phase::Done, evs) == Phase::Done,
        count_completions(Phase::Done, evs) == 0,
    decreases evs.len(),
{
    if evs.len() > 0 {
        lemma_done_is_terminal(evs.drop_last());
    }
}

/// The completion event is delivered exactly once on every run that
/// reaches `Done`, and never more than once on any run at all — no
/// matter how many times cancellation (or any other event) is reported.
pub proof fn lemma_completion_fires_exactly_once(p: Phase, evs: Seq<OrchestratorEvent>)
    requires
        !(p is Done),
    ensures
        count_completions(p, evs) == if run_phases(p, evs) is Done {
            1int
        } else {
            0int
        },
    decreases evs.len(),
{
    if evs.len() > 0 {
        let prefix = evs.drop_last();
        lemma_completion_fires_exactly_once(p, prefix);
    }
}

/// The shutdown supervisor for one server instance.
///
/// Holds the current phase and the bounded transport-wait budget
/// (the drain share of the overall shutdown timeout plus the fixed
/// safety margin).
pub struct Orchestrator {
    phase: Phase,
    transport_wait_ms: u64,
    emergency: bool,
}

impl Orchestrator {
    /// The current phase.
    pub closed spec fn phase(&self) -> Phase {
        self.phase
    }

    /// The budget handed out with `AwaitTransport`.
    pub closed spec fn transport_wait(&self) -> u64 {
        self.transport_wait_ms
    }

    /// Whether the transport stopped before cancellation was observed.
    /// This path is always an error condition and is reported
    /// differently, but shutdown proceeds over the same common tail.
    pub closed spec fn is_emergency(&self) -> bool {
        self.emergency
    }

    /// A fresh orchestrator in `Running`, with the given bounded
    /// transport-wait budget in milliseconds.
    pub fn new(transport_wait_ms: u64) -> (o: Orchestrator)
        ensures
            o.phase() is Running,
            o.transport_wait() == transport_wait_ms,
            !o.is_emergency(),
    {
        Orchestrator { phase: Phase::Running, transport_wait_ms, emergency: false }
    }

    /// Read the current phase.
    pub fn current_phase(&self) -> (p: Phase)
        ensures
            p == self.phase(),
    {
        self.phase
    }

    /// Whether the transport died unexpectedly.
    pub fn emergency(&self) -> (r: bool)
        ensures
            r == self.is_emergency(),
    {
        self.emergency
    }

    /// Observe one event and decide the next step of the shutdown.
    pub fn on_event(&mut self, ev: OrchestratorEvent) -> (a: OrchestratorAction)
        ensures
            final(self).phase() == spec_transition(old(self).phase(), ev),
            a == spec_action(old(self).phase(), ev, old(self).transport_wait()),
            a is FireCompletion <==> spec_fires(old(self).phase(), ev),
            final(self).transport_wait() == old(self).transport_wait(),
            final(self).is_emergency() <==> old(self).is_emergency() || (old(self).phase()
                is Running && ev is TransportStopped),
    {
        let next = match self.phase {
            Phase::Running => match ev {
                OrchestratorEvent::CancelObserved => Phase::DrainingTransport,
                OrchestratorEvent::TransportStopped => Phase::WaitingForRequests,
                _ => self.phase,
            },
            Phase::DrainingTransport => match ev {
                OrchestratorEvent::TransportStopped => Phase::WaitingForRequests,
                OrchestratorEvent::TransportWaitExpired => Phase::WaitingForRequests,
                _ => self.phase,
            },
            Phase::WaitingForRequests => match ev {
                OrchestratorEvent::RequestsDrained => Phase::ShuttingDownManagers,
                OrchestratorEvent::RequestWaitExpired => Phase::ShuttingDownManagers,
                _ => self.phase,
            },
            Phase::ShuttingDownManagers => match ev {
                OrchestratorEvent::ManagersFinished => Phase::Done,
                _ => self.phase,
            },
            Phase::Done => self.phase,
        };
        let action = match (next, self.phase) {
            (Phase::DrainingTransport, Phase::Running) => OrchestratorAction::AwaitTransport(
                self.transport_wait_ms,
            ),
            (Phase::WaitingForRequests, Phase::Running) => OrchestratorAction::PollRequests,
            (Phase::WaitingForRequests, Phase::DrainingTransport)
                => OrchestratorAction::PollRequests,
            (Phase::ShuttingDownManagers, Phase::WaitingForRequests)
                => OrchestratorAction::RunManagerShutdown,
            (Phase::Done, Phase::ShuttingDownManagers) => OrchestratorAction::FireCompletion,
            _ => OrchestratorAction::Ignore,
        };
        if matches!((next, self.phase), (Phase::WaitingForRequests, Phase::Running)) {
            self.emergency = true;
        }
        self.phase = next;
        action
    }
}

/// What one read of the in-flight request count means for the drain
/// wait.
#[derive(Clone, Copy, Debug, PartialEq, Eq, Structural)]
pub enum DrainPoll {
    /// All request handlers have completed.
    Drained,
    /// Handlers are still active but the drain budget has elapsed:
    /// proceed with shutdown anyway rather than hang.
    Expired,
    /// Handlers are still active and budget remains: sleep and poll
    /// again.
    KeepWaiting,
}

/// Decide one iteration of the request-drain poll loop from the count
/// of active handlers and the time already spent draining.
pub fn drain_poll(active: usize, elapsed_ms: u64) -> (r: DrainPoll)
    ensures
        r is Drained <==> active == 0,
        r is Expired <==> active > 0 && elapsed_ms > REQUEST_DRAIN_TIMEOUT_MS,
        r is KeepWaiting <==> active > 0 && elapsed_ms <= REQUEST_DRAIN_TIMEOUT_MS,
{
    if active == 0 {
        DrainPoll::Drained
    } else if elapsed_ms > REQUEST_DRAIN_TIMEOUT_MS {
        DrainPoll::Expired
    } else {
        DrainPoll::KeepWaiting
    }
}

} // verus!
