use std::cell::RefCell;
use std::rc::Rc;

use server_lifecycle::config::{
    session_keep_alive, shutdown_timeout_ms, split_shutdown_budget, transport_wait_ms,
    validate_port, AddressError,
};
use server_lifecycle::counter::ActiveRequestCounter;
use server_lifecycle::handle::{completion_outcome, ShutdownError};
use server_lifecycle::managers::{
    aggregate_outcomes, outcome_of, HookError, HookOutcome, Managers, ShutdownHook,
};
use server_lifecycle::orchestrator::{
    drain_poll, DrainPoll, Orchestrator, OrchestratorAction, OrchestratorEvent, Phase,
};
use server_lifecycle::signal::{CancellationSignal, CompletionEvent, CompletionStatus};

#[test]
fn counter_round_trip_restores_start_value() {
    let mut counter = ActiveRequestCounter::new();
    counter.enter();
    counter.enter();
    let before = counter.current();
    // Three more guards acquired and released, interleaved.
    counter.enter();
    counter.enter();
    counter.exit();
    counter.enter();
    counter.exit();
    counter.exit();
    assert_eq!(counter.current(), before);
    counter.exit();
    counter.exit();
    assert_eq!(counter.current(), 0);
    assert!(counter.is_drained());
}

#[test]
fn counter_tracks_each_scope() {
    let mut counter = ActiveRequestCounter::new();
    assert!(counter.is_drained());
    counter.enter();
    assert_eq!(counter.current(), 1);
    assert!(!counter.is_drained());
    counter.exit();
    assert_eq!(counter.current(), 0);
}

#[test]
fn cancel_is_idempotent() {
    let mut signal = CancellationSignal::new();
    assert!(!signal.is_cancelled());
    signal.cancel();
    assert!(signal.is_cancelled());
    signal.cancel();
    signal.cancel();
    assert!(signal.is_cancelled());
}

#[test]
fn completion_event_fires_once() {
    let mut event = CompletionEvent::new();
    assert!(matches!(event.current(), CompletionStatus::Pending));
    event.fire();
    assert!(matches!(event.current(), CompletionStatus::Fired));
}

#[test]
fn wait_outcome_is_three_way() {
    assert!(completion_outcome(CompletionStatus::Fired, 500).is_ok());
    assert_eq!(
        completion_outcome(CompletionStatus::Pending, 500),
        Err(ShutdownError::Timeout(500))
    );
    assert_eq!(
        completion_outcome(CompletionStatus::Lost, 500),
        Err(ShutdownError::SignalLost)
    );
}

#[test]
fn wait_outcome_from_real_channel() {
    let runtime = tokio::runtime::Builder::new_current_thread()
        .enable_time()
        .build()
        .unwrap();
    // The writer goes away without firing: the caller observes the
    // lost signal, not a timeout.
    let observed = runtime.block_on(async {
        let (tx, mut rx) = tokio::sync::oneshot::channel::<()>();
        drop(tx);
        match tokio::time::timeout(std::time::Duration::from_millis(50), &mut rx).await {
            Ok(Ok(())) => CompletionStatus::Fired,
            Ok(Err(_)) => CompletionStatus::Lost,
            Err(_) => CompletionStatus::Pending,
        }
    });
    assert_eq!(completion_outcome(observed, 50), Err(ShutdownError::SignalLost));
    // The budget elapses while the event is still pending.
    let observed = runtime.block_on(async {
        let (_tx, mut rx) = tokio::sync::oneshot::channel::<()>();
        match tokio::time::timeout(std::time::Duration::from_millis(10), &mut rx).await {
            Ok(Ok(())) => CompletionStatus::Fired,
            Ok(Err(_)) => CompletionStatus::Lost,
            Err(_) => CompletionStatus::Pending,
        }
    });
    assert_eq!(completion_outcome(observed, 10), Err(ShutdownError::Timeout(10)));
    // The event arrives within the budget.
    let observed = runtime.block_on(async {
        let (tx, mut rx) = tokio::sync::oneshot::channel::<()>();
        tx.send(()).unwrap();
        match tokio::time::timeout(std::time::Duration::from_millis(50), &mut rx).await {
            Ok(Ok(())) => CompletionStatus::Fired,
            Ok(Err(_)) => CompletionStatus::Lost,
            Err(_) => CompletionStatus::Pending,
        }
    });
    assert_eq!(completion_outcome(observed, 50), Ok(()));
}

#[test]
fn orchestrator_graceful_path() {
    let mut orchestrator = Orchestrator::new(7000);
    assert!(matches!(orchestrator.current_phase(), Phase::Running));
    let action = orchestrator.on_event(OrchestratorEvent::CancelObserved);
    assert_eq!(action, OrchestratorAction::AwaitTransport(7000));
    assert!(matches!(orchestrator.current_phase(), Phase::DrainingTransport));
    // A second cancellation is level-triggered noise.
    let action = orchestrator.on_event(OrchestratorEvent::CancelObserved);
    assert_eq!(action, OrchestratorAction::Ignore);
    let action = orchestrator.on_event(OrchestratorEvent::TransportStopped);
    assert_eq!(action, OrchestratorAction::PollRequests);
    let action = orchestrator.on_event(OrchestratorEvent::RequestsDrained);
    assert_eq!(action, OrchestratorAction::RunManagerShutdown);
    let action = orchestrator.on_event(OrchestratorEvent::ManagersFinished);
    assert_eq!(action, OrchestratorAction::FireCompletion);
    assert!(matches!(orchestrator.current_phase(), Phase::Done));
    assert!(!orchestrator.emergency());
    // Done is terminal: no event fires completion again.
    let action = orchestrator.on_event(OrchestratorEvent::ManagersFinished);
    assert_eq!(action, OrchestratorAction::Ignore);
    let action = orchestrator.on_event(OrchestratorEvent::CancelObserved);
    assert_eq!(action, OrchestratorAction::Ignore);
}

#[test]
fn orchestrator_emergency_path() {
    let mut orchestrator = Orchestrator::new(7000);
    // The transport task stops before any cancellation: an error
    // condition, but shutdown proceeds over the common tail.
    let action = orchestrator.on_event(OrchestratorEvent::TransportStopped);
    assert_eq!(action, OrchestratorAction::PollRequests);
    assert!(orchestrator.emergency());
    let action = orchestrator.on_event(OrchestratorEvent::RequestWaitExpired);
    assert_eq!(action, OrchestratorAction::RunManagerShutdown);
    let action = orchestrator.on_event(OrchestratorEvent::ManagersFinished);
    assert_eq!(action, OrchestratorAction::FireCompletion);
    assert!(matches!(orchestrator.current_phase(), Phase::Done));
}

#[test]
fn drain_poll_decisions() {
    assert_eq!(drain_poll(0, 0), DrainPoll::Drained);
    assert_eq!(drain_poll(0, 999_999), DrainPoll::Drained);
    assert_eq!(drain_poll(3, 29_999), DrainPoll::KeepWaiting);
    assert_eq!(drain_poll(3, 30_000), DrainPoll::KeepWaiting);
    assert_eq!(drain_poll(3, 30_001), DrainPoll::Expired);
}

struct LoggingHook {
    name: &'static str,
    log: Rc<RefCell<Vec<String>>>,
    fail: bool,
}

impl ShutdownHook for LoggingHook {
    fn shutdown(&self) -> Result<(), HookError> {
        self.log.borrow_mut().push(self.name.to_string());
        if self.fail {
            Err(HookError { message: format!("{} refused to close", self.name) })
        } else {
            Ok(())
        }
    }
}

#[test]
fn hooks_run_in_lifo_order() {
    let log: Rc<RefCell<Vec<String>>> = Rc::new(RefCell::new(Vec::new()));
    let mut managers = Managers::new();
    managers.register(LoggingHook { name: "A", log: log.clone(), fail: false });
    managers.register(LoggingHook { name: "B", log: log.clone(), fail: false });
    managers.register(LoggingHook { name: "C", log: log.clone(), fail: false });
    let report = managers.shutdown();
    assert_eq!(log.borrow().as_slice(), ["C", "B", "A"]);
    let ids: Vec<usize> = report.outcomes.iter().map(|o| o.0).collect();
    assert_eq!(ids, [2, 1, 0]);
    assert!(aggregate_outcomes(&report.outcomes).is_ok());
    // The registry drains itself: a second shutdown sees nothing.
    let report = managers.shutdown();
    assert!(report.outcomes.is_empty());
    assert_eq!(log.borrow().len(), 3);
}

#[test]
fn one_failing_hook_never_stops_the_rest() {
    let log: Rc<RefCell<Vec<String>>> = Rc::new(RefCell::new(Vec::new()));
    let mut managers = Managers::new();
    managers.register(LoggingHook { name: "first", log: log.clone(), fail: false });
    managers.register(LoggingHook { name: "middle", log: log.clone(), fail: true });
    managers.register(LoggingHook { name: "last", log: log.clone(), fail: false });
    let report = managers.shutdown();
    assert_eq!(log.borrow().as_slice(), ["last", "middle", "first"]);
    assert_eq!(report.outcomes.len(), 3);
    let aggregate = aggregate_outcomes(&report.outcomes);
    let failure = aggregate.unwrap_err();
    assert_eq!(failure.failed, 1);
    assert_eq!(failure.total, 3);
}

#[test]
fn hung_hook_is_reported_as_timed_out() {
    let runtime = tokio::runtime::Builder::new_current_thread()
        .enable_time()
        .build()
        .unwrap();
    // Drive one hook that never returns under its time budget, the way
    // the runtime loop does, and record what the bounded wait saw.
    let hook_result: Option<Result<(), HookError>> = runtime.block_on(async {
        match tokio::time::timeout(
            std::time::Duration::from_millis(20),
            std::future::pending::<Result<(), HookError>>(),
        )
        .await
        {
            Ok(r) => Some(r),
            Err(_) => None,
        }
    });
    let outcome = outcome_of(hook_result);
    assert_eq!(outcome, HookOutcome::TimedOut);
    let outcomes = vec![(1usize, HookOutcome::Succeeded), (0usize, outcome)];
    let failure = aggregate_outcomes(&outcomes).unwrap_err();
    assert_eq!(failure.failed, 1);
    assert_eq!(failure.total, 2);
}

#[test]
fn outcome_classification() {
    assert_eq!(outcome_of(Some(Ok(()))), HookOutcome::Succeeded);
    assert_eq!(
        outcome_of(Some(Err(HookError { message: "boom".to_string() }))),
        HookOutcome::Failed
    );
    assert_eq!(outcome_of(None), HookOutcome::TimedOut);
}

#[test]
fn shutdown_budget_split() {
    let (drain, cleanup) = split_shutdown_budget(30_000);
    assert_eq!(drain, 21_000);
    assert_eq!(cleanup, 9_000);
    let (drain, cleanup) = split_shutdown_budget(10_000);
    assert_eq!(drain, 7_000);
    assert_eq!(cleanup, 3_000);
    assert_eq!(drain + cleanup, 10_000);
    assert_eq!(transport_wait_ms(21_000), 26_000);
    assert_eq!(shutdown_timeout_ms(30), 30_000);
}

#[test]
fn address_validation() {
    assert_eq!(validate_port(80), Err(AddressError::PrivilegedPort(80)));
    assert_eq!(validate_port(0), Err(AddressError::PrivilegedPort(0)));
    assert_eq!(validate_port(1023), Err(AddressError::PrivilegedPort(1023)));
    assert!(validate_port(1024).is_ok());
    assert!(validate_port(30437).is_ok());
}

#[test]
fn keep_alive_mapping() {
    assert_eq!(session_keep_alive(None), None);
    assert_eq!(session_keep_alive(Some(0)), None);
    assert_eq!(session_keep_alive(Some(3600)), Some(3600));
}

#[test]
fn end_to_end_shutdown_scenario() {
    // Two hooks, registered "closing A" first and "closing B" second;
    // three requests in flight when cancellation arrives.
    let log: Rc<RefCell<Vec<String>>> = Rc::new(RefCell::new(Vec::new()));
    let mut managers = Managers::new();
    managers.register(LoggingHook { name: "closing A", log: log.clone(), fail: false });
    managers.register(LoggingHook { name: "closing B", log: log.clone(), fail: false });

    let mut counter = ActiveRequestCounter::new();
    counter.enter();
    counter.enter();
    counter.enter();

    let mut signal = CancellationSignal::new();
    let (drain, _cleanup) = split_shutdown_budget(30_000);
    let mut orchestrator = Orchestrator::new(transport_wait_ms(drain));

    signal.cancel();
    signal.cancel();
    assert!(signal.is_cancelled());
    let action = orchestrator.on_event(OrchestratorEvent::CancelObserved);
    assert_eq!(action, OrchestratorAction::AwaitTransport(26_000));
    let action = orchestrator.on_event(OrchestratorEvent::TransportStopped);
    assert_eq!(action, OrchestratorAction::PollRequests);

    // The in-flight requests complete before any hook runs.
    let mut elapsed = 0u64;
    loop {
        match drain_poll(counter.current(), elapsed) {
            DrainPoll::Drained => break,
            DrainPoll::Expired => panic!("drain should not expire"),
            DrainPoll::KeepWaiting => {
                assert!(log.borrow().is_empty());
                counter.exit();
                elapsed += 100;
            }
        }
    }
    assert_eq!(counter.current(), 0);
    assert!(log.borrow().is_empty());

    let action = orchestrator.on_event(OrchestratorEvent::RequestsDrained);
    assert_eq!(action, OrchestratorAction::RunManagerShutdown);
    let report = managers.shutdown();
    assert_eq!(log.borrow().as_slice(), ["closing B", "closing A"]);
    assert!(aggregate_outcomes(&report.outcomes).is_ok());

    let mut completion = CompletionEvent::new();
    let action = orchestrator.on_event(OrchestratorEvent::ManagersFinished);
    assert_eq!(action, OrchestratorAction::FireCompletion);
    completion.fire();
    assert_eq!(completion_outcome(completion.current(), 30_000), Ok(()));

    // Late cancellations change nothing and fire nothing.
    signal.cancel();
    let action = orchestrator.on_event(OrchestratorEvent::CancelObserved);
    assert_eq!(action, OrchestratorAction::Ignore);
    assert!(matches!(orchestrator.current_phase(), Phase::Done));
}
