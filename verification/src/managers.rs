//! The dependent-resource registry.
//!
//! Shutdown hooks are registered in startup order and torn down in
//! reverse (LIFO): a hook registered after another is assumed to depend
//! on it and must go first. The registry is fail-slow — every hook is
//! attempted, one hook's failure or timeout never prevents the rest —
//! and the aggregate result is an error exactly when at least one hook
//! did not succeed, carrying the count of failing hooks.

use vstd::prelude::*;

verus! {

/// Time budget, in milliseconds, granted to each individual hook. The
/// caller driving hooks under a timer reports an expired hook with
/// `outcome_of(None)`.
pub const PER_MANAGER_TIMEOUT_MS: u64 = 10000;

/// The error a shutdown hook reports.
pub struct HookError {
    pub message: String,
}

/// Capability exposed by a dependent resource that needs teardown
/// (a session manager, a process pool, a tunnel, an index writer, …).
/// Implemented by the resource's owner; the registry never copies the
/// resource, only invokes this.
pub trait ShutdownHook {
    /// Release the resource. An error is recorded and reported in the
    /// aggregate, but never stops the remaining hooks.
    fn shutdown(&self) -> Result<(), HookError>;
}

/// How one hook's teardown attempt ended.
#[derive(Clone, Copy, Debug, PartialEq, Eq, Structural)]
pub enum HookOutcome {
    Succeeded,
    Failed,
    /// The hook did not return within its time budget.
    TimedOut,
}

/// Classify the result of driving one hook under its time budget:
/// `None` means the budget elapsed before the hook returned.
pub fn outcome_of(result: Option<Result<(), HookError>>) -> (r: HookOutcome)
    ensures
        r is Succeeded <==> result matches Some(Ok(())),
        r is TimedOut <==> result is None,
        r is Failed <==> (result matches Some(res) && res is Err),
{
    match result {
        None => HookOutcome::TimedOut,
        Some(Ok(())) => HookOutcome::Succeeded,
        Some(Err(_)) => HookOutcome::Failed,
    }
}

/// One attempted hook: its registration index and how it ended.
/// Reports list entries in invocation order, so index order descending
/// is exactly LIFO teardown.
pub struct ShutdownReport {
    pub outcomes: Vec<(usize, HookOutcome)>,
}

/// The aggregate error: how many of the attempted hooks failed or
/// timed out.
#[derive(Clone, Copy, Debug, PartialEq, Eq, Structural)]
pub struct ShutdownFailure {
    pub failed: usize,
    pub total: usize,
}

/// Number of outcomes in `s` that are not `Succeeded`.
pub open spec fn count_failed(s: Seq<(usize, HookOutcome)>) -> int
    decreases s.len(),
{
    if s.len() == 0 {
        0
    } else {
        count_failed(s.drop_last()) + if s.last().1 is Succeeded {
            0int
        } else {
            1int
        }
    }
}

proof fn lemma_count_failed_bound(s: Seq<(usize, HookOutcome)>)
    ensures
        0 <= count_failed(s) <= s.len(),
    decreases s.len(),
{
    if s.len() > 0 {
        lemma_count_failed_bound(s.drop_last());
    }
}

proof fn lemma_count_failed_zero(s: Seq<(usize, HookOutcome)>)
    ensures
        count_failed(s) == 0 <==> (forall|i: int|
            0 <= i < s.len() ==> s[i].1 is Succeeded),
    decreases s.len(),
{
    if s.len() > 0 {
        lemma_count_failed_zero(s.drop_last());
        lemma_count_failed_bound(s.drop_last());
        assert(forall|i: int| 0 <= i < s.len() - 1 ==> s[i] == s.drop_last()[i]);
    }
}

/// Fold the attempted outcomes into the single aggregate result: an
/// error if and only if at least one hook failed or timed out, carrying
/// the exact count of failing hooks and the total attempted.
pub fn aggregate_outcomes(outcomes: &Vec<(usize, HookOutcome)>) -> (r: Result<
    (),
    ShutdownFailure,
>)
    ensures
        r is Ok <==> forall|i: int| 0 <= i < outcomes@.len() ==> outcomes@[i].1 is Succeeded,
        r matches Err(f) ==> f.failed == count_failed(outcomes@) && f.total == outcomes@.len()
            && f.failed > 0,
{
    let n = outcomes.len();
    let mut failed: usize = 0;
    let mut i: usize = 0;
    proof {
        assert(outcomes@.subrange(0, 0) =~= Seq::<(usize, HookOutcome)>::empty());
    }
    while i < n
        invariant
            i <= n,
            n == outcomes@.len(),
            failed == count_failed(outcomes@.subrange(0, i as int)),
            failed <= i,
        decreases n - i,
    {
        proof {
            assert(outcomes@.subrange(0, i + 1).drop_last() =~= outcomes@.subrange(0, i as int));
            assert(outcomes@.subrange(0, i + 1).last() == outcomes@[i as int]);
        }
        if !matches!(outcomes[i].1, HookOutcome::Succeeded) {
            failed = failed + 1;
        }
        i = i + 1;
    }
    proof {
        assert(outcomes@.subrange(0, n as int) =~= outcomes@);
        lemma_count_failed_zero(outcomes@);
    }
    if failed == 0 {
        Ok(())
    } else {
        Err(ShutdownFailure { failed, total: n })
    }
}

/// Container for the dependent resources that require explicit
/// shutdown. Populated during startup (before traffic begins), drained
/// exactly once during shutdown: a second `shutdown` call sees an empty
/// registry and reports nothing.
pub struct Managers<H> {
    hooks: Vec<H>,
}

impl<H: ShutdownHook> Managers<H> {
    /// The registered hooks, in registration order.
    pub closed spec fn hooks(&self) -> Seq<H> {
        self.hooks@
    }

    /// An empty registry.
    pub fn new() -> (m: Managers<H>)
        ensures
            m.hooks() =~= Seq::<H>::empty(),
    {
        Managers { hooks: Vec::new() }
    }

    /// Register a component that needs shutdown. Appends: registration
    /// order defines teardown order (reverse).
    pub fn register(&mut self, hook: H)
        ensures
            final(self).hooks() == old(self).hooks().push(hook),
    {
        self.hooks.push(hook);
    }

    /// How many hooks are currently registered.
    pub fn len(&self) -> (n: usize)
        ensures
            n == self.hooks().len(),
    {
        self.hooks.len()
    }

    /// Shut every registered hook down, sequentially, in reverse
    /// registration order, never stopping at a failure (fail-slow).
    ///
    /// The report lists one entry per registered hook, in invocation
    /// order; entry `i` carries registration index `n - 1 - i`, i.e.
    /// the last-registered hook is attempted first. Afterwards the
    /// registry is drained, so a second call attempts nothing.
    pub fn shutdown(&mut self) -> (report: ShutdownReport)
        ensures
            report.outcomes@.len() == old(self).hooks().len(),
            forall|i: int|
                0 <= i < report.outcomes@.len() ==> report.outcomes@[i].0 + 1 + i == old(
                    self,
                ).hooks().len(),
            final(self).hooks() =~= Seq::<H>::empty(),
    {
        let n = self.hooks.len();
        let mut outcomes: Vec<(usize, HookOutcome)> = Vec::new();
        let mut done: usize = 0;
        while done < n
            invariant
                done <= n,
                n == self.hooks@.len(),
                self.hooks@ == old(self).hooks(),
                outcomes@.len() == done,
                forall|i: int| 0 <= i < done ==> outcomes@[i].0 + 1 + i == n,
            decreases n - done,
        {
            let idx = n - 1 - done;
            let result = self.hooks[idx].shutdown();
            let outcome = outcome_of(Some(result));
            outcomes.push((idx, outcome));
            done = done + 1;
        }
        self.hooks.clear();
        ShutdownReport { outcomes }
    }
}

} // verus!
