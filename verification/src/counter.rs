//! In-flight request accounting.
//!
//! `ActiveRequestCounter` is the single source of truth the shutdown
//! orchestrator consults while draining: it counts the request-handler
//! scopes currently open. A scope calls `enter` when it begins and
//! `exit` when it ends, on every exit path.

use vstd::prelude::*;

verus! {

/// One step of request accounting: a handler scope opening or closing.
#[derive(Clone, Copy, Debug, PartialEq, Eq, Structural)]
pub enum CounterOp {
    Enter,
    Exit,
}

/// The counter value after applying `ops` in order, starting from `start`.
/// Each `Enter` adds one and each `Exit` removes one.
pub open spec fn apply_ops(start: int, ops: Seq<CounterOp>) -> int
    decreases ops.len(),
{
    if ops.len() == 0 {
        start
    } else {
        let rest = apply_ops(start, ops.drop_last());
        match ops.last() {
            CounterOp::Enter => rest + 1,
            CounterOp::Exit => rest - 1,
        }
    }
}

/// How many of `ops` are `Enter` steps.
pub open spec fn count_enters(ops: Seq<CounterOp>) -> int
    decreases ops.len(),
{
    if ops.len() == 0 {
        0
    } else {
        count_enters(ops.drop_last()) + if ops.last() is Enter {
            1int
        } else {
            0int
        }
    }
}

/// How many of `ops` are `Exit` steps.
pub open spec fn count_exits(ops: Seq<CounterOp>) -> int
    decreases ops.len(),
{
    if ops.len() == 0 {
        0
    } else {
        count_exits(ops.drop_last()) + if ops.last() is Exit {
            1int
        } else {
            0int
        }
    }
}

/// Applying any run of operations moves the counter by exactly the
/// number of scopes opened minus the number closed.
pub proof fn lemma_apply_ops_net(start: int, ops: Seq<CounterOp>)
    ensures
        apply_ops(start, ops) == start + count_enters(ops) - count_exits(ops),
    decreases ops.len(),
{
    if ops.len() > 0 {
        lemma_apply_ops_net(start, ops.drop_last());
    }
}

/// Round trip of in-flight guards: after any interleaving of scope
/// openings and closings in which every opened scope has closed again
/// (as many `Exit`s as `Enter`s), the counter is back at its value from
/// before the scopes were acquired.
pub proof fn lemma_balanced_ops_restore(start: int, ops: Seq<CounterOp>)
    requires
        count_enters(ops) == count_exits(ops),
    ensures
        apply_ops(start, ops) == start,
{
    lemma_apply_ops_net(start, ops);
}

/// Count of request-handler scopes currently open.
///
/// The value equals the number of `enter` calls not yet matched by an
/// `exit` call; the orchestrator waits for it to reach zero before it
/// tears down dependent resources.
pub struct ActiveRequestCounter {
    count: usize,
}

impl ActiveRequestCounter {
    /// A counter with no scope open.
    pub fn new() -> (c: ActiveRequestCounter)
        ensures
            c.count() == 0,
    {
        ActiveRequestCounter { count: 0 }
    }

    /// The number of scopes currently open.
    pub closed spec fn count(&self) -> int {
        self.count as int
    }

    /// Read the current number of open scopes.
    pub fn current(&self) -> (n: usize)
        ensures
            n as int == self.count(),
    {
        self.count
    }

    /// A request-handler scope begins.
    pub fn enter(&mut self)
        requires
            old(self).count() < usize::MAX,
        ensures
            final(self).count() == old(self).count() + 1,
    {
        self.count = self.count + 1;
    }

    /// A request-handler scope ends, on any exit path.
    pub fn exit(&mut self)
        requires
            old(self).count() > 0,
        ensures
            final(self).count() == old(self).count() - 1,
    {
        self.count = self.count - 1;
    }

    /// True when no request handler is in flight, so draining is done.
    pub fn is_drained(&self) -> (r: bool)
        ensures
            r <==> self.count() == 0,
    {
        self.count == 0
    }
}

} // verus!
