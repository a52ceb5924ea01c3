//! The async task bridge: the handles scripts hold over host tasks, and the
//! lifecycle of an interval task.
//!
//! The host tasks themselves run on the concurrent executor outside this
//! crate. The handle bookkeeping — abort at most once, hand the join handle
//! out at most once for awaiting, detach on drop — and the interval
//! lifecycle accounting are decided and proved here.

use vstd::prelude::*;

verus! {

#[verifier::external_type_specification]
#[verifier::external_body]
#[verifier::reject_recursive_types(T)]
pub struct ExJoinHandle<T>(tokio::task::JoinHandle<T>);

#[verifier::external_type_specification]
#[verifier::external_body]
pub struct ExJoinError(tokio::task::JoinError);

/// Relies on tokio::task::JoinHandle::abort: requests cancellation of the
/// task; nothing is promised of when, or whether, the task observes it.
pub assume_specification<T>[ tokio::task::JoinHandle::<T>::abort ](
    h: &tokio::task::JoinHandle<T>,
);

/// A script-visible handle over one host task. Dropping it without aborting
/// or awaiting detaches the task, which then runs to completion.
pub struct TaskHandler {
    pub handler: Option<tokio::task::JoinHandle<()>>,
}

impl TaskHandler {
    pub fn new(handle: tokio::task::JoinHandle<()>) -> (r: TaskHandler)
        ensures
            r.handler is Some,
    {
        TaskHandler { handler: Some(handle) }
    }

    /// Fire-and-forget cancellation: asks the host to cancel the task and
    /// gives the handle up, so a second abort or a later await is a no-op.
    pub fn abort(&mut self)
        ensures
            final(self).handler is None,
    {
        let handler = self.handler.take();
        match handler {
            Some(h) => h.abort(),
            None => {},
        }
    }

    /// Give the join handle up for awaiting; the caller blocks on it outside
    /// this crate, discarding the task's result. At most one taker ever gets
    /// it.
    pub fn take_for_await(&mut self) -> (r: Option<tokio::task::JoinHandle<()>>)
        ensures
            final(self).handler is None,
            r is Some <==> old(self).handler is Some,
    {
        self.handler.take()
    }
}

/// The lifecycle of one interval task, counted in host events: the loop runs
/// the callback (a tick), then sleeps until woken, and repeats until aborted.
pub struct IntervalTask {
    /// How many times the callback was started.
    pub invocations: u64,
    /// The task is between a tick and its wake-up.
    pub sleeping: bool,
    /// Cancellation was requested; no further tick happens.
    pub aborted: bool,
    /// How many sleeps completed.
    pub wakes: u64,
}

impl IntervalTask {
    /// Every run of the callback after the first is paid for by a completed
    /// sleep: the invocation count never exceeds the wake count by more than
    /// one.
    pub open spec fn inv(&self) -> bool {
        self.invocations == self.wakes + (if self.sleeping {
            1int
        } else {
            0int
        })
    }

    /// A freshly spawned interval: nothing ran yet.
    pub fn spawn() -> (r: IntervalTask)
        ensures
            r.inv(),
            r.invocations == 0,
            r.wakes == 0,
            !r.sleeping,
            !r.aborted,
    {
        IntervalTask { invocations: 0, sleeping: false, aborted: false, wakes: 0 }
    }

    /// Run the callback once and go to sleep. Possible only while the task is
    /// neither sleeping nor aborted.
    pub fn tick(&mut self)
        requires
            old(self).inv(),
            !old(self).sleeping,
            !old(self).aborted,
            old(self).invocations < u64::MAX,
        ensures
            final(self).inv(),
            final(self).invocations == old(self).invocations + 1,
            final(self).wakes == old(self).wakes,
            final(self).sleeping,
            !final(self).aborted,
    {
        self.invocations = self.invocations + 1;
        self.sleeping = true;
    }

    /// The sleep completed: the task is ready for its next tick.
    pub fn wake(&mut self)
        requires
            old(self).inv(),
            old(self).sleeping,
            !old(self).aborted,
            old(self).wakes < u64::MAX,
        ensures
            final(self).inv(),
            final(self).wakes == old(self).wakes + 1,
            final(self).invocations == old(self).invocations,
            !final(self).sleeping,
            !final(self).aborted,
    {
        self.wakes = self.wakes + 1;
        self.sleeping = false;
    }

    /// Cancellation arrives, at any point; no tick is possible afterwards.
    pub fn abort(&mut self)
        requires
            old(self).inv(),
        ensures
            final(self).inv(),
            final(self).aborted,
            final(self).invocations == old(self).invocations,
            final(self).wakes == old(self).wakes,
    {
        self.aborted = true;
    }
}

/// Task lifecycle: an interval task aborted before its first sleep ever
/// completes has run its callback at most once — in particular, spawning an
/// interval and aborting it immediately leaves the callback with at most one
/// invocation, whatever interleaving the executor chose.
pub proof fn lemma_abort_bounds_invocations(t: IntervalTask)
    requires
        t.inv(),
        t.wakes == 0,
    ensures
        t.invocations <= 1,
{
}

/// The one-shot task capability: its native callable spawns the callback once.
pub struct LuaTask {}

impl LuaTask {
    /// The internal global name the capability installs.
    pub fn global_name() -> (r: String)
        ensures
            r@ == "astra_internal__spawn_task"@,
    {
        String::from_str("astra_internal__spawn_task")
    }
}

/// The delayed-task capability: its native callable sleeps, then runs the
/// callback once.
pub struct LuaTimeout {}

impl LuaTimeout {
    /// The internal global name the capability installs.
    pub fn global_name() -> (r: String)
        ensures
            r@ == "astra_internal__spawn_timeout"@,
    {
        String::from_str("astra_internal__spawn_timeout")
    }
}

/// The interval capability: its native callable runs the callback, sleeps,
/// and repeats until aborted.
pub struct LuaInterval {}

impl LuaInterval {
    /// The internal global name the capability installs.
    pub fn global_name() -> (r: String)
        ensures
            r@ == "astra_internal__spawn_interval"@,
    {
        String::from_str("astra_internal__spawn_interval")
    }
}

} // verus!
