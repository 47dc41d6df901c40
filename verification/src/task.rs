//! A single named, interval-driven unit of background work with an optional
//! shutdown hook.

use vstd::prelude::*;
use crate::host::HostCallable;

verus! {

/// A periodic task owned by the scheduler's registry.
///
/// `id` is the task's identity, used for deduplication on registration and
/// for removal. Times are milliseconds on a single monotone-enough clock:
/// the scheduler snapshots the clock once per tick and hands the snapshot in.
pub struct Task<C> {
    pub id: u64,
    pub name: String,
    pub interval_ms: u64,
    pub last_run_ms: u64,
    pub body: C,
    pub on_shutdown: Option<C>,
}

impl<C: HostCallable> Task<C> {
    /// A task is due when a full interval has elapsed since it last ran.
    /// A task with interval 0 is due on every tick.
    pub open spec fn is_due(self, now_ms: u64) -> bool {
        now_ms >= self.last_run_ms + self.interval_ms
    }

    /// The task's state after one tick at `now_ms`: `last_run_ms` advances to
    /// `now_ms` exactly when the task was due, and nothing else changes.
    pub open spec fn ticked(self, now_ms: u64) -> Task<C> {
        if self.is_due(now_ms) {
            Task { last_run_ms: now_ms, ..self }
        } else {
            self
        }
    }

    /// Constructs a task that last ran at `now_ms`, so its first execution
    /// falls one full interval after construction.
    pub fn new(
        id: u64,
        name: String,
        interval_ms: u64,
        now_ms: u64,
        body: C,
        on_shutdown: Option<C>,
    ) -> (t: Task<C>)
        ensures
            t == (Task { id, name, interval_ms, last_run_ms: now_ms, body, on_shutdown }),
    {
        Task { id, name, interval_ms, last_run_ms: now_ms, body, on_shutdown }
    }

    /// Runs the task body if the task is due at `now_ms`, and reports whether
    /// it ran.
    ///
    /// `last_run_ms` advances to `now_ms` whether or not the body raised: an
    /// error from a task body is swallowed at this layer and never reaches
    /// the scheduler loop.
    pub fn run(&mut self, now_ms: u64) -> (ran: bool)
        ensures
            ran == old(self).is_due(now_ms),
            *final(self) == old(self).ticked(now_ms),
    {
        if now_ms >= self.last_run_ms && now_ms - self.last_run_ms >= self.interval_ms {
            let _ = self.body.invoke();
            self.last_run_ms = now_ms;
            true
        } else {
            false
        }
    }

    /// Invokes the shutdown hook, if the task has one. An error raised by the
    /// hook is swallowed the same way as a body error.
    pub fn shutdown(&self) {
        match &self.on_shutdown {
            Some(hook) => {
                let _ = hook.invoke();
            },
            None => {},
        }
    }
}

/// Law: a task never runs more than once per interval. After a run at
/// `now_ms`, the task is not due again at any instant short of one full
/// interval later.
pub proof fn lemma_not_due_before_next_interval<C: HostCallable>(
    t: Task<C>,
    now_ms: u64,
    later_ms: u64,
)
    requires
        t.is_due(now_ms),
        later_ms < now_ms + t.interval_ms,
    ensures
        !t.ticked(now_ms).is_due(later_ms),
{
}

/// Law: a task is never skipped. At any instant a full interval or more past
/// its last run, the task is due, so a tick at that instant runs it.
pub proof fn lemma_due_once_interval_elapsed<C: HostCallable>(t: Task<C>, now_ms: u64)
    requires
        now_ms >= t.last_run_ms + t.interval_ms,
    ensures
        t.is_due(now_ms),
{
}

/// The task's state after `k` ticks, each taken exactly one interval after
/// the previous run.
pub open spec fn on_cadence<C: HostCallable>(t: Task<C>, k: nat) -> Task<C>
    decreases k,
{
    if k == 0 {
        t
    } else {
        let prev = on_cadence(t, (k - 1) as nat);
        prev.ticked((prev.last_run_ms + prev.interval_ms) as u64)
    }
}

/// Law: a task registered with `last_run_ms == T` and interval `I`, ticked at
/// every interval boundary, runs at `T + I`, `T + 2 I`, and so on: after `k`
/// such ticks its last run stands at exactly `T + k * I`.
pub proof fn lemma_exact_cadence<C: HostCallable>(t: Task<C>, k: nat)
    requires
        t.last_run_ms + k * t.interval_ms <= u64::MAX,
    ensures
        on_cadence(t, k).last_run_ms == t.last_run_ms + k * t.interval_ms,
        on_cadence(t, k).interval_ms == t.interval_ms,
        on_cadence(t, k).id == t.id,
    decreases k,
{
    if k > 0 {
        let km1 = (k - 1) as nat;
        assert(km1 * t.interval_ms + t.interval_ms == k * t.interval_ms) by (nonlinear_arith)
            requires
                km1 + 1 == k,
        ;
        lemma_exact_cadence(t, km1);
        let prev = on_cadence(t, km1);
        assert(prev.last_run_ms + prev.interval_ms <= u64::MAX);
        let now = (prev.last_run_ms + prev.interval_ms) as u64;
        assert(prev.is_due(now));
        assert(on_cadence(t, k) == prev.ticked(now));
        assert(now == prev.last_run_ms + prev.interval_ms);
        assert(now == t.last_run_ms + k * t.interval_ms);
        assert(on_cadence(t, k).last_run_ms == now);
    } else {
        assert(on_cadence(t, k) == t);
        assert(k * t.interval_ms == 0) by (nonlinear_arith)
            requires
                k == 0,
        ;
    }
}

} // verus!
