//! The periodic task scheduler: a task registry with a start/stop lifecycle.
//!
//! The scheduler here is the decision core alone. The background loop thread
//! that drives it — spawn on start, a tick every 100 ms, join on stop — is
//! host plumbing and lives with the host binding, which holds a `Scheduler`
//! behind an exclusion lock and drives it once per tick with a single clock
//! snapshot: through [`Scheduler::tick`] where task bodies never touch the
//! registry, or — where a body may re-enter registration — through
//! [`Scheduler::collect_due`], taken under the lock and invoked after
//! releasing it, so reentrant calls never deadlock against a pass in
//! flight. Explicit [`Scheduler::stop`] runs every task's
//! shutdown hook, in registration order; tearing the scheduler down without
//! calling `stop` must still end the loop thread but must not touch the
//! hooks, since the host runtime may already be finalizing — that asymmetry
//! is deliberate, and the hook pass therefore lives only in `stop`.

use vstd::prelude::*;
use crate::host::CancelSignal;
use crate::host::HostCallable;
use crate::seq_facts::lemma_filter_keeps_everything;
use crate::seq_facts::lemma_filter_push;
use crate::seq_facts::lemma_filter_removes_one;
use crate::task::Task;

verus! {

/// The predicate an unregistration filters the registry with: keep every
/// task whose identity differs from the one being removed.
pub open spec fn keeps_id<C>(id: u64) -> spec_fn(Task<C>) -> bool {
    |t: Task<C>| t.id != id
}

/// The predicate selecting the tasks due at one clock snapshot.
pub open spec fn due_at<C: HostCallable>(now_ms: u64) -> spec_fn(Task<C>) -> bool {
    |t: Task<C>| t.is_due(now_ms)
}

/// The task registry and lifecycle state.
///
/// `running` says whether a loop thread is supposed to be driving ticks; the
/// thread itself belongs to the host binding.
pub struct Scheduler<C> {
    pub tasks: Vec<Task<C>>,
    pub running: bool,
}

impl<C: HostCallable> Scheduler<C> {
    /// The registry invariant: no task identity appears twice.
    pub open spec fn wf(self) -> bool {
        forall|i: int, j: int|
            0 <= i < j < self.tasks@.len() ==> self.tasks@[i].id != self.tasks@[j].id
    }

    /// Whether a task with identity `id` is registered.
    pub open spec fn has_task(self, id: u64) -> bool {
        exists|i: int| 0 <= i < self.tasks@.len() && self.tasks@[i].id == id
    }

    /// Constructs a scheduler with an empty registry. With `auto_start` the
    /// scheduler comes up already in the running state, so the host binding
    /// starts its loop thread at once.
    pub fn new(auto_start: bool) -> (s: Scheduler<C>)
        ensures
            s.wf(),
            s.tasks@.len() == 0,
            s.running == auto_start,
    {
        Scheduler { tasks: Vec::new(), running: auto_start }
    }

    /// Adds `task` at the end of the registry, unless a task with the same
    /// identity is already registered, in which case nothing changes.
    #[verifier::loop_isolation(false)]
    pub fn register_task(&mut self, task: Task<C>)
        requires
            old(self).wf(),
        ensures
            final(self).wf(),
            final(self).running == old(self).running,
            old(self).has_task(task.id) ==> final(self).tasks@ == old(self).tasks@,
            !old(self).has_task(task.id) ==> final(self).tasks@ == old(self).tasks@.push(task),
            final(self).has_task(task.id),
    {
        let n = self.tasks.len();
        let mut i: usize = 0;
        while i < n
            invariant
                *self == *old(self),
                n == self.tasks@.len(),
                i <= n,
                forall|k: int| 0 <= k < i ==> self.tasks@[k].id != task.id,
            decreases n - i,
        {
            if self.tasks[i].id == task.id {
                proof {
                    assert(self.tasks@[i as int].id == task.id);
                }
                return ;
            }
            i += 1;
        }
        self.tasks.push(task);
        proof {
            assert(self.tasks@[self.tasks@.len() - 1].id == task.id);
        }
    }

    /// Removes the task with identity `id`; a no-op when none is registered.
    /// The surviving tasks keep their registration order.
    #[verifier::loop_isolation(false)]
    pub fn unregister_task(&mut self, id: u64)
        requires
            old(self).wf(),
        ensures
            final(self).wf(),
            final(self).running == old(self).running,
            final(self).tasks@ == old(self).tasks@.filter(keeps_id(id)),
            !final(self).has_task(id),
            !old(self).has_task(id) ==> final(self).tasks@ == old(self).tasks@,
            old(self).has_task(id) ==> final(self).tasks@.len() + 1 == old(self).tasks@.len(),
    {
        let ghost pred = keeps_id::<C>(id);
        let n = self.tasks.len();
        let mut i: usize = 0;
        while i < n
            invariant
                *self == *old(self),
                n == self.tasks@.len(),
                i <= n,
                forall|k: int| 0 <= k < i ==> self.tasks@[k].id != id,
            decreases n - i,
        {
            if self.tasks[i].id == id {
                let ghost j = i as int;
                self.tasks.remove(i);
                proof {
                    assert(old(self).tasks@[j].id == id);
                    lemma_filter_removes_one(old(self).tasks@, j, pred);
                    old(self).tasks@.remove_ensures(j);
                    assert forall|k: int| 0 <= k < self.tasks@.len() implies self.tasks@[k].id
                        != id by {
                        if k < j {
                            assert(self.tasks@[k] == old(self).tasks@[k]);
                        } else {
                            assert(self.tasks@[k] == old(self).tasks@[k + 1]);
                        }
                    }
                }
                return ;
            }
            i += 1;
        }
        proof {
            lemma_filter_keeps_everything(self.tasks@, pred);
        }
    }

    /// Constructs a task from its parts and registers it; the same
    /// identity-based deduplication as [`Scheduler::register_task`] applies.
    pub fn schedule(
        &mut self,
        id: u64,
        name: String,
        interval_ms: u64,
        now_ms: u64,
        body: C,
        on_shutdown: Option<C>,
    )
        requires
            old(self).wf(),
        ensures
            final(self).wf(),
            final(self).running == old(self).running,
            old(self).has_task(id) ==> final(self).tasks@ == old(self).tasks@,
            !old(self).has_task(id) ==> final(self).tasks@ == old(self).tasks@.push(
                (Task { id, name, interval_ms, last_run_ms: now_ms, body, on_shutdown }),
            ),
    {
        let task = Task::new(id, name, interval_ms, now_ms, body, on_shutdown);
        self.register_task(task);
    }

    /// One pass of the background loop over the registry: runs every due
    /// task once, in registration order, with the single clock snapshot
    /// `now_ms`, and polls the host's cancellation signal before each task.
    ///
    /// Returns how many tasks the pass reached: every task before that point
    /// was run exactly when due (its `last_run_ms` advanced to `now_ms`),
    /// and every task from that point on is untouched because the host
    /// cancelled the pass.
    #[verifier::loop_isolation(false)]
    pub fn tick<S: CancelSignal>(&mut self, now_ms: u64, signal: &S) -> (reached: usize)
        requires
            old(self).wf(),
        ensures
            final(self).wf(),
            final(self).running == old(self).running,
            final(self).tasks@.len() == old(self).tasks@.len(),
            reached <= old(self).tasks@.len(),
            forall|k: int|
                0 <= k < reached ==> final(self).tasks@[k] == old(self).tasks@[k].ticked(now_ms),
            forall|k: int|
                reached <= k < old(self).tasks@.len()
                    ==> final(self).tasks@[k] == old(self).tasks@[k],
    {
        let n = self.tasks.len();
        let mut i: usize = 0;
        while i < n
            invariant
                self.running == old(self).running,
                n == self.tasks@.len(),
                old(self).tasks@.len() == n,
                i <= n,
                forall|k: int|
                    0 <= k < i ==> self.tasks@[k] == old(self).tasks@[k].ticked(now_ms),
                forall|k: int| i <= k < n ==> self.tasks@[k] == old(self).tasks@[k],
                old(self).wf(),
            decreases n - i,
        {
            if signal.is_cancelled() {
                proof {
                    assert(forall|k: int|
                        0 <= k < n ==> self.tasks@[k].id == old(self).tasks@[k].id);
                }
                return i;
            }
            let _ = self.tasks[i].run(now_ms);
            i += 1;
        }
        proof {
            assert(forall|k: int| 0 <= k < n ==> self.tasks@[k].id == old(self).tasks@[k].id);
        }
        n
    }

    /// The lock-friendly task pass: advances `last_run_ms` to `now_ms` on
    /// every due task and hands back the identity and a clone of the body of
    /// each, in registration order, without invoking anything.
    ///
    /// A binding whose task bodies may re-enter registration takes this
    /// under its lock, releases, then invokes the clones — reentrant
    /// `register_task` or `unregister_task` calls then find the lock free
    /// instead of deadlocking against a pass in flight — and may poll its
    /// cancellation signal between invocations itself.
    #[verifier::loop_isolation(false)]
    pub fn collect_due(&mut self, now_ms: u64) -> (due: Vec<(u64, C)>) where C: Clone
        requires
            old(self).wf(),
        ensures
            final(self).wf(),
            final(self).running == old(self).running,
            final(self).tasks@.len() == old(self).tasks@.len(),
            forall|k: int|
                0 <= k < old(self).tasks@.len()
                    ==> final(self).tasks@[k] == old(self).tasks@[k].ticked(now_ms),
            due@.len() == old(self).tasks@.filter(due_at(now_ms)).len(),
            forall|k: int|
                0 <= k < due@.len() ==> due@[k].0 == old(self).tasks@.filter(due_at(now_ms))[k].id,
    {
        let ghost pred = due_at::<C>(now_ms);
        let mut due: Vec<(u64, C)> = Vec::new();
        let n = self.tasks.len();
        let mut i: usize = 0;
        while i < n
            invariant
                n == self.tasks@.len(),
                old(self).tasks@.len() == n,
                i <= n,
                self.running == old(self).running,
                forall|k: int|
                    0 <= k < i ==> self.tasks@[k] == old(self).tasks@[k].ticked(now_ms),
                forall|k: int| i <= k < n ==> self.tasks@[k] == old(self).tasks@[k],
                due@.len() == old(self).tasks@.take(i as int).filter(pred).len(),
                forall|k: int|
                    0 <= k < due@.len() ==> due@[k].0 == old(self).tasks@.take(i as int).filter(
                        pred,
                    )[k].id,
            decreases n - i,
        {
            proof {
                lemma_filter_push(
                    old(self).tasks@.take(i as int),
                    old(self).tasks@[i as int],
                    pred,
                );
                assert(old(self).tasks@.take(i as int).push(old(self).tasks@[i as int])
                    =~= old(self).tasks@.take(i as int + 1));
            }
            let is_due_now = now_ms >= self.tasks[i].last_run_ms && now_ms
                - self.tasks[i].last_run_ms >= self.tasks[i].interval_ms;
            if is_due_now {
                let id = self.tasks[i].id;
                let body = self.tasks[i].body.clone();
                due.push((id, body));
                self.tasks[i].last_run_ms = now_ms;
            }
            i += 1;
        }
        proof {
            assert(old(self).tasks@.take(n as int) =~= old(self).tasks@);
            assert(forall|k: int| 0 <= k < n ==> self.tasks@[k].id == old(self).tasks@[k].id);
        }
        due
    }

    /// Flips the scheduler into the running state; a no-op when it is
    /// already running. Returns whether this call started it, in which case
    /// the host binding owes it a loop thread.
    pub fn start(&mut self) -> (started: bool)
        ensures
            final(self).running,
            final(self).tasks@ == old(self).tasks@,
            started == !old(self).running,
    {
        if self.running {
            return false;
        }
        self.running = true;
        true
    }

    /// Takes the scheduler out of the running state and invokes every
    /// registered task's shutdown hook exactly once, in registration order;
    /// a no-op when the scheduler is not running. Returns whether this call
    /// stopped it, in which case the host binding must already have joined
    /// the loop thread before calling in.
    #[verifier::loop_isolation(false)]
    pub fn stop(&mut self) -> (stopped: bool)
        ensures
            !final(self).running,
            final(self).tasks@ == old(self).tasks@,
            stopped == old(self).running,
    {
        if !self.running {
            return false;
        }
        self.running = false;
        let n = self.tasks.len();
        let mut i: usize = 0;
        while i < n
            invariant
                self.tasks@ == old(self).tasks@,
                !self.running,
                n == self.tasks@.len(),
                i <= n,
            decreases n - i,
        {
            self.tasks[i].shutdown();
            i += 1;
        }
        true
    }
}

} // verus!
