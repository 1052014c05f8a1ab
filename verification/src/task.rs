//! The scheduler of periodic tasks: each task has a cron schedule and the time
//! of its next run, in milliseconds since the Unix epoch. The scheduler picks the
//! task that is due first and, after it has run, finds its next run or drops it.
use vstd::prelude::*;

use crate::config::{cron_accepts, cron_parsed, parse_cron};

verus! {

/// Whether `r` is an answer that croner's search for the next run of `schedule`
/// after `after_ms` can give on the local clock. A relation, not a function: the
/// answer also depends on the machine's time zone.
pub uninterp spec fn next_run_outcome(schedule: croner::Cron, after_ms: i64, r: Option<i64>) -> bool;

/// `Cron::find_next_occurrence` on the local clock, not counting the start: the
/// next time after `after_ms` (milliseconds since the epoch) at which the schedule
/// fires, or nothing when croner finds none or the time cannot be represented.
/// The answer depends on the machine's time zone, so it is stated only as one of
/// the answers the search can give for this schedule and start, lying after the
/// start.
#[verifier::external_body]
fn next_occurrence(schedule: &croner::Cron, after_ms: i64) -> (r: Option<i64>)
    ensures
        next_run_outcome(*schedule, after_ms, r),
        r matches Some(t) ==> t > after_ms,
{
    let start = <chrono::Local as chrono::TimeZone>::timestamp_millis_opt(&chrono::Local, after_ms).single()?;
    schedule.find_next_occurrence(&start, false).ok().map(|t| t.timestamp_millis())
}

/// `Vec::shrink_to_fit`: gives back spare capacity, the contents unchanged.
#[verifier::external_body]
fn shrink_tasks<T>(v: &mut Vec<TaskHolder<T>>)
    ensures
        final(v)@ == old(v)@,
{
    v.shrink_to_fit()
}

/// Why the scheduler cannot take or go on running tasks.
#[derive(Debug, Clone, Copy, PartialEq, Eq, Structural)]
pub enum TaskError {
    /// croner does not accept the schedule.
    InvalidSchedule,
    /// The schedule has no next run.
    NoNextRun,
    /// There is no task at all.
    NoTasks,
    /// No task has a next run.
    NoSchedulableTasks,
}

/// A task with its schedule and the time of its next run.
pub struct TaskHolder<T> {
    pub task: T,
    pub schedule: croner::Cron,
    pub next_event: i64,
}

/// Collects the tasks of a scheduler.
pub struct TaskManagerBuilder<T> {
    tasks: Vec<TaskHolder<T>>,
}

/// Runs tasks at the times their schedules give.
pub struct TaskManager<T> {
    tasks: Vec<TaskHolder<T>>,
}

/// The slots after a removal that moves the last slot into the gap.
pub open spec fn swap_removed<A>(s: Seq<A>, i: int) -> Seq<A> {
    s.update(i, s.last()).drop_last()
}

/// The tasks after their next runs were computed from position `i` on: a task
/// whose computation gave a time takes it; one that gave none is dropped, the last
/// task taking its place (and the place's computation being looked at next).
pub open spec fn refreshed<T>(tasks: Seq<TaskHolder<T>>, outcomes: Seq<Option<i64>>, i: int) -> Seq<TaskHolder<T>>
    decreases tasks.len() - i,
{
    if i < 0 || i >= tasks.len() || outcomes.len() != tasks.len() {
        tasks
    } else {
        match outcomes[i] {
            Some(t) => refreshed(
                tasks.update(i, TaskHolder { task: tasks[i].task, schedule: tasks[i].schedule, next_event: t }),
                outcomes,
                i + 1,
            ),
            None => refreshed(swap_removed(tasks, i), swap_removed(outcomes, i), i),
        }
    }
}

/// The tasks after the task at `idx` got an outcome for its next run: the run, the
/// task and its schedule staying; or, with none, the task dropped, the others
/// keeping their order.
pub open spec fn rescheduled<T>(tasks: Seq<TaskHolder<T>>, idx: int, outcome: Option<i64>) -> Seq<TaskHolder<T>> {
    match outcome {
        Some(t) => tasks.update(idx, TaskHolder { task: tasks[idx].task, schedule: tasks[idx].schedule, next_event: t }),
        None => tasks.remove(idx),
    }
}

/// The first position of the earliest next run.
pub open spec fn is_first_earliest<T>(tasks: Seq<TaskHolder<T>>, k: int) -> bool {
    &&& 0 <= k < tasks.len()
    &&& forall|j: int| 0 <= j < tasks.len() ==> tasks[k].next_event <= #[trigger] tasks[j].next_event
    &&& forall|j: int| 0 <= j < k ==> tasks[k].next_event < #[trigger] tasks[j].next_event
}

impl<T> TaskManagerBuilder<T> {
    /// The tasks collected so far, in the order in which they were added.
    pub closed spec fn view_tasks(&self) -> Seq<TaskHolder<T>> {
        self.tasks@
    }

    /// A builder with no task.
    pub fn new() -> (r: Self)
        ensures
            r.view_tasks() == Seq::<TaskHolder<T>>::empty(),
    {
        TaskManagerBuilder { tasks: Vec::new() }
    }

    /// Adds a task under the schedule that croner makes of `schedule_spec`, with its
    /// first run after `now_ms`.
    pub fn add_task(&mut self, task: T, schedule_spec: &str, now_ms: i64) -> (r: Result<(), TaskError>)
        ensures
            !cron_accepts(schedule_spec@) ==> r == Err::<(), TaskError>(TaskError::InvalidSchedule)
                && final(self).view_tasks() == old(self).view_tasks(),
            cron_accepts(schedule_spec@) ==> exists|o: Option<i64>|
                next_run_outcome(cron_parsed(schedule_spec@)->Some_0, now_ms, o) && match r {
                    Ok(()) => o == Some(final(self).view_tasks().last().next_event)
                        && final(self).view_tasks().len() == old(self).view_tasks().len() + 1
                        && final(self).view_tasks().drop_last() == old(self).view_tasks()
                        && final(self).view_tasks().last().task == task
                        && cron_parsed(schedule_spec@) == Some(final(self).view_tasks().last().schedule)
                        && final(self).view_tasks().last().next_event > now_ms,
                    Err(e) => o is None && e == TaskError::NoNextRun && final(self).view_tasks()
                        == old(self).view_tasks(),
                },
    {
        let schedule = match parse_cron(schedule_spec) {
            Ok(c) => c,
            Err(_) => {
                return Err(TaskError::InvalidSchedule);
            },
        };
        let outcome = next_occurrence(&schedule, now_ms);
        let next_event = match outcome {
            Some(t) => t,
            None => {
                assert(next_run_outcome(cron_parsed(schedule_spec@)->Some_0, now_ms, outcome));
                return Err(TaskError::NoNextRun);
            },
        };
        self.tasks.push(TaskHolder { task, schedule, next_event });
        assert(self.tasks@.drop_last() =~= old(self).tasks@);
        assert(next_run_outcome(cron_parsed(schedule_spec@)->Some_0, now_ms, outcome));
        Ok(())
    }

    /// `add_task`, in the chaining style.
    pub fn with_task(self, task: T, schedule_spec: &str, now_ms: i64) -> (r: Result<Self, TaskError>)
        ensures
            !cron_accepts(schedule_spec@) ==> r is Err && r->Err_0 == TaskError::InvalidSchedule,
            cron_accepts(schedule_spec@) ==> exists|o: Option<i64>|
                next_run_outcome(cron_parsed(schedule_spec@)->Some_0, now_ms, o) && match r {
                    Ok(b) => o == Some(b.view_tasks().last().next_event)
                        && b.view_tasks().len() == self.view_tasks().len() + 1
                        && b.view_tasks().drop_last() == self.view_tasks()
                        && b.view_tasks().last().task == task
                        && cron_parsed(schedule_spec@) == Some(b.view_tasks().last().schedule)
                        && b.view_tasks().last().next_event > now_ms,
                    Err(e) => o is None && e == TaskError::NoNextRun,
                },
    {
        let mut b = self;
        match b.add_task(task, schedule_spec, now_ms) {
            Ok(()) => Ok(b),
            Err(e) => Err(e),
        }
    }

    /// The scheduler of the collected tasks, in the same order.
    pub fn build(self) -> (r: TaskManager<T>)
        ensures
            r.view_tasks() == self.view_tasks(),
    {
        let mut tasks = self.tasks;
        shrink_tasks(&mut tasks);
        TaskManager { tasks }
    }
}

impl<T> TaskManager<T> {
    /// The tasks, in the scheduler's order.
    pub closed spec fn view_tasks(&self) -> Seq<TaskHolder<T>> {
        self.tasks@
    }

    /// A builder with no task.
    pub fn builder() -> (r: TaskManagerBuilder<T>)
        ensures
            r.view_tasks() == Seq::<TaskHolder<T>>::empty(),
    {
        TaskManagerBuilder::new()
    }

    /// The number of tasks.
    pub fn len(&self) -> (r: usize)
        ensures
            r == self.view_tasks().len(),
    {
        self.tasks.len()
    }

    /// The time of a task's next run.
    pub fn next_event(&self, idx: usize) -> (r: i64)
        requires
            idx < self.view_tasks().len(),
        ensures
            r == self.view_tasks()[idx as int].next_event,
    {
        self.tasks[idx].next_event
    }

    /// Sets the tasks' next runs from the computed outcomes, one per task in order:
    /// a task without a next run is dropped, the last task taking its place.
    pub fn apply_refresh(&mut self, outcomes: Vec<Option<i64>>)
        requires
            outcomes@.len() == old(self).view_tasks().len(),
        ensures
            final(self).view_tasks() == refreshed(old(self).view_tasks(), outcomes@, 0),
    {
        let mut outs = outcomes;
        let mut i: usize = 0;
        while i < self.tasks.len()
            invariant
                outs@.len() == self.tasks@.len(),
                i <= self.tasks@.len(),
                refreshed(old(self).tasks@, outcomes@, 0) == refreshed(self.tasks@, outs@, i as int),
            decreases self.tasks@.len() - i,
        {
            match outs[i] {
                Some(t) => {
                    let ghost before = self.tasks@;
                    let holder = self.tasks.remove(i);
                    self.tasks.insert(i, TaskHolder { task: holder.task, schedule: holder.schedule, next_event: t });
                    assert(self.tasks@ =~= before.update(i as int, TaskHolder { task: before[i as int].task, schedule: before[i as int].schedule, next_event: t }));
                    i = i + 1;
                },
                None => {
                    self.tasks.swap_remove(i);
                    outs.swap_remove(i);
                },
            }
        }
    }

    /// Computes every task's next run after `now_ms` and drops the tasks that have
    /// none (as `apply_refresh` does with the computed runs). Fails when there is no
    /// task, or none is left.
    pub fn refresh(&mut self, now_ms: i64) -> (r: Result<(), TaskError>)
        ensures
            old(self).view_tasks().len() == 0 ==> r == Err::<(), TaskError>(TaskError::NoTasks),
            old(self).view_tasks().len() > 0 ==> (r is Ok <==> final(self).view_tasks().len() > 0),
            r == Err::<(), TaskError>(TaskError::NoSchedulableTasks) ==> final(self).view_tasks().len() == 0,
            final(self).view_tasks().len() <= old(self).view_tasks().len(),
            old(self).view_tasks().len() > 0 ==> forall|j: int|
                0 <= j < final(self).view_tasks().len() ==> #[trigger] final(self).view_tasks()[j].next_event > now_ms,
            old(self).view_tasks().len() > 0 ==> exists|outcomes: Seq<Option<i64>>|
                outcomes.len() == old(self).view_tasks().len() && (forall|k: int|
                    0 <= k < outcomes.len() ==> (#[trigger] outcomes[k] matches Some(t) ==> t > now_ms)
                        && next_run_outcome(old(self).view_tasks()[k].schedule, now_ms, outcomes[k]))
                    && final(self).view_tasks() == refreshed(old(self).view_tasks(), outcomes, 0),
    {
        if self.tasks.len() == 0 {
            return Err(TaskError::NoTasks);
        }
        let mut outcomes: Vec<Option<i64>> = Vec::new();
        let mut i: usize = 0;
        while i < self.tasks.len()
            invariant
                i <= self.tasks@.len(),
                outcomes@.len() == i,
                self.tasks@ == old(self).tasks@,
                forall|k: int| 0 <= k < i ==> (#[trigger] outcomes@[k] matches Some(t) ==> t > now_ms)
                    && next_run_outcome(self.tasks@[k].schedule, now_ms, outcomes@[k]),
            decreases self.tasks@.len() - i,
        {
            outcomes.push(next_occurrence(&self.tasks[i].schedule, now_ms));
            i = i + 1;
        }
        let ghost outs = outcomes@;
        self.apply_refresh(outcomes);
        proof {
            lemma_refreshed_len(old(self).tasks@, outs, 0);
            lemma_refreshed_after(old(self).tasks@, outs, 0, now_ms);
            assert(outs.len() == old(self).tasks@.len() && (forall|k: int|
                0 <= k < outs.len() ==> (#[trigger] outs[k] matches Some(t) ==> t > now_ms)
                    && next_run_outcome(old(self).tasks@[k].schedule, now_ms, outs[k]))
                && self.tasks@ == refreshed(old(self).tasks@, outs, 0));
        }
        if self.tasks.len() == 0 {
            Err(TaskError::NoSchedulableTasks)
        } else {
            Ok(())
        }
    }

    /// The first task whose next run is the earliest.
    pub fn next_due(&self) -> (r: usize)
        requires
            self.view_tasks().len() > 0,
        ensures
            is_first_earliest(self.view_tasks(), r as int),
    {
        let mut next: usize = 0;
        let mut i: usize = 1;
        while i < self.tasks.len()
            invariant
                self.tasks@.len() > 0,
                1 <= i <= self.tasks@.len(),
                next < i,
                forall|j: int| 0 <= j < i ==> self.tasks@[next as int].next_event <= #[trigger] self.tasks@[j].next_event,
                forall|j: int| 0 <= j < next ==> self.tasks@[next as int].next_event < #[trigger] self.tasks@[j].next_event,
            decreases self.tasks@.len() - i,
        {
            if self.tasks[i].next_event < self.tasks[next].next_event {
                next = i;
            }
            i = i + 1;
        }
        next
    }

    /// The task at a position, to run it.
    pub fn task_mut(&mut self, idx: usize) -> (r: &mut T)
        requires
            idx < old(self).view_tasks().len(),
        ensures
            *r == old(self).view_tasks()[idx as int].task,
            final(self).view_tasks() == old(self).view_tasks().update(
                idx as int,
                TaskHolder {
                    task: *final(r),
                    schedule: old(self).view_tasks()[idx as int].schedule,
                    next_event: old(self).view_tasks()[idx as int].next_event,
                },
            ),
    {
        &mut self.tasks[idx].task
    }

    /// After a task has run: its next run, if its schedule gives one after the run
    /// it just had, or else the task is dropped, the others keeping their order.
    /// Fails when no task is left.
    pub fn reschedule(&mut self, idx: usize, outcome: Option<i64>) -> (r: Result<(), TaskError>)
        requires
            idx < old(self).view_tasks().len(),
        ensures
            match outcome {
                Some(t) => r is Ok && final(self).view_tasks() == old(self).view_tasks().update(
                    idx as int,
                    TaskHolder {
                        task: old(self).view_tasks()[idx as int].task,
                        schedule: old(self).view_tasks()[idx as int].schedule,
                        next_event: t,
                    },
                ),
                None => final(self).view_tasks() == old(self).view_tasks().remove(idx as int)
                    && (r is Ok <==> final(self).view_tasks().len() > 0)
                    && (r is Err ==> r->Err_0 == TaskError::NoSchedulableTasks),
            },
    {
        match outcome {
            Some(t) => {
                let ghost before = self.tasks@;
                let holder = self.tasks.remove(idx);
                self.tasks.insert(idx, TaskHolder { task: holder.task, schedule: holder.schedule, next_event: t });
                assert(self.tasks@ =~= before.update(idx as int, TaskHolder { task: before[idx as int].task, schedule: before[idx as int].schedule, next_event: t }));
                Ok(())
            },
            None => {
                self.tasks.remove(idx);
                if self.tasks.len() == 0 {
                    Err(TaskError::NoSchedulableTasks)
                } else {
                    Ok(())
                }
            },
        }
    }

    /// After the task at `idx` has run: finds its next run after the one it just
    /// had, the task, its schedule and the other tasks staying as they were; or drops
    /// it, the others keeping their order. Fails when no task is left.
    pub fn after_run(&mut self, idx: usize) -> (r: Result<(), TaskError>)
        requires
            idx < old(self).view_tasks().len(),
        ensures
            final(self).view_tasks().len() == old(self).view_tasks().len()
                || final(self).view_tasks() == old(self).view_tasks().remove(idx as int),
            final(self).view_tasks().len() == old(self).view_tasks().len() ==> r is Ok
                && final(self).view_tasks() == old(self).view_tasks().update(
                    idx as int,
                    TaskHolder {
                        task: old(self).view_tasks()[idx as int].task,
                        schedule: old(self).view_tasks()[idx as int].schedule,
                        next_event: final(self).view_tasks()[idx as int].next_event,
                    },
                )
                && final(self).view_tasks()[idx as int].next_event > old(self).view_tasks()[idx as int].next_event,
            r is Ok <==> final(self).view_tasks().len() > 0,
            exists|o: Option<i64>|
                next_run_outcome(
                    old(self).view_tasks()[idx as int].schedule,
                    old(self).view_tasks()[idx as int].next_event,
                    o,
                ) && final(self).view_tasks() == rescheduled(old(self).view_tasks(), idx as int, o),
    {
        let outcome = next_occurrence(&self.tasks[idx].schedule, self.tasks[idx].next_event);
        let r = self.reschedule(idx, outcome);
        assert(next_run_outcome(old(self).view_tasks()[idx as int].schedule, old(self).view_tasks()[idx as int].next_event, outcome)
            && self.view_tasks() == rescheduled(old(self).view_tasks(), idx as int, outcome));
        r
    }
}

/// When every computed next run lies after `now`, so does every next run after the
/// refresh.
pub proof fn lemma_refreshed_after<T>(tasks: Seq<TaskHolder<T>>, outcomes: Seq<Option<i64>>, i: int, now: i64)
    requires
        0 <= i <= tasks.len(),
        outcomes.len() == tasks.len(),
        forall|j: int| 0 <= j < i ==> #[trigger] tasks[j].next_event > now,
        forall|k: int| 0 <= k < outcomes.len() ==> (#[trigger] outcomes[k] matches Some(t) ==> t > now),
    ensures
        forall|j: int| 0 <= j < refreshed(tasks, outcomes, i).len() ==> #[trigger] refreshed(tasks, outcomes, i)[j].next_event > now,
    decreases tasks.len() - i,
{
    if i < tasks.len() {
        match outcomes[i] {
            Some(t) => {
                let next = tasks.update(i, TaskHolder { task: tasks[i].task, schedule: tasks[i].schedule, next_event: t });
                assert(outcomes[i] matches Some(t) ==> t > now);
                assert forall|j: int| 0 <= j < i + 1 implies #[trigger] next[j].next_event > now by {
                    if j < i {
                        assert(next[j] == tasks[j]);
                    }
                }
                lemma_refreshed_after(next, outcomes, i + 1, now);
                assert(refreshed(tasks, outcomes, i) == refreshed(next, outcomes, i + 1));
            },
            None => {
                let ts = swap_removed(tasks, i);
                let os = swap_removed(outcomes, i);
                assert forall|k: int| 0 <= k < os.len() implies (#[trigger] os[k] matches Some(t) ==> t > now) by {
                    if k == i {
                        assert(os[k] == outcomes[outcomes.len() - 1]);
                    } else {
                        assert(os[k] == outcomes[k]);
                    }
                }
                assert forall|j: int| 0 <= j < i implies #[trigger] ts[j].next_event > now by {
                    assert(ts[j] == tasks[j]);
                }
                lemma_refreshed_after(ts, os, i, now);
                assert(refreshed(tasks, outcomes, i) == refreshed(ts, os, i));
            },
        }
    }
}

/// Dropping tasks never adds any: the refreshed tasks are at most as many.
proof fn lemma_refreshed_len<T>(tasks: Seq<TaskHolder<T>>, outcomes: Seq<Option<i64>>, i: int)
    ensures
        refreshed(tasks, outcomes, i).len() <= tasks.len(),
    decreases tasks.len() - i,
{
    if 0 <= i < tasks.len() && outcomes.len() == tasks.len() {
        match outcomes[i] {
            Some(t) => lemma_refreshed_len(
                tasks.update(i, TaskHolder { task: tasks[i].task, schedule: tasks[i].schedule, next_event: t }),
                outcomes,
                i + 1,
            ),
            None => lemma_refreshed_len(swap_removed(tasks, i), swap_removed(outcomes, i), i),
        }
    }
}

} // verus!
