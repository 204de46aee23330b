use vstd::prelude::*;

use super::clock::Clock;

verus! {

/// Task yield values
#[derive(Clone, Copy, PartialEq, Eq, Debug, Structural)]
pub enum TaskYield {
    /// Wake up again after the given number of half t-cycles
    Wait(u64),
    /// Stop the scheduler; the task continues at the same time on the next run
    Break,
}

/// Tasks driven by the scheduler. A task runs from one yield to the next on each resume;
/// `htcycles` is the clock at which it is resumed.
pub trait TaskSet {
    /// The tasks are in a state to be resumed
    spec fn ready(&self) -> bool;

    /// Resuming task `task_idx` at `htcycles` can take the tasks from `self` to `next` and
    /// yield `y`
    spec fn resumes_to(&self, next: &Self, task_idx: usize, htcycles: u64, y: TaskYield) -> bool;

    fn resume(&mut self, task_idx: usize, htcycles: u64) -> (y: TaskYield)
        requires
            old(self).ready(),
        ensures
            final(self).ready(),
            y matches TaskYield::Wait(offset) ==> offset > 0,
            old(self).resumes_to(final(self), task_idx, htcycles, y);
}

/// Task execution time slot
#[derive(Clone, Copy, PartialEq, Eq, Debug, Structural)]
pub struct TaskSlot {
    pub htcycles: u64,
    pub task_idx: usize,
}

/// What one step of the scheduler did
#[derive(Clone, Copy, PartialEq, Eq, Debug, Structural)]
pub enum Step {
    /// No task was due before the target: the clock moved to the target
    Reached,
    /// The task of the slot ran and yielded
    Ran(TaskSlot, TaskYield),
}

/// When a task that ran in `slot` and yielded `y` is due again: after the wait (at the end of
/// time at the latest), or at once after a break
pub open spec fn due_again(slot: TaskSlot, y: TaskYield) -> u64 {
    match y {
        TaskYield::Wait(offset) => if slot.htcycles + offset <= u64::MAX { (slot.htcycles + offset) as u64 } else { u64::MAX },
        TaskYield::Break => slot.htcycles,
    }
}

/// The queue after the task at its head ran and yielded `y`: the rest, with the task put back
/// after every task due at the same time or earlier
pub open spec fn requeued(q: Seq<TaskSlot>, y: TaskYield) -> Seq<TaskSlot> {
    let rest = q.subrange(1, q.len() as int);
    let at = due_again(q[0], y);
    rest.insert(insert_pos(rest, at), TaskSlot { htcycles: at, task_idx: q[0].task_idx })
}

/// The queue after the tasks at its head ran one after another and yielded `ys`
pub open spec fn run_trace(q: Seq<TaskSlot>, ys: Seq<TaskYield>) -> Seq<TaskSlot>
    decreases ys.len(),
{
    if ys.len() == 0 {
        q
    } else {
        requeued(run_trace(q, ys.drop_last()), ys.last())
    }
}

/// `ys` can be what the tasks yield in a run towards `target`: each yield comes from a task that
/// was due before the target, and only the last one may be a break
pub open spec fn valid_run(q: Seq<TaskSlot>, target: u64, ys: Seq<TaskYield>) -> bool {
    &&& forall|k: int| 0 <= k < ys.len() ==> #[trigger] run_trace(q, ys.take(k)).len() > 0
        && run_trace(q, ys.take(k))[0].htcycles < target
    &&& forall|k: int| 0 <= k < ys.len() - 1 ==> #[trigger] ys[k] is Wait
}

/// A run from queue `q` towards `target`, in which the tasks yield `ys`, leaves queue `fq` and
/// clock `fc` and returns `r`: true once no task is due before the target and the clock is at
/// the target, false right after a task breaks, the clock at the time that task was due
pub open spec fn run_ends(q: Seq<TaskSlot>, target: u64, ys: Seq<TaskYield>, fq: Seq<TaskSlot>, fc: u64, r: bool) -> bool {
    &&& valid_run(q, target, ys)
    &&& fq == run_trace(q, ys)
    &&& if r {
        &&& ys.len() == 0 || ys.last() is Wait
        &&& fq.len() == 0 || fq[0].htcycles >= target
        &&& fc == target
    } else {
        &&& ys.len() > 0 && ys.last() is Break
        &&& fc == run_trace(q, ys.drop_last())[0].htcycles
    }
}

/// The task states `ts` follow the run from queue `q` in which the tasks yield `ys`: each task
/// resumed is the head of the queue at that point, resumed at the time it was due, and takes the
/// tasks from one state to the next, yielding what the run records
pub open spec fn tasks_follow<T: TaskSet>(q: Seq<TaskSlot>, ys: Seq<TaskYield>, ts: Seq<T>) -> bool {
    &&& ts.len() == ys.len() + 1
    &&& forall|k: int| 0 <= k < ys.len() ==> #[trigger] ts[k].resumes_to(&ts[k + 1],
        run_trace(q, ys.take(k))[0].task_idx, run_trace(q, ys.take(k))[0].htcycles, ys[k])
}

proof fn lemma_run_extend(q: Seq<TaskSlot>, target: u64, ys: Seq<TaskYield>, y: TaskYield)
    requires
        valid_run(q, target, ys),
        forall|k: int| 0 <= k < ys.len() ==> #[trigger] ys[k] is Wait,
        run_trace(q, ys).len() > 0,
        run_trace(q, ys)[0].htcycles < target,
    ensures
        valid_run(q, target, ys.push(y)),
        run_trace(q, ys.push(y)) == requeued(run_trace(q, ys), y),
        ys.push(y).drop_last() == ys,
{
    let more = ys.push(y);
    assert(more.drop_last() =~= ys);
    assert(more.take(ys.len() as int) =~= ys);
    assert forall|k: int| 0 <= k < more.len() implies #[trigger] run_trace(q, more.take(k)).len() > 0
        && run_trace(q, more.take(k))[0].htcycles < target by {
        if k < ys.len() {
            assert(more.take(k) =~= ys.take(k));
        }
    }
    assert forall|k: int| 0 <= k < more.len() - 1 implies #[trigger] more[k] is Wait by {
        assert(more[k] == ys[k]);
    }
}

proof fn lemma_follow_extend<T: TaskSet>(q: Seq<TaskSlot>, ys: Seq<TaskYield>, ts: Seq<T>, y: TaskYield, t: T)
    requires
        tasks_follow(q, ys, ts),
        ts.last().resumes_to(&t, run_trace(q, ys)[0].task_idx, run_trace(q, ys)[0].htcycles, y),
    ensures
        tasks_follow(q, ys.push(y), ts.push(t)),
        ts.push(t)[0] == ts[0],
        ts.push(t).last() == t,
{
    let more = ys.push(y);
    let tt = ts.push(t);
    assert forall|k: int| 0 <= k < more.len() implies #[trigger] tt[k].resumes_to(&tt[k + 1],
        run_trace(q, more.take(k))[0].task_idx, run_trace(q, more.take(k))[0].htcycles, more[k]) by {
        if k < ys.len() {
            assert(more.take(k) =~= ys.take(k));
            assert(tt[k] == ts[k] && tt[k + 1] == ts[k + 1]);
            assert(ts[k].resumes_to(&ts[k + 1], run_trace(q, ys.take(k))[0].task_idx,
                run_trace(q, ys.take(k))[0].htcycles, ys[k]));
        } else {
            assert(more.take(k) =~= ys);
            assert(tt[k] == ts.last());
        }
    }
}

/// Clock-synced tasks scheduler
pub struct Scheduler {

    /// System clock
    clock: Clock,

    /// Number of managed tasks
    n_tasks: usize,

    /// Task queue, ordered by time; tasks scheduled for the same time keep the order they were scheduled in
    queue: Vec<TaskSlot>,

}

/// Slots ordered by time
pub open spec fn sorted(q: Seq<TaskSlot>) -> bool {
    forall|i: int, j: int| 0 <= i <= j < q.len() ==> q[i].htcycles <= q[j].htcycles
}

/// Position where a slot at `htcycles` goes: after every slot at the same time or earlier
pub open spec fn insert_pos(q: Seq<TaskSlot>, htcycles: u64) -> int
    decreases q.len(),
{
    if q.len() == 0 || q[0].htcycles > htcycles {
        0
    } else {
        1 + insert_pos(q.subrange(1, q.len() as int), htcycles)
    }
}

/// Half t-cycles left until `target` summed over the queue
pub open spec fn pending(q: Seq<TaskSlot>, target: u64) -> nat
    decreases q.len(),
{
    if q.len() == 0 {
        0
    } else {
        (if q[0].htcycles < target { (target - q[0].htcycles) as nat } else { 0nat })
            + pending(q.subrange(1, q.len() as int), target)
    }
}

proof fn lemma_insert_pos(q: Seq<TaskSlot>, htcycles: u64)
    requires
        sorted(q),
    ensures
        0 <= insert_pos(q, htcycles) <= q.len(),
        forall|i: int| 0 <= i < insert_pos(q, htcycles) ==> q[i].htcycles <= htcycles,
        forall|i: int| insert_pos(q, htcycles) <= i < q.len() ==> q[i].htcycles > htcycles,
    decreases q.len(),
{
    if q.len() > 0 && q[0].htcycles <= htcycles {
        let r = q.subrange(1, q.len() as int);
        lemma_insert_pos(r, htcycles);
        assert forall|i: int| 0 <= i < insert_pos(q, htcycles) implies q[i].htcycles <= htcycles by {
            if i > 0 { assert(q[i] == r[i - 1]); }
        }
        assert forall|i: int| insert_pos(q, htcycles) <= i < q.len() implies q[i].htcycles > htcycles by {
            assert(q[i] == r[i - 1]);
        }
    }
}

proof fn lemma_pending_insert(q: Seq<TaskSlot>, i: int, x: TaskSlot, target: u64)
    requires
        0 <= i <= q.len(),
    ensures
        pending(q.insert(i, x), target) == pending(q, target)
            + (if x.htcycles < target { (target - x.htcycles) as nat } else { 0nat }),
    decreases q.len(),
{
    if i == 0 {
        assert(q.insert(0, x).subrange(1, q.len() as int + 1) =~= q);
    } else {
        let r = q.subrange(1, q.len() as int);
        lemma_pending_insert(r, i - 1, x, target);
        assert(q.insert(i, x).subrange(1, q.len() as int + 1) =~= r.insert(i - 1, x));
        assert(q.insert(i, x)[0] == q[0]);
    }
}

/// A queue in time order stays in time order once a slot is put where `insert_pos` says
proof fn lemma_insert_sorted(q: Seq<TaskSlot>, x: TaskSlot)
    requires
        sorted(q),
    ensures
        sorted(q.insert(insert_pos(q, x.htcycles), x)),
{
    lemma_insert_pos(q, x.htcycles);
    let p = insert_pos(q, x.htcycles);
    let r = q.insert(p, x);
    assert forall|i: int, j: int| 0 <= i <= j < r.len() implies r[i].htcycles <= r[j].htcycles by {
        if i < p && j < p {
            assert(r[i] == q[i] && r[j] == q[j]);
        } else if i > p && j > p {
            assert(r[i] == q[i - 1] && r[j] == q[j - 1]);
        } else if i < p {
            assert(r[i] == q[i]);
        } else if i == p && j > p {
            assert(r[j] == q[j - 1]);
        }
    }
}

/// One task run: the queue stays in time order, as long, and its head is due no earlier
proof fn lemma_requeued(q: Seq<TaskSlot>, y: TaskYield)
    requires
        sorted(q),
        q.len() > 0,
    ensures
        sorted(requeued(q, y)),
        requeued(q, y).len() == q.len(),
        requeued(q, y)[0].htcycles >= q[0].htcycles,
{
    let rest = q.subrange(1, q.len() as int);
    let at = due_again(q[0], y);
    let x = TaskSlot { htcycles: at, task_idx: q[0].task_idx };
    assert(sorted(rest));
    lemma_insert_pos(rest, at);
    lemma_insert_sorted(rest, x);
    if insert_pos(rest, at) > 0 {
        assert(requeued(q, y)[0] == rest[0]);
    }
}

proof fn lemma_trace_sorted(q: Seq<TaskSlot>, ys: Seq<TaskYield>)
    requires
        sorted(q),
        q.len() > 0,
    ensures
        sorted(run_trace(q, ys)),
        run_trace(q, ys).len() == q.len(),
    decreases ys.len(),
{
    if ys.len() > 0 {
        lemma_trace_sorted(q, ys.drop_last());
        lemma_requeued(run_trace(q, ys.drop_last()), ys.last());
    }
}

/// Law: tasks are resumed in time order. Along any run from a queue in time order, the task at
/// the head, which is the one resumed next, is never due earlier than the one resumed before
/// it; a task put back is due after every task due at the same time or earlier
pub proof fn lemma_resume_order(q: Seq<TaskSlot>, ys: Seq<TaskYield>, j: int, k: int)
    requires
        sorted(q),
        q.len() > 0,
        0 <= j <= k <= ys.len(),
    ensures
        run_trace(q, ys.take(j))[0].htcycles <= run_trace(q, ys.take(k))[0].htcycles,
        forall|i: int| 0 <= i < insert_pos(run_trace(q, ys.take(k)).subrange(1, q.len() as int),
            due_again(run_trace(q, ys.take(k))[0], ys[k])) ==> k < ys.len() ==>
            #[trigger] run_trace(q, ys.take(k + 1))[i].htcycles <= due_again(run_trace(q, ys.take(k))[0], ys[k]),
    decreases k - j,
{
    if k < ys.len() {
        let t = run_trace(q, ys.take(k));
        lemma_trace_sorted(q, ys.take(k));
        let rest = t.subrange(1, q.len() as int);
        let at = due_again(t[0], ys[k]);
        lemma_insert_pos(rest, at);
        assert(ys.take(k + 1).drop_last() =~= ys.take(k));
        assert(ys.take(k + 1).last() == ys[k]);
        assert forall|i: int| 0 <= i < insert_pos(rest, at) implies
            #[trigger] run_trace(q, ys.take(k + 1))[i].htcycles <= at by {
            assert(run_trace(q, ys.take(k + 1))[i] == rest[i]);
        }
    }
    if j < k {
        lemma_resume_order(q, ys, j, k - 1);
        let t = run_trace(q, ys.take(k - 1));
        lemma_trace_sorted(q, ys.take(k - 1));
        lemma_requeued(t, ys[k - 1]);
        assert(ys.take(k).drop_last() =~= ys.take(k - 1));
    }
}

/// Law: a run resumes the tasks in time order, each due before the target. It returns true
/// exactly when no task broke, the clock then at the target; otherwise the last task resumed
/// broke, the clock is at the time it was due and it stays queued at that time
pub proof fn lemma_run_order(q: Seq<TaskSlot>, target: u64, ys: Seq<TaskYield>, fq: Seq<TaskSlot>, fc: u64, r: bool)
    requires
        sorted(q),
        q.len() > 0,
        run_ends(q, target, ys, fq, fc, r),
    ensures
        forall|j: int, k: int| 0 <= j <= k < ys.len()
            ==> #[trigger] run_trace(q, ys.take(j))[0].htcycles <= #[trigger] run_trace(q, ys.take(k))[0].htcycles,
        forall|k: int| 0 <= k < ys.len() ==> #[trigger] run_trace(q, ys.take(k))[0].htcycles < target,
        r <==> (ys.len() == 0 || ys.last() is Wait),
        r ==> fc == target,
        !r ==> fq.contains(TaskSlot { htcycles: fc, task_idx: run_trace(q, ys.drop_last())[0].task_idx }),
{
    assert forall|j: int, k: int| 0 <= j <= k < ys.len()
        implies #[trigger] run_trace(q, ys.take(j))[0].htcycles <= #[trigger] run_trace(q, ys.take(k))[0].htcycles by {
        lemma_resume_order(q, ys, j, k);
    }
    if !r {
        let n = ys.len() - 1;
        let t = run_trace(q, ys.drop_last());
        lemma_trace_sorted(q, ys.drop_last());
        let rest = t.subrange(1, t.len() as int);
        let at = due_again(t[0], TaskYield::Break);
        lemma_insert_pos(rest, at);
        let p = insert_pos(rest, at);
        assert(fq == requeued(t, ys.last()));
        assert(fq[p] == TaskSlot { htcycles: fc, task_idx: t[0].task_idx });
    }
}

impl Scheduler {

    pub closed spec fn spec_clock(&self) -> u64 {
        self.clock@
    }

    pub closed spec fn spec_queue(&self) -> Seq<TaskSlot> {
        self.queue@
    }

    pub closed spec fn spec_n_tasks(&self) -> usize {
        self.n_tasks
    }

    /// Every task is in the queue exactly once, at or after the current clock, in time order
    pub closed spec fn wf(&self) -> bool {
        &&& self.queue@.len() == self.n_tasks
        &&& sorted(self.queue@)
        &&& forall|i: int| 0 <= i < self.queue@.len() ==> self.queue@[i].htcycles >= self.clock@
        &&& forall|i: int| 0 <= i < self.queue@.len() ==> self.queue@[i].task_idx < self.n_tasks
        &&& forall|i: int, j: int| 0 <= i < j < self.queue@.len() ==> self.queue@[i].task_idx != self.queue@[j].task_idx
    }

    /// Create new scheduler instance for `n_tasks` tasks, all due at `htcycles`
    pub fn new(htcycles: u64, n_tasks: usize) -> (r: Self)
        ensures
            r.wf(),
            r.spec_clock() == htcycles,
            r.spec_n_tasks() == n_tasks,
            r.spec_queue() == Seq::new(n_tasks as nat, |i: int| TaskSlot { htcycles, task_idx: (n_tasks - 1 - i) as usize }),
    {
        let mut queue: Vec<TaskSlot> = Vec::new();
        let mut task_idx: usize = n_tasks;
        while task_idx > 0
            invariant
                task_idx <= n_tasks,
                queue@ == Seq::new((n_tasks - task_idx) as nat, |i: int| TaskSlot { htcycles, task_idx: (n_tasks - 1 - i) as usize }),
            decreases task_idx,
        {
            task_idx = task_idx - 1;
            queue.push(TaskSlot { htcycles, task_idx });
        }
        let mut clock = Clock::new();
        clock.set(htcycles);
        Self { clock, n_tasks, queue }
    }

    /// Current clock in half t-cycles
    pub fn clock(&self) -> (r: u64)
        ensures
            r == self.spec_clock(),
    {
        self.clock.get()
    }

    /// Schedule given task at given htcycles: after every task due at that time or earlier
    pub fn schedule(&mut self, htcycles: u64, task_idx: usize)
        requires
            sorted(old(self).spec_queue()),
            old(self).spec_queue().len() < usize::MAX,
        ensures
            sorted(final(self).spec_queue()),
            final(self).spec_queue() == old(self).spec_queue().insert(
                insert_pos(old(self).spec_queue(), htcycles), TaskSlot { htcycles, task_idx }),
            final(self).spec_clock() == old(self).spec_clock(),
            final(self).spec_n_tasks() == old(self).spec_n_tasks(),
    {
        proof { lemma_insert_pos(self.queue@, htcycles); }
        let mut pos: usize = 0;
        while pos < self.queue.len() && self.queue[pos].htcycles <= htcycles
            invariant
                pos <= self.queue@.len(),
                self.queue@ == old(self).queue@,
                forall|i: int| 0 <= i < pos ==> self.queue@[i].htcycles <= htcycles,
                pos <= insert_pos(self.queue@, htcycles),
                forall|i: int| insert_pos(self.queue@, htcycles) <= i < self.queue@.len() ==> self.queue@[i].htcycles > htcycles,
            decreases self.queue@.len() - pos,
        {
            pos = pos + 1;
        }
        assert(pos == insert_pos(self.queue@, htcycles));
        let ghost q = self.queue@;
        self.queue.insert(pos, TaskSlot { htcycles, task_idx });
        assert forall|i: int, j: int| 0 <= i <= j < self.queue@.len() implies self.queue@[i].htcycles <= self.queue@[j].htcycles by {
            let p = pos as int;
            if i < p && j < p {
                assert(self.queue@[i] == q[i] && self.queue@[j] == q[j]);
            } else if i > p && j > p {
                assert(self.queue@[i] == q[i - 1] && self.queue@[j] == q[j - 1]);
            } else if i < p {
                assert(self.queue@[i] == q[i]);
            } else if i == p && j > p {
                assert(self.queue@[j] == q[j - 1]);
            }
        }
    }


    /// Run the first task due before `target`, or move the clock to `target` if there is none
    pub fn step<T: TaskSet>(&mut self, tasks: &mut T, target: u64) -> (r: Step)
        requires
            old(self).wf(),
            old(tasks).ready(),
            old(self).spec_clock() <= target,
        ensures
            final(self).wf(),
            final(tasks).ready(),
            final(self).spec_n_tasks() == old(self).spec_n_tasks(),
            match r {
                Step::Reached => {
                    &&& old(self).spec_queue().len() == 0 || old(self).spec_queue()[0].htcycles >= target
                    &&& final(self).spec_clock() == target
                    &&& final(self).spec_queue() == old(self).spec_queue()
                    &&& *final(tasks) == *old(tasks)
                },
                Step::Ran(slot, y) => {
                    &&& old(tasks).resumes_to(final(tasks), slot.task_idx, slot.htcycles, y)
                    &&& old(self).spec_queue().len() > 0
                    &&& old(self).spec_queue()[0].htcycles < target
                    &&& slot == old(self).spec_queue()[0]
                    &&& final(self).spec_clock() == slot.htcycles
                    &&& final(self).spec_queue() == requeued(old(self).spec_queue(), y)
                    &&& y matches TaskYield::Wait(offset) ==> offset > 0
                },
            },
            pending(final(self).spec_queue(), target) <= pending(old(self).spec_queue(), target),
            r is Ran ==> pending(final(self).spec_queue(), target) < pending(old(self).spec_queue(), target)
                || r matches Step::Ran(_, TaskYield::Break),
    {
        if self.queue.len() == 0 || self.queue[0].htcycles >= target {
            // No more tasks to execute or next task is scheduled
            // after target htcycles, so skip to target htcycles
            self.clock.set(target);
            assert forall|i: int| 0 <= i < self.queue@.len() implies self.queue@[i].htcycles >= self.clock@ by {
                assert(self.queue@[0].htcycles <= self.queue@[i].htcycles);
            }
            return Step::Reached;
        }

        let ghost q = self.queue@;
        let slot = self.queue.remove(0);
        assert(self.queue@ =~= q.subrange(1, q.len() as int));
        assert(pending(q, target) == (target - slot.htcycles) as nat + pending(self.queue@, target));

        // Advance to task's htcycles and continue task execution
        self.clock.set(slot.htcycles);
        let y = tasks.resume(slot.task_idx, slot.htcycles);
        let at = match y {
            TaskYield::Wait(offset) => slot.htcycles.saturating_add(offset),
            TaskYield::Break => slot.htcycles,
        };
        let ghost rest = self.queue@;
        proof { lemma_insert_pos(rest, at); }
        self.schedule(at, slot.task_idx);
        proof {
            let p = insert_pos(rest, at);
            lemma_pending_insert(rest, p, TaskSlot { htcycles: at, task_idx: slot.task_idx }, target);
            assert forall|i: int| 0 <= i < self.queue@.len() implies
                self.queue@[i].htcycles >= self.clock@ && self.queue@[i].task_idx < self.n_tasks by {
                if i < p { assert(self.queue@[i] == rest[i]); }
                else if i > p { assert(self.queue@[i] == rest[i - 1]); }
            }
            assert forall|i: int, j: int| 0 <= i < j < self.queue@.len() implies
                self.queue@[i].task_idx != self.queue@[j].task_idx by {
                assert(forall|k: int| 0 <= k < rest.len() ==> rest[k] == q[k + 1]);
                if i < p && j < p {
                    assert(self.queue@[i] == rest[i] && self.queue@[j] == rest[j]);
                } else if i > p && j > p {
                    assert(self.queue@[i] == rest[i - 1] && self.queue@[j] == rest[j - 1]);
                } else if i == p {
                    assert(self.queue@[j] == rest[j - 1]);
                } else if j == p {
                    assert(self.queue@[i] == rest[i]);
                } else {
                    assert(self.queue@[i] == rest[i] && self.queue@[j] == rest[j - 1]);
                }
            }
        }
        Step::Ran(slot, y)
    }

    /// Run the scheduler for given htcycles or until a task breaks: step after step, each running
    /// the first task due, until none is due before the target.
    /// Returns true if the scheduler ran until the target htcycles, false if a task triggered a break.
    pub fn run<T: TaskSet>(&mut self, tasks: &mut T, htcycles: u64) -> (r: bool)
        requires
            old(self).wf(),
            old(tasks).ready(),
            old(self).spec_clock() + htcycles <= u64::MAX,
        ensures
            final(self).wf(),
            final(tasks).ready(),
            final(self).spec_n_tasks() == old(self).spec_n_tasks(),
            old(self).spec_clock() <= final(self).spec_clock() <= old(self).spec_clock() + htcycles,
            r ==> final(self).spec_clock() == old(self).spec_clock() + htcycles,
            r ==> forall|i: int| 0 <= i < final(self).spec_queue().len()
                ==> final(self).spec_queue()[i].htcycles >= old(self).spec_clock() + htcycles,
            exists|ys: Seq<TaskYield>, ts: Seq<T>| #[trigger] run_ends(old(self).spec_queue(), (old(self).spec_clock() + htcycles) as u64,
                ys, final(self).spec_queue(), final(self).spec_clock(), r) && #[trigger] tasks_follow(old(self).spec_queue(), ys, ts)
                && ts[0] == *old(tasks) && ts.last() == *final(tasks),
    {
        let target = self.clock.get() + htcycles;
        let ghost q0 = self.queue@;
        let ghost mut ys: Seq<TaskYield> = Seq::empty();
        let ghost mut ts: Seq<T> = seq![*tasks];
        assert(run_trace(q0, ys) == q0);
        loop
            invariant
                self.wf(),
                tasks.ready(),
                self.n_tasks == old(self).n_tasks,
                old(self).clock@ <= self.clock@ <= target,
                target == old(self).clock@ + htcycles,
                q0 == old(self).queue@,
                valid_run(q0, target, ys),
                forall|k: int| 0 <= k < ys.len() ==> #[trigger] ys[k] is Wait,
                self.queue@ == run_trace(q0, ys),
                tasks_follow(q0, ys, ts),
                ts[0] == *old(tasks),
                ts.last() == *tasks,
            decreases pending(self.queue@, target),
        {
            let ghost q = self.queue@;
            let ghost t0 = *tasks;
            match self.step(tasks, target) {
                Step::Reached => {
                    assert forall|i: int| 0 <= i < self.queue@.len() implies self.queue@[i].htcycles >= target by {
                        assert(self.queue@[0].htcycles <= self.queue@[i].htcycles);
                    }
                    assert(ys.len() == 0 || ys.last() is Wait);
                    assert(run_ends(q0, target, ys, self.queue@, self.clock@, true));
                    assert(run_ends(old(self).spec_queue(), (old(self).spec_clock() + htcycles) as u64, ys,
                        self.spec_queue(), self.spec_clock(), true));
                    assert(tasks_follow(old(self).spec_queue(), ys, ts));
                    return true;
                },
                Step::Ran(_, TaskYield::Break) => {
                    proof {
                        lemma_run_extend(q0, target, ys, TaskYield::Break);
                        lemma_follow_extend(q0, ys, ts, TaskYield::Break, *tasks);
                        ys = ys.push(TaskYield::Break);
                        ts = ts.push(*tasks);
                    }
                    assert(tasks_follow(old(self).spec_queue(), ys, ts));
                    assert(run_ends(q0, target, ys, self.queue@, self.clock@, false));
                    assert(run_ends(old(self).spec_queue(), (old(self).spec_clock() + htcycles) as u64, ys,
                        self.spec_queue(), self.spec_clock(), false));
                    return false;
                },
                Step::Ran(_, TaskYield::Wait(off)) => {
                    proof {
                        lemma_run_extend(q0, target, ys, TaskYield::Wait(off));
                        lemma_follow_extend(q0, ys, ts, TaskYield::Wait(off), *tasks);
                        ys = ys.push(TaskYield::Wait(off));
                        ts = ts.push(*tasks);
                        assert forall|k: int| 0 <= k < ys.len() implies #[trigger] ys[k] is Wait by {
                            if k < ys.len() - 1 {
                                assert(ys[k] == ys.drop_last()[k]);
                            }
                        }
                    }
                },
            }
        }
    }

    /// Advance the clock `offset` half t-cycles forward, running the tasks due meanwhile
    pub fn advance<T: TaskSet>(&mut self, tasks: &mut T, offset: u64)
        requires
            old(self).wf(),
            old(tasks).ready(),
            old(self).spec_clock() + offset <= u64::MAX,
        ensures
            final(self).wf(),
            final(tasks).ready(),
            final(self).spec_n_tasks() == old(self).spec_n_tasks(),
            old(self).spec_clock() <= final(self).spec_clock() <= old(self).spec_clock() + offset,
            exists|ys: Seq<TaskYield>, ts: Seq<T>, r: bool| #[trigger] run_ends(old(self).spec_queue(),
                (old(self).spec_clock() + offset) as u64, ys, final(self).spec_queue(), final(self).spec_clock(), r)
                && #[trigger] tasks_follow(old(self).spec_queue(), ys, ts) && ts[0] == *old(tasks) && ts.last() == *final(tasks),
    {
        let r = self.run(tasks, offset);
    }
}

} // verus!
