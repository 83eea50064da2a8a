//! Cooperative tasks and the deterministic scheduler that runs them.
//!
//! An agent program and the global driver program are both laid out as a set
//! of sibling tasks (a `Concurrency` node), each task an ordered list of
//! primitive operations (a `Sequence`): wait on an event, fire an event, or
//! invoke one activity hook. The scheduler repeatedly picks a runnable task
//! and executes its next operation, recording every execution in a trace.
//!
//! The trace is the ground truth of the model: every ordering guarantee of
//! the orchestrator (dependency obedience, startup handshake, shutdown
//! completeness) is stated and proved over it.

use vstd::prelude::*;

use crate::events::{EventBus, EventId};
use crate::ids::ActivityId;

verus! {

/// Which of an activity's three hooks an `Invoke` operation runs.
#[derive(Clone, Copy, Debug, PartialEq, Eq, Hash, Structural)]
pub enum Hook {
    /// The startup hook, run once before the first cycle.
    Start,
    /// The step hook, run once per cycle.
    Step,
    /// The shutdown hook, run once after the last cycle.
    Stop,
}

/// A primitive operation of a task.
#[derive(Clone, Copy, Debug, PartialEq, Eq, Hash, Structural)]
pub enum Op {
    /// Suspend until the named event has fired.
    Sync(EventId),
    /// Fire the named event, waking all waiters.
    Trigger(EventId),
    /// Run one hook of one activity.
    Invoke(ActivityId, Hook),
}

/// One cooperative task: operations executed strictly in order.
#[derive(Debug)]
pub struct Task {
    /// Its operations, in execution order.
    pub ops: Vec<Op>,
}

/// One executed operation, as recorded in the trace.
///
/// `tix` names the task, `oix` the position of the operation within that
/// task, and `ok` the outcome (`false` only for a failed `Invoke`).
#[derive(Clone, Copy, Debug, PartialEq, Eq, Structural)]
pub struct TraceEntry {
    /// Index of the task that executed.
    pub tix: usize,
    /// Index of the executed operation within that task.
    pub oix: usize,
    /// The executed operation.
    pub op: Op,
    /// Whether the operation succeeded.
    pub ok: bool,
}

/// The number of trace entries belonging to task `t`.
pub open spec fn count_task(tr: Seq<TraceEntry>, t: int) -> nat
    decreases tr.len(),
{
    if tr.len() == 0 {
        0
    } else {
        count_task(tr.drop_last(), t) + if tr.last().tix == t {
            1nat
        } else {
            0nat
        }
    }
}

/// The number of trace entries that executed exactly `op`.
pub open spec fn count_op(tr: Seq<TraceEntry>, op: Op) -> nat
    decreases tr.len(),
{
    if tr.len() == 0 {
        0
    } else {
        count_op(tr.drop_last(), op) + if tr.last().op == op {
            1nat
        } else {
            0nat
        }
    }
}

/// Whether the trace holds a `Trigger` of the named event.
pub open spec fn triggered_in(tr: Seq<TraceEntry>, e: EventId) -> bool {
    exists|p: int| 0 <= p < tr.len() && tr[p].op == Op::Trigger(e)
}

/// A scheduler over a fixed set of sibling tasks sharing one event bus.
pub struct TaskExec {
    /// The tasks; their operation lists never change after construction.
    pub tasks: Vec<Task>,
    /// Per task, the index of its next operation.
    pub cursors: Vec<usize>,
    /// Per task, whether a failed `Invoke` stopped it (fail-fast).
    pub failed: Vec<bool>,
    /// The shared event bus.
    pub bus: EventBus,
    /// Every executed operation, in execution order.
    pub trace: Vec<TraceEntry>,
    /// The events that had already fired when this run began.
    pub init: Ghost<Set<EventId>>,
}

impl TaskExec {
    /// Whether an operation can execute now: `Sync` waits for its event,
    /// everything else is always ready.
    pub open spec fn op_enabled(self, op: Op) -> bool {
        match op {
            Op::Sync(e) => self.bus@.contains(e),
            _ => true,
        }
    }

    /// Whether task `t` can execute its next operation.
    pub open spec fn task_runnable(self, t: int) -> bool {
        &&& 0 <= t < self.tasks@.len()
        &&& !self.failed@[t]
        &&& self.cursors@[t] < self.tasks@[t].ops@.len()
        &&& self.op_enabled(self.tasks@[t].ops@[self.cursors@[t] as int])
    }

    /// Whether task `t` has run all its operations without failing.
    pub open spec fn task_complete(self, t: int) -> bool {
        self.cursors@[t] == self.tasks@[t].ops@.len() && !self.failed@[t]
    }

    /// Whether every task has completed.
    pub open spec fn all_complete(self) -> bool {
        forall|t: int| 0 <= t < self.tasks@.len() ==> self.task_complete(t)
    }

    /// Structural well-formedness of the scheduler state: the trace is an
    /// exact, ordered record of the executed operations.
    ///
    /// - each entry names a real task and its `oix`-th operation, and `oix`
    ///   equals the number of earlier entries of the same task, so a task's
    ///   entries appear in program order, each exactly once;
    /// - each cursor equals the number of trace entries of its task;
    /// - a `Sync` entry was preceded by a `Trigger` of its event, unless the
    ///   event had fired before the run began;
    /// - the bus holds exactly the initially fired events plus the triggered
    ///   ones.
    pub open spec fn wf(self) -> bool {
        &&& self.cursors@.len() == self.tasks@.len()
        &&& self.failed@.len() == self.tasks@.len()
        &&& forall|p: int| 0 <= p < self.trace@.len() ==> {
            let en = #[trigger] self.trace@[p];
            &&& en.tix < self.tasks@.len()
            &&& en.oix == count_task(self.trace@.take(p), en.tix as int)
            &&& en.oix < self.tasks@[en.tix as int].ops@.len()
            &&& en.op == self.tasks@[en.tix as int].ops@[en.oix as int]
        }
        &&& forall|t: int| 0 <= t < self.tasks@.len() ==> {
            &&& #[trigger] self.cursors@[t] == count_task(self.trace@, t)
            &&& self.cursors@[t] <= self.tasks@[t].ops@.len()
        }
        &&& forall|p: int| 0 <= p < self.trace@.len() ==> {
            let en = #[trigger] self.trace@[p];
            en.op matches Op::Sync(e) ==> self.init@.contains(e) || triggered_in(
                self.trace@.take(p),
                e,
            )
        }
        &&& forall|e: EventId| #[trigger] self.bus@.contains(e) <==> self.init@.contains(e)
            || triggered_in(self.trace@, e)
    }

    /// A fresh scheduler over the given tasks and bus; nothing has executed.
    pub fn new(tasks: Vec<Task>, bus: EventBus) -> (s: TaskExec)
        ensures
            s.wf(),
            s.tasks == tasks,
            s.trace@ == Seq::<TraceEntry>::empty(),
            s.bus == bus,
            s.init@ == bus@,
            forall|t: int| 0 <= t < tasks@.len() ==> #[trigger] s.cursors@[t] == 0
                && !s.failed@[t],
    {
        let n = tasks.len();
        let mut cursors: Vec<usize> = Vec::new();
        let mut failed: Vec<bool> = Vec::new();
        let mut i: usize = 0;
        while i < n
            invariant
                i <= n,
                cursors@.len() == i,
                failed@.len() == i,
                forall|t: int| 0 <= t < i ==> #[trigger] cursors@[t] == 0 && !failed@[t],
            decreases n - i,
        {
            cursors.push(0);
            failed.push(false);
            i += 1;
        }
        let s = TaskExec { tasks, cursors, failed, bus, trace: Vec::new(), init: Ghost(bus@) };
        proof {
            assert forall|t: int| 0 <= t < s.tasks@.len() implies #[trigger] s.cursors@[t]
                == count_task(s.trace@, t) && s.cursors@[t] <= s.tasks@[t].ops@.len() by {
                assert(count_task(s.trace@, t) == 0);
            }
        }
        s
    }

    /// The first runnable task, if any.
    pub fn find_runnable(&self) -> (r: Option<usize>)
        requires
            self.wf(),
        ensures
            r matches Some(i) ==> self.task_runnable(i as int),
            r is None ==> forall|t: int| !self.task_runnable(t),
    {
        let mut i: usize = 0;
        while i < self.tasks.len()
            invariant
                self.wf(),
                i <= self.tasks@.len(),
                forall|t: int| 0 <= t < i ==> !self.task_runnable(t),
            decreases self.tasks@.len() - i,
        {
            if !self.failed[i] {
                let cursor = self.cursors[i];
                let task_len = self.tasks[i].ops.len();
                if cursor < task_len {
                    let op = self.tasks[i].ops[cursor];
                    let enabled = match op {
                        Op::Sync(e) => self.bus.is_fired(e),
                        _ => true,
                    };
                    if enabled {
                        return Some(i);
                    }
                }
            }
            i += 1;
        }
        None
    }

    /// Execute the next operation of task `i`. For an `Invoke` operation the
    /// caller supplies the hook's outcome in `invoke_ok`; it is ignored
    /// otherwise. Exactly one entry is appended to the trace.
    pub fn exec_op(&mut self, i: usize, invoke_ok: bool)
        requires
            old(self).wf(),
            old(self).task_runnable(i as int),
        ensures
            final(self).wf(),
            final(self).tasks == old(self).tasks,
            final(self).init == old(self).init,
            final(self).trace@ == old(self).trace@.push(
                TraceEntry {
                    tix: i,
                    oix: old(self).cursors@[i as int],
                    op: old(self).tasks@[i as int].ops@[old(self).cursors@[i as int] as int],
                    ok: !(old(self).tasks@[i as int].ops@[old(self).cursors@[i as int] as int]
                        matches Op::Invoke(_, _)) || invoke_ok,
                },
            ),
            final(self).cursors@ == old(self).cursors@.update(
                i as int,
                (old(self).cursors@[i as int] + 1) as usize,
            ),
            final(self).failed@ == old(self).failed@.update(
                i as int,
                old(self).tasks@[i as int].ops@[old(self).cursors@[i as int] as int] matches Op::Invoke(_, _)
                    && !invoke_ok,
            ),
            final(self).bus@ == (match old(self).tasks@[i as int].ops@[old(self).cursors@[i as int] as int] {
                Op::Trigger(e) => old(self).bus@.insert(e),
                _ => old(self).bus@,
            }),
    {
        let cursor = self.cursors[i];
        let task_len = self.tasks[i].ops.len();
        assert(cursor < task_len);
        let op = self.tasks[i].ops[cursor];
        let ghost old_trace = self.trace@;

        let (ok, fails) = match op {
            Op::Sync(_) => (true, false),
            Op::Trigger(e) => {
                self.bus.trigger(e);
                (true, false)
            },
            Op::Invoke(_, _) => (invoke_ok, !invoke_ok),
        };

        let entry = TraceEntry { tix: i, oix: cursor, op, ok };
        self.trace.push(entry);
        self.cursors.set(i, cursor + 1);
        self.failed.set(i, fails);

        proof {
            lemma_trace_push(old_trace, entry);
            let tr = self.trace@;
            assert(tr.drop_last() == old_trace);
            assert forall|p: int| 0 <= p < tr.len() implies {
                let en = #[trigger] tr[p];
                &&& en.tix < self.tasks@.len()
                &&& en.oix == count_task(tr.take(p), en.tix as int)
                &&& en.oix < self.tasks@[en.tix as int].ops@.len()
                &&& en.op == self.tasks@[en.tix as int].ops@[en.oix as int]
            } by {
                if p < old_trace.len() {
                    assert(tr[p] == old_trace[p]);
                    assert(tr.take(p) == old_trace.take(p));
                } else {
                    assert(tr[p] == entry);
                    assert(tr.take(p) == old_trace);
                }
            }
            assert forall|t: int| 0 <= t < self.tasks@.len() implies {
                &&& #[trigger] self.cursors@[t] == count_task(tr, t)
                &&& self.cursors@[t] <= self.tasks@[t].ops@.len()
            } by {
                assert(count_task(tr, t) == count_task(old_trace, t) + if entry.tix == t {
                    1int
                } else {
                    0int
                });
            }
            assert forall|p: int| 0 <= p < tr.len() implies {
                let en = #[trigger] tr[p];
                en.op matches Op::Sync(e) ==> self.init@.contains(e) || triggered_in(
                    tr.take(p),
                    e,
                )
            } by {
                if p < old_trace.len() {
                    assert(tr[p] == old_trace[p]);
                    assert(tr.take(p) == old_trace.take(p));
                } else {
                    assert(tr.take(p) == old_trace);
                    match entry.op {
                        Op::Sync(e) => {
                            assert(old(self).bus@.contains(e));
                        },
                        _ => {},
                    }
                }
            }
            assert forall|e: EventId| #[trigger] self.bus@.contains(e) implies (
                self.init@.contains(e) || triggered_in(tr, e)) by {
                if !old(self).bus@.contains(e) {
                    assert(entry.op == Op::Trigger(e));
                    assert(tr[tr.len() - 1].op == Op::Trigger(e));
                }
            }
            assert forall|e: EventId| self.init@.contains(e) || triggered_in(tr, e)
                implies #[trigger] self.bus@.contains(e) by {
                if triggered_in(tr, e) {
                    let p = choose|p: int| 0 <= p < tr.len() && tr[p].op == Op::Trigger(e);
                    if p < old_trace.len() {
                        assert(old_trace[p].op == Op::Trigger(e));
                        assert(triggered_in(old_trace, e));
                    }
                }
            }
        }
    }
}

/// Scripted outcome of one activity hook, used where the caller drives the
/// scheduler from data: whether the hook reports success, and how long it
/// takes (milliseconds of the logical clock).
#[derive(Clone, Copy, Debug)]
pub struct HookBehavior {
    /// The activity whose hook this entry describes.
    pub activity: ActivityId,
    /// Which hook this entry describes.
    pub hook: Hook,
    /// Whether the hook reports success.
    pub ok: bool,
    /// How long the hook runs, in milliseconds.
    pub duration_ms: u32,
}

/// The first entry from position `j` on that describes the given hook.
pub open spec fn find_behavior(s: Seq<HookBehavior>, a: ActivityId, h: Hook, j: int) -> Option<
    HookBehavior,
>
    decreases s.len() - j,
{
    if j < 0 || j >= s.len() {
        None
    } else if s[j].activity == a && s[j].hook == h {
        Some(s[j])
    } else {
        find_behavior(s, a, h, j + 1)
    }
}

/// Outcomes of the activity hooks of one run: a hook not named here succeeds
/// immediately. The scheduler consults the plan at every `Invoke`.
#[derive(Debug)]
pub struct InvokePlan {
    /// Scripted hooks; the first matching entry wins.
    pub entries: Vec<HookBehavior>,
}

impl InvokePlan {
    /// Whether the given hook reports success under this plan.
    pub open spec fn spec_ok(self, a: ActivityId, h: Hook) -> bool {
        match find_behavior(self.entries@, a, h, 0) {
            Some(b) => b.ok,
            None => true,
        }
    }

    /// How long the given hook runs under this plan, in milliseconds.
    pub open spec fn spec_duration(self, a: ActivityId, h: Hook) -> u32 {
        match find_behavior(self.entries@, a, h, 0) {
            Some(b) => b.duration_ms,
            None => 0,
        }
    }

    /// A plan under which every hook succeeds immediately.
    pub fn all_ok() -> (plan: InvokePlan)
        ensures
            forall|a: ActivityId, h: Hook| #[trigger] plan.spec_ok(a, h),
            forall|a: ActivityId, h: Hook| #[trigger] plan.spec_duration(a, h) == 0,
    {
        InvokePlan { entries: Vec::new() }
    }

    /// The scripted outcome and duration of the given hook.
    pub fn behavior(&self, a: ActivityId, h: Hook) -> (r: (bool, u32))
        ensures
            r.0 == self.spec_ok(a, h),
            r.1 == self.spec_duration(a, h),
    {
        let mut j: usize = 0;
        while j < self.entries.len()
            invariant
                j <= self.entries@.len(),
                find_behavior(self.entries@, a, h, 0) == find_behavior(
                    self.entries@,
                    a,
                    h,
                    j as int,
                ),
            decreases self.entries@.len() - j,
        {
            let entry = self.entries[j];
            if entry.activity == a && entry.hook == h {
                return (entry.ok, entry.duration_ms);
            }
            j += 1;
        }
        (true, 0)
    }
}

/// The total number of operations the given tasks have not yet executed,
/// summed from task `t` on.
pub open spec fn remaining_from(tasks: Seq<Task>, cursors: Seq<usize>, t: int) -> int
    decreases tasks.len() - t,
{
    if t < 0 || t >= tasks.len() {
        0
    } else {
        (if cursors[t] <= tasks[t].ops@.len() {
            tasks[t].ops@.len() - cursors[t]
        } else {
            0int
        }) + remaining_from(tasks, cursors, t + 1)
    }
}

/// The remaining-operation sum is never negative.
pub proof fn lemma_remaining_nonneg(tasks: Seq<Task>, cursors: Seq<usize>, t: int)
    ensures
        remaining_from(tasks, cursors, t) >= 0,
    decreases tasks.len() - t,
{
    if 0 <= t < tasks.len() {
        lemma_remaining_nonneg(tasks, cursors, t + 1);
    }
}

/// Advancing one cursor by one removes exactly one remaining operation.
pub proof fn lemma_remaining_update(
    tasks: Seq<Task>,
    cursors: Seq<usize>,
    i: int,
    v: usize,
    t: int,
)
    requires
        cursors.len() == tasks.len(),
        0 <= i < tasks.len(),
        0 <= t,
    ensures
        remaining_from(tasks, cursors.update(i, v), t) == remaining_from(tasks, cursors, t)
            + if t <= i {
            (if v <= tasks[i].ops@.len() {
                tasks[i].ops@.len() - v
            } else {
                0int
            }) - (if cursors[i] <= tasks[i].ops@.len() {
                tasks[i].ops@.len() - cursors[i]
            } else {
                0int
            })
        } else {
            0int
        },
    decreases tasks.len() - t,
{
    if 0 <= t < tasks.len() {
        lemma_remaining_update(tasks, cursors, i, v, t + 1);
    }
}

impl TaskExec {
    /// Run tasks until every task has completed or no task can proceed:
    /// either all are done, or each is failed, finished, or blocked on an
    /// event that nobody will fire (a deadlock surfaced by the cycle driver
    /// as an overrun). `Invoke` outcomes come from the plan.
    pub fn run_to_completion(&mut self, plan: &InvokePlan) -> (complete: bool)
        requires
            old(self).wf(),
        ensures
            final(self).wf(),
            final(self).tasks == old(self).tasks,
            final(self).init == old(self).init,
            final(self).trace@.take(old(self).trace@.len() as int) == old(self).trace@,
            final(self).trace@.len() >= old(self).trace@.len(),
            complete == final(self).all_complete(),
            forall|t: int| !final(self).task_runnable(t),
            ((forall|a: ActivityId, h: Hook| #[trigger] plan.spec_ok(a, h)) && (forall|t: int|
                0 <= t < old(self).tasks@.len() ==> !old(self).failed@[t])) ==> (forall|t: int|
                0 <= t < final(self).tasks@.len() ==> !final(self).failed@[t]),
    {
        loop
            invariant
                self.wf(),
                self.tasks == old(self).tasks,
                self.init == old(self).init,
                self.trace@.take(old(self).trace@.len() as int) == old(self).trace@,
                self.trace@.len() >= old(self).trace@.len(),
                ((forall|a: ActivityId, h: Hook| #[trigger] plan.spec_ok(a, h)) && (forall|
                    t: int,
                |
                    0 <= t < old(self).tasks@.len() ==> !old(self).failed@[t])) ==> (forall|
                    t: int,
                |
                    0 <= t < self.tasks@.len() ==> !self.failed@[t]),
            ensures
                forall|t: int| !self.task_runnable(t),
            decreases remaining_from(self.tasks@, self.cursors@, 0),
        {
            proof {
                lemma_remaining_nonneg(self.tasks@, self.cursors@, 0);
            }
            let next = self.find_runnable();
            match next {
                None => {
                    break ;
                },
                Some(i) => {
                    let ghost old_cursors = self.cursors@;
                    let ghost prev_trace = self.trace@;
                    let cursor = self.cursors[i];
                    let task_len = self.tasks[i].ops.len();
                    assert(cursor < task_len);
                    let op = self.tasks[i].ops[cursor];
                    let ok = match op {
                        Op::Invoke(a, h) => {
                            let (ok, _dur) = plan.behavior(a, h);
                            ok
                        },
                        _ => true,
                    };
                    self.exec_op(i, ok);
                    proof {
                        let v = self.cursors@[i as int];
                        assert(self.cursors@ == old_cursors.update(i as int, v));
                        assert(v == old_cursors[i as int] + 1);
                        lemma_remaining_update(self.tasks@, old_cursors, i as int, v, 0);
                        lemma_remaining_nonneg(self.tasks@, self.cursors@, 0);
                        assert(remaining_from(self.tasks@, self.cursors@, 0) == remaining_from(
                            self.tasks@,
                            old_cursors,
                            0,
                        ) - 1);
                        assert(self.trace@.take(old(self).trace@.len() as int)
                            =~= old(self).trace@);
                    }
                },
            }
        }
        let mut t: usize = 0;
        let mut complete = true;
        while t < self.tasks.len()
            invariant
                self.wf(),
                t <= self.tasks@.len(),
                complete == forall|u: int| 0 <= u < t ==> self.task_complete(u),
            decreases self.tasks@.len() - t,
        {
            if self.failed[t] || self.cursors[t] < self.tasks[t].ops.len() {
                proof {
                    assert(!self.task_complete(t as int));
                }
                complete = false;
            } else {
                proof {
                    assert(self.task_complete(t as int));
                }
            }
            t += 1;
        }
        complete
    }
}

/// A longer prefix of the trace holds at least as many entries of any task.
pub proof fn lemma_count_take_monotone(tr: Seq<TraceEntry>, t: int, p: int, q: int)
    requires
        0 <= p <= q <= tr.len(),
    ensures
        count_task(tr.take(p), t) <= count_task(tr.take(q), t),
    decreases q - p,
{
    if p < q {
        lemma_count_take_monotone(tr, t, p, q - 1);
        assert(tr.take(q).drop_last() =~= tr.take(q - 1));
    }
}

/// Every occurrence index below the count of a prefix is realised by an entry
/// in that prefix: if the first `p` entries hold `n` entries of task `t`,
/// then for every `j < n` one of them is the `j`-th entry of task `t`.
pub proof fn lemma_count_witness(tr: Seq<TraceEntry>, t: int, p: int, j: int)
    requires
        0 <= p <= tr.len(),
        0 <= j < count_task(tr.take(p), t),
    ensures
        exists|q: int| 0 <= q < p && #[trigger] tr[q].tix == t && count_task(tr.take(q), t) == j,
    decreases p,
{
    assert(tr.take(p).len() == p);
    assert(p > 0) by {
        if p == 0 {
            assert(count_task(tr.take(0), t) == 0);
        }
    }
    assert(tr.take(p).drop_last() =~= tr.take(p - 1));
    assert(tr.take(p).last() == tr[p - 1]);
    if tr[p - 1].tix == t && count_task(tr.take(p - 1), t) == j {
        assert(0 <= p - 1 < p && tr[p - 1].tix == t && count_task(tr.take(p - 1), t) == j);
    } else {
        assert(j < count_task(tr.take(p - 1), t));
        lemma_count_witness(tr, t, p - 1, j);
        let q = choose|q: int| 0 <= q < p - 1 && #[trigger] tr[q].tix == t && count_task(
            tr.take(q),
            t,
        ) == j;
        assert(0 <= q < p && tr[q].tix == t && count_task(tr.take(q), t) == j);
    }
}

impl TaskExec {
    /// Program order within a task: before an entry of task `t` at occurrence
    /// index `oix`, every earlier operation of `t` already has an entry, and
    /// that entry records the task's operation at its index.
    pub proof fn lemma_program_order(self, p: int, j: int) -> (q: int)
        requires
            self.wf(),
            0 <= p < self.trace@.len(),
            0 <= j < self.trace@[p].oix,
        ensures
            0 <= q < p,
            self.trace@[q].tix == self.trace@[p].tix,
            self.trace@[q].oix == j,
            self.trace@[q].op
                == self.tasks@[self.trace@[p].tix as int].ops@[j],
    {
        let tr = self.trace@;
        let t = tr[p].tix as int;
        assert(tr[p].oix == count_task(tr.take(p), t));
        lemma_count_witness(tr, t, p, j);
        let q = choose|q: int| 0 <= q < p && #[trigger] tr[q].tix == t && count_task(
            tr.take(q),
            t,
        ) == j;
        assert(tr[q].oix == count_task(tr.take(q), t));
        q
    }

    /// A task that has executed its `j`-th operation left an entry for it.
    pub proof fn lemma_cursor_witness(self, t: int, j: int) -> (p: int)
        requires
            self.wf(),
            0 <= t < self.tasks@.len(),
            0 <= j < self.cursors@[t],
        ensures
            0 <= p < self.trace@.len(),
            self.trace@[p].tix == t,
            self.trace@[p].oix == j,
            self.trace@[p].op == self.tasks@[t].ops@[j],
    {
        let tr = self.trace@;
        assert(tr.take(tr.len() as int) =~= tr);
        lemma_count_witness(tr, t, tr.len() as int, j);
        let p = choose|p: int| 0 <= p < tr.len() && #[trigger] tr[p].tix == t && count_task(
            tr.take(p),
            t,
        ) == j;
        p
    }

    /// A `Sync` entry for an event that had not fired initially was preceded
    /// by a `Trigger` entry of that event.
    pub proof fn lemma_sync_source(self, p: int, e: EventId) -> (q: int)
        requires
            self.wf(),
            0 <= p < self.trace@.len(),
            self.trace@[p].op == Op::Sync(e),
            !self.init@.contains(e),
        ensures
            0 <= q < p,
            self.trace@[q].op == Op::Trigger(e),
    {
        let tr = self.trace@;
        assert(triggered_in(tr.take(p), e));
        let q = choose|q: int| 0 <= q < tr.take(p).len() && tr.take(p)[q].op == Op::Trigger(e);
        q
    }

    /// Two distinct trace positions of the same task record strictly
    /// increasing occurrence indices: no operation is recorded twice.
    pub proof fn lemma_order_strict(self, p: int, q: int)
        requires
            self.wf(),
            0 <= p < q < self.trace@.len(),
            self.trace@[p].tix == self.trace@[q].tix,
        ensures
            self.trace@[p].oix < self.trace@[q].oix,
    {
        let tr = self.trace@;
        let t = tr[p].tix as int;
        lemma_count_take_monotone(tr, t, p + 1, q);
        assert(tr.take(p + 1).drop_last() =~= tr.take(p));
        assert(tr.take(p + 1).last() == tr[p]);
    }

    /// An operation that occurs at exactly one place across all task
    /// programs is executed at most once.
    pub proof fn lemma_op_at_most_once(self, op: Op, t0: int, j0: int)
        requires
            self.wf(),
            forall|t: int, j: int| (0 <= t < self.tasks@.len() && 0 <= j
                < self.tasks@[t].ops@.len() && self.tasks@[t].ops@[j] == op) ==> t == t0 && j
                == j0,
        ensures
            count_op(self.trace@, op) <= 1,
    {
        let tr = self.trace@;
        if count_op(tr, op) >= 2 {
            let (p, q) = lemma_count_op_two(tr, op);
            assert(tr[p].tix == t0 && tr[p].oix == j0);
            assert(tr[q].tix == t0 && tr[q].oix == j0);
            self.lemma_order_strict(p, q);
        }
    }
}

/// A trace holds an entry of the given operation exactly when its count is
/// positive.
pub proof fn lemma_count_op_positive(tr: Seq<TraceEntry>, op: Op)
    ensures
        count_op(tr, op) >= 1 <==> exists|p: int| 0 <= p < tr.len() && tr[p].op == op,
    decreases tr.len(),
{
    if tr.len() > 0 {
        lemma_count_op_positive(tr.drop_last(), op);
        if count_op(tr, op) >= 1 {
            if tr.last().op != op {
                let p = choose|p: int| 0 <= p < tr.drop_last().len() && tr.drop_last()[p].op
                    == op;
                assert(tr[p].op == op);
            } else {
                assert(tr[tr.len() - 1].op == op);
            }
        }
        if exists|p: int| 0 <= p < tr.len() && tr[p].op == op {
            let p = choose|p: int| 0 <= p < tr.len() && tr[p].op == op;
            if p < tr.len() - 1 {
                assert(tr.drop_last()[p].op == op);
            }
        }
    }
}

/// A count of two or more yields two distinct positions with the operation.
pub proof fn lemma_count_op_two(tr: Seq<TraceEntry>, op: Op) -> (r: (int, int))
    requires
        count_op(tr, op) >= 2,
    ensures
        0 <= r.0 < r.1 < tr.len(),
        tr[r.0].op == op,
        tr[r.1].op == op,
    decreases tr.len(),
{
    if tr.last().op == op {
        lemma_count_op_positive(tr.drop_last(), op);
        let p = choose|p: int| 0 <= p < tr.drop_last().len() && tr.drop_last()[p].op == op;
        assert(tr[p].op == op);
        (p, tr.len() - 1)
    } else {
        let (p, q) = lemma_count_op_two(tr.drop_last(), op);
        assert(tr[p].op == op && tr[q].op == op);
        (p, q)
    }
}

/// How a pushed entry relates the new trace to the old one: prefixes, counts
/// and trigger records carry over.
pub proof fn lemma_trace_push(tr: Seq<TraceEntry>, en: TraceEntry)
    ensures
        tr.push(en).drop_last() == tr,
        tr.push(en).last() == en,
        forall|p: int| 0 <= p <= tr.len() ==> #[trigger] tr.push(en).take(p) == tr.take(p),
        tr.push(en).take(tr.len() as int) == tr,
        forall|t: int| #[trigger] count_task(tr.push(en), t) == count_task(tr, t) + if en.tix == t {
            1int
        } else {
            0int
        },
        forall|op: Op| #[trigger] count_op(tr.push(en), op) == count_op(tr, op) + if en.op == op {
            1int
        } else {
            0int
        },
        forall|e: EventId| #[trigger] triggered_in(tr.push(en), e) <==> (triggered_in(tr, e)
            || en.op == Op::Trigger(e)),
{
    assert(tr.push(en).drop_last() =~= tr);
    assert forall|p: int| 0 <= p <= tr.len() implies #[trigger] tr.push(en).take(p) == tr.take(
        p,
    ) by {
        assert(tr.push(en).take(p) =~= tr.take(p));
    }
    assert(tr.push(en).take(tr.len() as int) =~= tr);
    assert forall|e: EventId| #[trigger] triggered_in(tr.push(en), e) implies (triggered_in(tr, e)
        || en.op == Op::Trigger(e)) by {
        let p = choose|p: int| 0 <= p < tr.push(en).len() && tr.push(en)[p].op == Op::Trigger(e);
        if p < tr.len() {
            assert(tr[p].op == Op::Trigger(e));
        }
    }
    assert forall|e: EventId| triggered_in(tr, e) implies #[trigger] triggered_in(
        tr.push(en),
        e,
    ) by {
        let p = choose|p: int| 0 <= p < tr.len() && tr[p].op == Op::Trigger(e);
        assert(tr.push(en)[p].op == Op::Trigger(e));
    }
    assert forall|e: EventId| en.op == Op::Trigger(e) implies #[trigger] triggered_in(
        tr.push(en),
        e,
    ) by {
        assert(tr.push(en)[tr.len() as int].op == Op::Trigger(e));
    }
}

} // verus!
