//! The program and its cycle driver.
//!
//! A program holds four slots — startup hook, per-cycle body, shutdown
//! notification and shutdown hook — and a cycle period. `run_n` drives the
//! body for exactly `k` cycles; `run` drives it until the external shutdown
//! event fires. At every cycle boundary the driver re-arms the body's events,
//! dispatches the body, and paces the next cycle on a fixed-period schedule:
//! a cycle that finishes early waits for its deadline, a cycle that overruns
//! is recorded and the next cycle begins immediately.
//!
//! Time is the driver's logical clock in milliseconds: each invoked hook
//! contributes the duration scripted for it in the run's plan.

use vstd::prelude::*;

use crate::events::{EventBus, EventId};
use crate::ids::{ActivityId, AgentId};
use crate::orchestrator::{
    agents_of, body_event, body_shape, build_body_tasks, build_shutdown_tasks,
    build_startup_tasks, body_event_list, is_body_kind, is_shutdown_kind, is_startup_kind,
    lemma_body_shape_transfer, lemma_body_triggers, lemma_shutdown_shape_transfer,
    lemma_startup_shape_transfer, lemma_startup_triggers, shutdown_shape, startup_shape,
};
use crate::tasks::{count_op, Hook, InvokePlan, Op, Task, TaskExec, TraceEntry};

verus! {

/// A deep copy of a task list, so that each cycle starts from the template
/// with fresh progress.
pub fn clone_task_list(src: &Vec<Task>) -> (out: Vec<Task>)
    ensures
        out@.len() == src@.len(),
        forall|t: int| 0 <= t < src@.len() ==> (#[trigger] out@[t]).ops@ == src@[t].ops@,
{
    let mut out: Vec<Task> = Vec::new();
    let mut t: usize = 0;
    while t < src.len()
        invariant
            t <= src@.len(),
            out@.len() == t,
            forall|u: int| 0 <= u < t ==> (#[trigger] out@[u]).ops@ == src@[u].ops@,
        decreases src@.len() - t,
    {
        let mut ops: Vec<Op> = Vec::new();
        let mut j: usize = 0;
        let task = &src[t];
        while j < task.ops.len()
            invariant
                j <= task.ops@.len(),
                ops@.len() == j,
                forall|i: int| 0 <= i < j ==> #[trigger] ops@[i] == task.ops@[i],
            decreases task.ops@.len() - j,
        {
            ops.push(task.ops[j]);
            j += 1;
        }
        proof {
            assert(ops@ =~= src@[t as int].ops@);
        }
        out.push(Task { ops });
        t += 1;
    }
    out
}

/// The logical time a trace takes: the sum of the planned durations of its
/// invoked hooks.
pub open spec fn trace_elapsed(tr: Seq<TraceEntry>, plan: InvokePlan) -> int
    decreases tr.len(),
{
    if tr.len() == 0 {
        0
    } else {
        trace_elapsed(tr.drop_last(), plan) + match tr.last().op {
            Op::Invoke(a, h) => plan.spec_duration(a, h) as int,
            _ => 0,
        }
    }
}

/// Sum the planned durations of the invoked hooks of a trace.
pub fn sum_invoke_durations(trace: &Vec<TraceEntry>, plan: &InvokePlan) -> (elapsed: u128)
    ensures
        elapsed == trace_elapsed(trace@, *plan),
        elapsed <= trace@.len() * 0xffff_ffffu32,
        elapsed <= 0x1_0000_0000_0000_0000_0000_0000u128,
{
    let mut elapsed: u128 = 0;
    let mut i: usize = 0;
    let n = trace.len();
    while i < n
        invariant
            i <= n,
            n == trace@.len(),
            elapsed == trace_elapsed(trace@.take(i as int), *plan),
            elapsed <= i * 0xffff_ffffu32,
        decreases n - i,
    {
        let dur: u32 = match trace[i].op {
            Op::Invoke(a, h) => plan.behavior(a, h).1,
            _ => 0,
        };
        proof {
            assert(trace@.take(i + 1).drop_last() =~= trace@.take(i as int));
            assert(trace@.take(i + 1).last() == trace@[i as int]);
        }
        elapsed = elapsed + dur as u128;
        i += 1;
    }
    proof {
        assert(trace@.take(n as int) =~= trace@);
        assert(elapsed <= 0x1_0000_0000_0000_0000_0000_0000u128) by (nonlinear_arith)
            requires
                elapsed <= n * 0xffff_ffffu32,
                n <= 0xffff_ffff_ffff_ffffu64,
        ;
    }
    elapsed
}

/// Count the trace entries that invoked the given hook of the given
/// activity.
pub fn count_invocations(trace: &Vec<TraceEntry>, a: ActivityId, h: Hook) -> (n: usize)
    ensures
        n == count_op(trace@, Op::Invoke(a, h)),
{
    let mut n: usize = 0;
    let mut i: usize = 0;
    while i < trace.len()
        invariant
            i <= trace@.len(),
            n == count_op(trace@.take(i as int), Op::Invoke(a, h)),
            n <= i,
        decreases trace@.len() - i,
    {
        proof {
            assert(trace@.take(i + 1).drop_last() =~= trace@.take(i as int));
            assert(trace@.take(i + 1).last() == trace@[i as int]);
        }
        if trace[i].op == Op::Invoke(a, h) {
            n += 1;
        }
        i += 1;
    }
    proof {
        assert(trace@.take(trace@.len() as int) =~= trace@);
    }
    n
}

/// The number of overrunning cycles in a report.
pub open spec fn count_overruns(cycles: Seq<CycleRecord>) -> int
    decreases cycles.len(),
{
    if cycles.len() == 0 {
        0
    } else {
        count_overruns(cycles.drop_last()) + if cycles.last().overrun {
            1int
        } else {
            0int
        }
    }
}

/// What one cycle did: its trace, whether every task completed, whether it
/// overran its period, and its place on the logical schedule. The ghost
/// scheduler snapshot carries the well-formedness facts the ordering
/// theorems of [`crate::orchestrator`] are stated over.
pub struct CycleRecord {
    /// Every operation the cycle executed, in order.
    pub trace: Vec<TraceEntry>,
    /// Whether every task of the body completed.
    pub complete: bool,
    /// Whether the cycle took longer than the period.
    pub overrun: bool,
    /// When the cycle began, on the logical clock.
    pub start_ms: u128,
    /// When its body finished, on the logical clock.
    pub end_ms: u128,
    /// The scheduler state at the end of the cycle.
    pub sched: Ghost<TaskExec>,
}

/// What one full run did.
pub struct RunReport {
    /// Whether the startup hook completed; on failure no cycle runs, and the
    /// shutdown hook still runs.
    pub startup_ok: bool,
    /// The trace of the startup phase.
    pub startup_trace: Vec<TraceEntry>,
    /// The scheduler state at the end of startup.
    pub startup_exec: Ghost<TaskExec>,
    /// One record per executed cycle.
    pub cycles: Vec<CycleRecord>,
    /// Whether the shutdown hook completed.
    pub shutdown_ok: bool,
    /// The trace of the shutdown phase.
    pub shutdown_trace: Vec<TraceEntry>,
    /// The scheduler state at the end of shutdown.
    pub shutdown_exec: Ghost<TaskExec>,
    /// How many cycles overran their period.
    pub overrun_count: usize,
}

/// Scripted outside behaviour of one run: hook outcomes and durations per
/// phase, and when the operator fires the external shutdown event. A cycle
/// without a script would mean nothing further arrives, so `run` is bounded
/// by the script's length.
pub struct RunPlan {
    /// Hook behaviour during startup.
    pub startup: InvokePlan,
    /// Hook behaviour per cycle.
    pub cycles: Vec<InvokePlan>,
    /// Hook behaviour during shutdown.
    pub shutdown: InvokePlan,
    /// After which cycle the external shutdown event fires, if ever.
    pub external_shutdown_at: Option<usize>,
}

impl RunPlan {
    /// A plan of `k` cycles in which every hook succeeds immediately and no
    /// external shutdown arrives.
    pub fn all_ok(k: usize) -> (plan: RunPlan)
        ensures
            plan.cycles@.len() == k,
            plan.startup.entries@.len() == 0,
            plan.shutdown.entries@.len() == 0,
            forall|i: int| 0 <= i < k ==> (#[trigger] plan.cycles@[i]).entries@.len() == 0,
            plan.external_shutdown_at is None,
    {
        let mut cycles: Vec<InvokePlan> = Vec::new();
        let mut i: usize = 0;
        while i < k
            invariant
                i <= k,
                cycles@.len() == i,
                forall|j: int| 0 <= j < i ==> (#[trigger] cycles@[j]).entries@.len() == 0,
            decreases k - i,
        {
            cycles.push(InvokePlan { entries: Vec::new() });
            i += 1;
        }
        RunPlan {
            startup: InvokePlan { entries: Vec::new() },
            cycles,
            shutdown: InvokePlan { entries: Vec::new() },
            external_shutdown_at: None,
        }
    }
}

/// The start of the next cycle: the period deadline when the cycle met it,
/// the cycle's own end when it overran. Cycles are paced on a fixed schedule
/// with no catch-up and no drift; an overrunning cycle pushes the schedule
/// back and the next cycle begins immediately.
pub fn next_cycle_start(start: u128, period_ms: u32, end: u128) -> (next: u128)
    requires
        start + period_ms <= u128::MAX,
        start <= end <= u128::MAX,
    ensures
        next == if end > start + period_ms {
            end
        } else {
            (start + period_ms) as u128
        },
        next >= start + period_ms || next == end,
        end <= start + period_ms ==> next == start + period_ms,
{
    let deadline = start + period_ms as u128;
    if end > deadline {
        end
    } else {
        deadline
    }
}

/// A program: the startup hook, the per-cycle body, the shutdown hook, the
/// events the body uses (re-armed at every cycle boundary), and the cycle
/// period — together with the configuration they were built from.
pub struct Program {
    /// The agents the global handshakes wait for.
    pub agents: Vec<AgentId>,
    /// Which activities each present agent runs.
    pub assignments: Vec<(AgentId, Vec<ActivityId>)>,
    /// Each activity and its prerequisites.
    pub graph: Vec<(ActivityId, Vec<ActivityId>)>,
    /// The startup phase's tasks.
    pub startup: Vec<Task>,
    /// The body's tasks, a template instantiated afresh each cycle.
    pub body: Vec<Task>,
    /// The shutdown phase's tasks.
    pub shutdown: Vec<Task>,
    /// The events reset at every cycle boundary.
    pub body_events: Vec<EventId>,
    /// The cycle period, in milliseconds.
    pub period_ms: u32,
}

impl Program {
    /// The three phases lay out the declared configuration, and the reset
    /// list holds exactly the body's events.
    pub open spec fn wf(self) -> bool {
        &&& startup_shape(self.startup@, self.agents@, self.assignments@)
        &&& body_shape(self.body@, self.graph@)
        &&& shutdown_shape(self.shutdown@, self.agents@, self.assignments@)
        &&& forall|e: EventId| self.body_events@.contains(e) <==> body_event(self.graph@, e)
    }

    /// The facts `run` guarantees of every cycle record: a well-formed
    /// scheduler state over the body's layout, a trace matching the record,
    /// no body event fired at cycle start (the cycle-boundary reset), and
    /// the cycle's span and overrun flag on the logical clock.
    #[verifier::opaque]
    pub open spec fn cycle_ok(self, c: CycleRecord, cplan: InvokePlan) -> bool {
        &&& c.sched@.wf()
        &&& body_shape(c.sched@.tasks@, self.graph@)
        &&& c.sched@.trace@ == c.trace@
        &&& c.complete == c.sched@.all_complete()
        &&& (forall|e: EventId| body_event(self.graph@, e) ==> !c.sched@.init@.contains(e))
        &&& (forall|t: int| !c.sched@.task_runnable(t))
        &&& ((forall|a: ActivityId, h: Hook| #[trigger] cplan.spec_ok(a, h)) ==> (forall|t: int|
            0 <= t < c.sched@.tasks@.len() ==> !c.sched@.failed@[t]))
        &&& c.end_ms == c.start_ms + trace_elapsed(c.trace@, cplan)
        &&& c.overrun == (c.end_ms - c.start_ms > self.period_ms)
    }

    /// Run the startup phase from a fresh bus: no event has fired before it.
    fn run_startup(&self, splan: &InvokePlan) -> (r: (bool, Vec<TraceEntry>, EventBus, Ghost<
        TaskExec,
    >))
        requires
            self.wf(),
        ensures
            r.3@.wf(),
            startup_shape(r.3@.tasks@, self.agents@, self.assignments@),
            r.3@.init@ == Set::<EventId>::empty(),
            r.3@.trace@ == r.1@,
            r.0 == r.3@.all_complete(),
            forall|e: EventId| #[trigger] r.2@.contains(e) ==> is_startup_kind(e),
    {
        let bus0 = EventBus::new();
        let startup_tasks = clone_task_list(&self.startup);
        proof {
            lemma_startup_shape_transfer(
                self.startup@,
                startup_tasks@,
                self.agents@,
                self.assignments@,
            );
        }
        let mut sexec = TaskExec::new(startup_tasks, bus0);
        let startup_ok = sexec.run_to_completion(splan);
        let ghost startup_snap = sexec;
        proof {
            lemma_startup_triggers(startup_snap, self.agents@, self.assignments@);
        }
        let TaskExec { tasks: _, cursors: _, failed: _, bus, trace, init: _ } = sexec;
        (startup_ok, trace, bus, Ghost(startup_snap))
    }

    /// Run one body dispatch: re-arm the body's events, instantiate the body
    /// template, run it until every task completes or none can proceed, and
    /// place the cycle on the logical schedule beginning at `start`. Only
    /// body events change on the bus.
    fn run_one_cycle(&self, bus: EventBus, cplan: &InvokePlan, start: u128) -> (r: (
        CycleRecord,
        EventBus,
    ))
        requires
            self.wf(),
            start <= 0x4000_0000_0000_0000_0000_0000_0000_0000u128,
        ensures
            self.cycle_ok(r.0, *cplan),
            r.0.start_ms == start,
            r.0.end_ms >= start,
            r.0.end_ms - r.0.start_ms <= 0x1_0000_0000_0000_0000_0000_0000,
            r.0.overrun == (r.0.end_ms - r.0.start_ms > self.period_ms),
            forall|e: EventId| !is_body_kind(e) ==> (r.1@.contains(e) <==> bus@.contains(e)),
            forall|e: EventId| #[trigger] r.1@.contains(e) ==> bus@.contains(e) || is_body_kind(
                e,
            ),
    {
        let mut bus = bus;
        bus.reset_all(&self.body_events);
        proof {
            assert forall|e: EventId| body_event(self.graph@, e) implies is_body_kind(e) by {}
            assert forall|e: EventId| body_event(self.graph@, e) implies !bus@.contains(e) by {
                assert(self.body_events@.contains(e));
            }
        }
        let body_tasks = clone_task_list(&self.body);
        proof {
            lemma_body_shape_transfer(self.body@, body_tasks@, self.graph@);
        }
        let mut bexec = TaskExec::new(body_tasks, bus);
        let ghost fresh = bexec;
        proof {
            assert forall|t: int| 0 <= t < fresh.tasks@.len() implies !fresh.failed@[t] by {
                assert(fresh.cursors@[t] == 0);
            }
        }
        let complete = bexec.run_to_completion(cplan);
        let ghost snap = bexec;
        proof {
            lemma_body_triggers(snap, self.graph@);
        }
        let TaskExec { tasks: _, cursors: _, failed: _, bus: bus2, trace: ctrace, init: _ } =
            bexec;
        let elapsed = sum_invoke_durations(&ctrace, cplan);
        let end = start + elapsed;
        let overrun = elapsed > self.period_ms as u128;
        let record = CycleRecord {
            trace: ctrace,
            complete,
            overrun,
            start_ms: start,
            end_ms: end,
            sched: Ghost(snap),
        };
        proof {
            assert(self.cycle_ok(record, *cplan)) by {
                reveal(Program::cycle_ok);
            }
        }
        (record, bus2)
    }

    /// Run the shutdown phase on the bus the cycles left behind.
    fn run_shutdown(&self, dplan: &InvokePlan, bus: EventBus) -> (r: (bool, Vec<TraceEntry>,
        Ghost<TaskExec>,
    ))
        requires
            self.wf(),
            forall|e: EventId| is_shutdown_kind(e) ==> !bus@.contains(e),
        ensures
            r.2@.wf(),
            shutdown_shape(r.2@.tasks@, self.agents@, self.assignments@),
            forall|e: EventId| is_shutdown_kind(e) ==> !r.2@.init@.contains(e),
            r.2@.trace@ == r.1@,
            r.0 == r.2@.all_complete(),
    {
        let shutdown_tasks = clone_task_list(&self.shutdown);
        proof {
            lemma_shutdown_shape_transfer(
                self.shutdown@,
                shutdown_tasks@,
                self.agents@,
                self.assignments@,
            );
        }
        let mut dexec = TaskExec::new(shutdown_tasks, bus);
        let shutdown_ok = dexec.run_to_completion(dplan);
        let ghost shutdown_snap = dexec;
        let TaskExec { tasks: _, cursors: _, failed: _, bus: _, trace, init: _ } = dexec;
        (shutdown_ok, trace, Ghost(shutdown_snap))
    }

    /// Drive the program: startup, one body dispatch per scripted cycle
    /// until the external shutdown event fires or the script ends, then
    /// shutdown. A startup failure skips every cycle; the shutdown hook
    /// still runs.
    #[verifier::rlimit(100)]
    pub fn run(&self, plan: &RunPlan) -> (report: RunReport)
        requires
            self.wf(),
            plan.cycles@.len() <= 0x100_0000,
        ensures
            report.startup_exec@.wf(),
            startup_shape(report.startup_exec@.tasks@, self.agents@, self.assignments@),
            report.startup_exec@.init@ == Set::<EventId>::empty(),
            report.startup_exec@.trace@ == report.startup_trace@,
            report.startup_ok == report.startup_exec@.all_complete(),
            report.cycles@.len() == if !report.startup_ok {
                0int
            } else if plan.external_shutdown_at matches Some(j) && j < plan.cycles@.len() {
                plan.external_shutdown_at->0 + 1int
            } else {
                plan.cycles@.len() as int
            },
            forall|i: int| 0 <= i < report.cycles@.len() ==> self.cycle_ok(
                #[trigger] report.cycles@[i],
                plan.cycles@[i],
            ),
            report.cycles@.len() > 0 ==> report.cycles@[0].start_ms == 0,
            forall|i: int| 0 < i < report.cycles@.len() ==> (#[trigger] report.cycles@[i]).start_ms
                == if report.cycles@[i - 1].overrun {
                report.cycles@[i - 1].end_ms
            } else {
                (report.cycles@[i - 1].start_ms + self.period_ms) as u128
            },
            report.overrun_count == count_overruns(report.cycles@),
            report.shutdown_exec@.wf(),
            shutdown_shape(report.shutdown_exec@.tasks@, self.agents@, self.assignments@),
            forall|e: EventId| is_shutdown_kind(e) ==> !report.shutdown_exec@.init@.contains(e),
            report.shutdown_exec@.trace@ == report.shutdown_trace@,
            report.shutdown_ok == report.shutdown_exec@.all_complete(),
    {
        let ghost per_cycle_bound: int = 0x2_0000_0000_0000_0000_0000_0000;

        // Startup phase, from a bus on which nothing has fired.
        let (startup_ok, startup_trace, bus, startup_snap) = self.run_startup(&plan.startup);
        let mut bus = bus;
        proof {
            assert(!bus@.contains(EventId::ExternalShutdown));
        }

        // Cycle phase.
        let mut cycles: Vec<CycleRecord> = Vec::new();
        let mut overrun_count: usize = 0;
        let mut now: u128 = 0;
        let k = plan.cycles.len();
        if startup_ok {
            let mut i: usize = 0;
            let mut stop = false;
            while i < k && !stop
                invariant
                    self.wf(),
                    k == plan.cycles@.len(),
                    k <= 0x100_0000,
                    i <= k,
                    cycles@.len() == i,
                    overrun_count == count_overruns(cycles@),
                    overrun_count <= i,
                    forall|j: int| 0 <= j < i ==> self.cycle_ok(
                        #[trigger] cycles@[j],
                        plan.cycles@[j],
                    ),
                    i > 0 ==> cycles@[0].start_ms == 0,
                    forall|j: int| 0 < j < i ==> (#[trigger] cycles@[j]).start_ms
                        == if cycles@[j - 1].overrun {
                        cycles@[j - 1].end_ms
                    } else {
                        (cycles@[j - 1].start_ms + self.period_ms) as u128
                    },
                    i == 0 ==> now == 0,
                    i > 0 ==> now == if cycles@[i - 1].overrun {
                        cycles@[i - 1].end_ms
                    } else {
                        (cycles@[i - 1].start_ms + self.period_ms) as u128
                    },
                    now <= i * per_cycle_bound,
                    per_cycle_bound == 0x2_0000_0000_0000_0000_0000_0000,
                    forall|e: EventId| #[trigger] bus@.contains(e) ==> is_startup_kind(e)
                        || is_body_kind(e) || e == EventId::ExternalShutdown,
                    bus@.contains(EventId::ExternalShutdown) <==> (
                    plan.external_shutdown_at matches Some(j) && j < i),
                    stop == (plan.external_shutdown_at matches Some(j) && j < i),
                    stop ==> (plan.external_shutdown_at matches Some(j) && j == i - 1),
                decreases k - i,
            {
                // Re-arm the body's events, dispatch the body, pace the
                // schedule.
                let (record, bus2) = self.run_one_cycle(bus, &plan.cycles[i], now);
                bus = bus2;
                if record.overrun {
                    overrun_count += 1;
                }
                now = next_cycle_start(record.start_ms, self.period_ms, record.end_ms);
                let ghost old_cycles = cycles@;
                let ghost was_overrun = record.overrun;
                cycles.push(record);
                proof {
                    assert(cycles@.drop_last() =~= old_cycles);
                    assert(count_overruns(cycles@) == count_overruns(old_cycles) + if was_overrun {
                        1int
                    } else {
                        0int
                    });
                }

                // The operator may fire the external shutdown event now; the
                // loop ends after the cycle in which it is seen.
                match plan.external_shutdown_at {
                    Some(at) => {
                        if at == i {
                            bus.trigger(EventId::ExternalShutdown);
                        }
                    },
                    None => {},
                }
                stop = bus.is_fired(EventId::ExternalShutdown);
                i += 1;
            }
        }

        // Shutdown phase; it runs even when startup failed.
        proof {
            assert forall|e: EventId| is_shutdown_kind(e) implies !bus@.contains(e) by {}
        }
        let (shutdown_ok, shutdown_trace, shutdown_snap) = self.run_shutdown(
            &plan.shutdown,
            bus,
        );

        RunReport {
            startup_ok,
            startup_trace,
            startup_exec: startup_snap,
            cycles,
            shutdown_ok,
            shutdown_trace,
            shutdown_exec: shutdown_snap,
            overrun_count,
        }
    }

    /// Drive the program for exactly `k` cycles, then shut down.
    pub fn run_n(&self, k: usize, plan: &RunPlan) -> (report: RunReport)
        requires
            self.wf(),
            plan.cycles@.len() == k,
            plan.external_shutdown_at is None,
            k <= 0x100_0000,
        ensures
            report.startup_exec@.wf(),
            startup_shape(report.startup_exec@.tasks@, self.agents@, self.assignments@),
            report.startup_exec@.init@ == Set::<EventId>::empty(),
            report.startup_exec@.trace@ == report.startup_trace@,
            report.startup_ok == report.startup_exec@.all_complete(),
            report.cycles@.len() == if report.startup_ok {
                k as int
            } else {
                0int
            },
            forall|i: int| 0 <= i < report.cycles@.len() ==> self.cycle_ok(
                #[trigger] report.cycles@[i],
                plan.cycles@[i],
            ),
            report.cycles@.len() > 0 ==> report.cycles@[0].start_ms == 0,
            forall|i: int| 0 < i < report.cycles@.len() ==> (#[trigger] report.cycles@[i]).start_ms
                == if report.cycles@[i - 1].overrun {
                report.cycles@[i - 1].end_ms
            } else {
                (report.cycles@[i - 1].start_ms + self.period_ms) as u128
            },
            report.overrun_count == count_overruns(report.cycles@),
            report.shutdown_exec@.wf(),
            shutdown_shape(report.shutdown_exec@.tasks@, self.agents@, self.assignments@),
            forall|e: EventId| is_shutdown_kind(e) ==> !report.shutdown_exec@.init@.contains(e),
            report.shutdown_exec@.trace@ == report.shutdown_trace@,
            report.shutdown_ok == report.shutdown_exec@.all_complete(),
    {
        self.run(plan)
    }
}

/// Assemble a program over the declared agents, the per-agent activity
/// assignments, and the dependency graph. The declared agents are those the
/// global handshakes wait for; an assignment absent for a declared agent
/// leaves startup waiting on its `alive` event.
pub fn build_program(
    agents: Vec<AgentId>,
    assignments: Vec<(AgentId, Vec<ActivityId>)>,
    graph: Vec<(ActivityId, Vec<ActivityId>)>,
    period_ms: u32,
) -> (prog: Program)
    ensures
        prog.wf(),
        prog.agents == agents,
        prog.assignments == assignments,
        prog.graph == graph,
        prog.period_ms == period_ms,
{
    let startup = build_startup_tasks(&agents, &assignments);
    let body = build_body_tasks(&graph);
    let shutdown = build_shutdown_tasks(&agents, &assignments);
    let body_events = body_event_list(&graph);
    Program { agents, assignments, graph, startup, body, shutdown, body_events, period_ms }
}

/// Assemble a program whose declared agents are exactly those of the
/// assignments: the common deployment, in which every declared agent is
/// present.
pub fn build_program_of(
    assignments: Vec<(AgentId, Vec<ActivityId>)>,
    graph: Vec<(ActivityId, Vec<ActivityId>)>,
    period_ms: u32,
) -> (prog: Program)
    ensures
        prog.wf(),
        prog.assignments == assignments,
        prog.graph == graph,
        prog.period_ms == period_ms,
        prog.agents@.len() == assignments@.len(),
        forall|i: int| 0 <= i < assignments@.len() ==> #[trigger] prog.agents@[i]
            == assignments@[i].0,
{
    let agents = agents_of(&assignments);
    build_program(agents, assignments, graph, period_ms)
}

} // verus!
