//! Layouts of the agent programs and the global driver program.
//!
//! The global orchestrator, which runs only on the primary agent, linearises
//! the declared dependency graph into events: per activity it waits for the
//! `step_completed` event of every prerequisite, then fires the activity's
//! `step` event and waits for its completion. Each agent's program releases an
//! activity's step exactly when its `step` event fires and reports completion
//! by firing the matching `step_completed` event. Startup and shutdown follow
//! the handshake of the protocol: `alive`, the global `startup` release and
//! `startup_completed` per agent; the `shutdown` broadcast and
//! `shutdown_completed` per agent.
//!
//! The builders lay the programs out as task lists for the scheduler of
//! [`crate::tasks`]; the theorems at the end state the ordering guarantees of
//! the protocol over any well-formed trace of those tasks.

use vstd::prelude::*;

use crate::events::EventId;
use crate::ids::{ActivityId, AgentId};
use crate::tasks::{
    count_op, triggered_in, Hook, Op, Task, TaskExec, lemma_count_op_positive,
};

verus! {

/// The operations of the global driver's task for one activity `x`:
/// wait for every prerequisite's completion, release `x`, await `x`.
pub open spec fn global_step_ops(x: ActivityId, deps: Seq<ActivityId>) -> Seq<Op> {
    Seq::new(deps.len(), |k: int| Op::Sync(EventId::ActivityStepCompleted(deps[k]))).push(
        Op::Trigger(EventId::ActivityStep(x)),
    ).push(Op::Sync(EventId::ActivityStepCompleted(x)))
}

/// The operations of an agent's task for one activity `x`: wait for the
/// release of `x`, run its step hook, report completion.
pub open spec fn agent_step_ops(x: ActivityId) -> Seq<Op> {
    seq![
        Op::Sync(EventId::ActivityStep(x)),
        Op::Invoke(x, Hook::Step),
        Op::Trigger(EventId::ActivityStepCompleted(x)),
    ]
}

/// The per-cycle body of the whole system over a dependency graph (one entry
/// per activity: the activity and its prerequisites): the global driver's
/// chain tasks followed by the agents' step tasks.
pub open spec fn body_shape(tasks: Seq<Task>, graph: Seq<(ActivityId, Vec<ActivityId>)>) -> bool {
    &&& tasks.len() == 2 * graph.len()
    &&& forall|t: int| 0 <= t < graph.len() ==> (#[trigger] tasks[t]).ops@ == global_step_ops(
        graph[t].0,
        graph[t].1@,
    )
    &&& forall|t: int| graph.len() <= t < tasks.len() ==> (#[trigger] tasks[t]).ops@
        == agent_step_ops(graph[t - graph.len()].0)
}

/// No activity appears twice in the graph.
pub open spec fn distinct_graph(graph: Seq<(ActivityId, Vec<ActivityId>)>) -> bool {
    forall|k1: int, k2: int| 0 <= k1 < graph.len() && 0 <= k2 < graph.len()
        && (#[trigger] graph[k1]).0 == (#[trigger] graph[k2]).0 ==> k1 == k2
}

/// Whether `e` is the `step` or `step_completed` event of one of the first
/// `n` activities of the graph.
pub open spec fn body_event_upto(
    graph: Seq<(ActivityId, Vec<ActivityId>)>,
    n: int,
    e: EventId,
) -> bool {
    exists|k: int| 0 <= k < n && (e == EventId::ActivityStep(#[trigger] graph[k].0) || e
        == EventId::ActivityStepCompleted(graph[k].0))
}

/// The events the body uses: the `step` and `step_completed` event of every
/// activity of the graph. These are reset at every cycle boundary.
pub open spec fn body_event(graph: Seq<(ActivityId, Vec<ActivityId>)>, e: EventId) -> bool {
    body_event_upto(graph, graph.len() as int, e)
}

/// Build the body task list of the whole system for one cycle.
pub fn build_body_tasks(graph: &Vec<(ActivityId, Vec<ActivityId>)>) -> (tasks: Vec<Task>)
    ensures
        body_shape(tasks@, graph@),
{
    let n = graph.len();
    let mut tasks: Vec<Task> = Vec::new();
    let mut k: usize = 0;
    while k < n
        invariant
            k <= n,
            n == graph@.len(),
            tasks@.len() == k,
            forall|t: int| 0 <= t < k ==> (#[trigger] tasks@[t]).ops@ == global_step_ops(
                graph@[t].0,
                graph@[t].1@,
            ),
        decreases n - k,
    {
        let x = graph[k].0;
        let deps = &graph[k].1;
        let mut ops: Vec<Op> = Vec::new();
        let mut d: usize = 0;
        while d < deps.len()
            invariant
                d <= deps@.len(),
                ops@.len() == d,
                forall|i: int| 0 <= i < d ==> ops@[i] == Op::Sync(
                    EventId::ActivityStepCompleted(#[trigger] deps@[i]),
                ),
            decreases deps@.len() - d,
        {
            ops.push(Op::Sync(EventId::ActivityStepCompleted(deps[d])));
            d += 1;
        }
        ops.push(Op::Trigger(EventId::ActivityStep(x)));
        ops.push(Op::Sync(EventId::ActivityStepCompleted(x)));
        proof {
            assert(ops@ =~= global_step_ops(graph@[k as int].0, graph@[k as int].1@));
        }
        tasks.push(Task { ops });
        k += 1;
    }
    let mut k: usize = 0;
    while k < n
        invariant
            k <= n,
            n == graph@.len(),
            tasks@.len() == n + k,
            forall|t: int| 0 <= t < n ==> (#[trigger] tasks@[t]).ops@ == global_step_ops(
                graph@[t].0,
                graph@[t].1@,
            ),
            forall|t: int| n <= t < n + k ==> (#[trigger] tasks@[t]).ops@ == agent_step_ops(
                graph@[t - n].0,
            ),
        decreases n - k,
    {
        let x = graph[k].0;
        let mut ops: Vec<Op> = Vec::new();
        ops.push(Op::Sync(EventId::ActivityStep(x)));
        ops.push(Op::Invoke(x, Hook::Step));
        ops.push(Op::Trigger(EventId::ActivityStepCompleted(x)));
        proof {
            assert(ops@ =~= agent_step_ops(graph@[k as int].0));
        }
        tasks.push(Task { ops });
        k += 1;
    }
    tasks
}

/// List the body's events, for the cycle-boundary reset.
pub fn body_event_list(graph: &Vec<(ActivityId, Vec<ActivityId>)>) -> (events: Vec<EventId>)
    ensures
        forall|e: EventId| events@.contains(e) <==> body_event(graph@, e),
{
    broadcast use vstd::seq_lib::group_seq_properties;

    let mut events: Vec<EventId> = Vec::new();
    let mut k: usize = 0;
    while k < graph.len()
        invariant
            k <= graph@.len(),
            forall|e: EventId| events@.contains(e) <==> body_event_upto(graph@, k as int, e),
        decreases graph@.len() - k,
    {
        let x = graph[k].0;
        let ghost prev = events@;
        events.push(EventId::ActivityStep(x));
        events.push(EventId::ActivityStepCompleted(x));
        proof {
            let cur = events@;
            let m = prev.len() as int;
            assert(cur == prev.push(EventId::ActivityStep(x)).push(
                EventId::ActivityStepCompleted(x),
            ));
            assert(cur[m] == EventId::ActivityStep(x));
            assert(cur[m + 1] == EventId::ActivityStepCompleted(x));
            assert forall|e: EventId| #[trigger] cur.contains(e) implies body_event_upto(
                graph@,
                k + 1,
                e,
            ) by {
                let i = choose|i: int| 0 <= i < cur.len() && cur[i] == e;
                if i < m {
                    assert(prev[i] == e);
                    assert(prev.contains(e));
                    assert(body_event_upto(graph@, k as int, e));
                    let j = choose|j: int| 0 <= j < k && (e == EventId::ActivityStep(
                        #[trigger] graph@[j].0,
                    ) || e == EventId::ActivityStepCompleted(graph@[j].0));
                    assert(0 <= j < k + 1 && (e == EventId::ActivityStep(graph@[j].0) || e
                        == EventId::ActivityStepCompleted(graph@[j].0)));
                } else {
                    assert(e == EventId::ActivityStep(x) || e == EventId::ActivityStepCompleted(
                        x,
                    ));
                    assert(0 <= (k as int) && (k as int) < k + 1 && (e == EventId::ActivityStep(
                        graph@[k as int].0,
                    ) || e == EventId::ActivityStepCompleted(graph@[k as int].0)));
                }
            }
            assert forall|e: EventId| body_event_upto(graph@, k + 1, e) implies #[trigger] cur
                .contains(e) by {
                let j = choose|j: int| 0 <= j < k + 1 && (e == EventId::ActivityStep(
                    #[trigger] graph@[j].0,
                ) || e == EventId::ActivityStepCompleted(graph@[j].0));
                if j < k {
                    assert(body_event_upto(graph@, k as int, e));
                    assert(prev.contains(e));
                    let i = choose|i: int| 0 <= i < prev.len() && prev[i] == e;
                    assert(cur[i] == e);
                } else {
                    assert(e == cur[m] || e == cur[m + 1]);
                }
            }
        }
        k += 1;
    }
    events
}

/// The global driver's startup hook: wait for every declared agent's `alive`
/// event, release startup globally, then wait for every agent's
/// `startup_completed` event.
pub open spec fn global_startup_ops(agents: Seq<AgentId>) -> Seq<Op> {
    Seq::new(agents.len(), |k: int| Op::Sync(EventId::AgentAlive(agents[k]))).push(
        Op::Trigger(EventId::StartupRelease),
    ) + Seq::new(agents.len(), |k: int| Op::Sync(EventId::AgentStartupCompleted(agents[k])))
}

/// One agent's startup hook: announce readiness, wait for the global
/// release, run the startup hooks of the agent's activities, report
/// completion.
pub open spec fn agent_startup_ops(a: AgentId, acts: Seq<ActivityId>) -> Seq<Op> {
    seq![Op::Trigger(EventId::AgentAlive(a)), Op::Sync(EventId::StartupRelease)] + Seq::new(
        acts.len(),
        |k: int| Op::Invoke(acts[k], Hook::Start),
    ) + seq![Op::Trigger(EventId::AgentStartupCompleted(a))]
}

/// The global driver's shutdown hook: broadcast termination, then wait for
/// every agent's `shutdown_completed` event.
pub open spec fn global_shutdown_ops(agents: Seq<AgentId>) -> Seq<Op> {
    seq![Op::Trigger(EventId::ShutdownBroadcast)] + Seq::new(
        agents.len(),
        |k: int| Op::Sync(EventId::AgentShutdownCompleted(agents[k])),
    )
}

/// One agent's shutdown hook: wait for the broadcast, run the shutdown hooks
/// of the agent's activities, report completion.
pub open spec fn agent_shutdown_ops(a: AgentId, acts: Seq<ActivityId>) -> Seq<Op> {
    seq![Op::Sync(EventId::ShutdownBroadcast)] + Seq::new(
        acts.len(),
        |k: int| Op::Invoke(acts[k], Hook::Stop),
    ) + seq![Op::Trigger(EventId::AgentShutdownCompleted(a))]
}

/// The startup phase of the whole system: the global handshake task (always
/// task `0`, over the declared agents) and one task per present agent. An
/// agent that is declared but absent leaves the global task waiting forever:
/// the startup timeout of the missing-`alive` failure.
pub open spec fn startup_shape(
    tasks: Seq<Task>,
    agents: Seq<AgentId>,
    assignments: Seq<(AgentId, Vec<ActivityId>)>,
) -> bool {
    &&& tasks.len() == 1 + assignments.len()
    &&& tasks[0].ops@ == global_startup_ops(agents)
    &&& forall|t: int| 1 <= t < tasks.len() ==> (#[trigger] tasks[t]).ops@ == agent_startup_ops(
        assignments[t - 1].0,
        assignments[t - 1].1@,
    )
}

/// The shutdown phase of the whole system: the global broadcast-and-join
/// task (task `0`) and one task per agent.
pub open spec fn shutdown_shape(
    tasks: Seq<Task>,
    agents: Seq<AgentId>,
    assignments: Seq<(AgentId, Vec<ActivityId>)>,
) -> bool {
    &&& tasks.len() == 1 + assignments.len()
    &&& tasks[0].ops@ == global_shutdown_ops(agents)
    &&& forall|t: int| 1 <= t < tasks.len() ==> (#[trigger] tasks[t]).ops@ == agent_shutdown_ops(
        assignments[t - 1].0,
        assignments[t - 1].1@,
    )
}

/// No agent appears twice among the assignments.
pub open spec fn distinct_agents(assignments: Seq<(AgentId, Vec<ActivityId>)>) -> bool {
    forall|i1: int, i2: int| 0 <= i1 < assignments.len() && 0 <= i2 < assignments.len()
        && (#[trigger] assignments[i1]).0 == (#[trigger] assignments[i2]).0 ==> i1 == i2
}

/// Every activity belongs to exactly one agent, once.
pub open spec fn distinct_assigned_activities(
    assignments: Seq<(AgentId, Vec<ActivityId>)>,
) -> bool {
    forall|i1: int, k1: int, i2: int, k2: int|
        0 <= i1 < assignments.len() && 0 <= k1 < assignments[i1].1@.len() && 0 <= i2
            < assignments.len() && 0 <= k2 < assignments[i2].1@.len()
            && #[trigger] assignments[i1].1@[k1] == #[trigger] assignments[i2].1@[k2] ==> i1 == i2
            && k1 == k2
}

/// Build the startup task list: the global handshake over the declared
/// agents, plus one task per present agent.
pub fn build_startup_tasks(
    agents: &Vec<AgentId>,
    assignments: &Vec<(AgentId, Vec<ActivityId>)>,
) -> (tasks: Vec<Task>)
    ensures
        startup_shape(tasks@, agents@, assignments@),
{
    let mut tasks: Vec<Task> = Vec::new();
    let m = agents.len();
    let mut ops: Vec<Op> = Vec::new();
    let mut i: usize = 0;
    while i < m
        invariant
            i <= m,
            m == agents@.len(),
            ops@.len() == i,
            forall|j: int| 0 <= j < i ==> ops@[j] == Op::Sync(
                EventId::AgentAlive(#[trigger] agents@[j]),
            ),
        decreases m - i,
    {
        ops.push(Op::Sync(EventId::AgentAlive(agents[i])));
        i += 1;
    }
    ops.push(Op::Trigger(EventId::StartupRelease));
    let mut i: usize = 0;
    while i < m
        invariant
            i <= m,
            m == agents@.len(),
            ops@.len() == m + 1 + i,
            forall|j: int| 0 <= j < m ==> ops@[j] == Op::Sync(
                EventId::AgentAlive(#[trigger] agents@[j]),
            ),
            ops@[m as int] == Op::Trigger(EventId::StartupRelease),
            forall|j: int| m + 1 <= j < m + 1 + i ==> #[trigger] ops@[j] == Op::Sync(
                EventId::AgentStartupCompleted(agents@[j - m - 1]),
            ),
        decreases m - i,
    {
        ops.push(Op::Sync(EventId::AgentStartupCompleted(agents[i])));
        i += 1;
    }
    proof {
        assert(ops@ =~= global_startup_ops(agents@));
    }
    tasks.push(Task { ops });
    let mut t: usize = 0;
    while t < assignments.len()
        invariant
            t <= assignments@.len(),
            tasks@.len() == 1 + t,
            tasks@[0].ops@ == global_startup_ops(agents@),
            forall|u: int| 1 <= u < 1 + t ==> (#[trigger] tasks@[u]).ops@ == agent_startup_ops(
                assignments@[u - 1].0,
                assignments@[u - 1].1@,
            ),
        decreases assignments@.len() - t,
    {
        let a = assignments[t].0;
        let acts = &assignments[t].1;
        let mut ops: Vec<Op> = Vec::new();
        ops.push(Op::Trigger(EventId::AgentAlive(a)));
        ops.push(Op::Sync(EventId::StartupRelease));
        let mut kk: usize = 0;
        while kk < acts.len()
            invariant
                kk <= acts@.len(),
                ops@.len() == 2 + kk,
                ops@[0] == Op::Trigger(EventId::AgentAlive(a)),
                ops@[1] == Op::Sync(EventId::StartupRelease),
                forall|j: int| 2 <= j < 2 + kk ==> #[trigger] ops@[j] == Op::Invoke(
                    acts@[j - 2],
                    Hook::Start,
                ),
            decreases acts@.len() - kk,
        {
            ops.push(Op::Invoke(acts[kk], Hook::Start));
            kk += 1;
        }
        ops.push(Op::Trigger(EventId::AgentStartupCompleted(a)));
        proof {
            assert(ops@ =~= agent_startup_ops(
                assignments@[t as int].0,
                assignments@[t as int].1@,
            ));
        }
        tasks.push(Task { ops });
        t += 1;
    }
    tasks
}

/// Build the shutdown task list: the global broadcast-and-join over the
/// declared agents, plus one task per agent.
pub fn build_shutdown_tasks(
    agents: &Vec<AgentId>,
    assignments: &Vec<(AgentId, Vec<ActivityId>)>,
) -> (tasks: Vec<Task>)
    ensures
        shutdown_shape(tasks@, agents@, assignments@),
{
    let mut tasks: Vec<Task> = Vec::new();
    let m = agents.len();
    let mut ops: Vec<Op> = Vec::new();
    ops.push(Op::Trigger(EventId::ShutdownBroadcast));
    let mut i: usize = 0;
    while i < m
        invariant
            i <= m,
            m == agents@.len(),
            ops@.len() == 1 + i,
            ops@[0] == Op::Trigger(EventId::ShutdownBroadcast),
            forall|j: int| 1 <= j < 1 + i ==> #[trigger] ops@[j] == Op::Sync(
                EventId::AgentShutdownCompleted(agents@[j - 1]),
            ),
        decreases m - i,
    {
        ops.push(Op::Sync(EventId::AgentShutdownCompleted(agents[i])));
        i += 1;
    }
    proof {
        assert(ops@ =~= global_shutdown_ops(agents@));
    }
    tasks.push(Task { ops });
    let mut t: usize = 0;
    while t < assignments.len()
        invariant
            t <= assignments@.len(),
            tasks@.len() == 1 + t,
            tasks@[0].ops@ == global_shutdown_ops(agents@),
            forall|u: int| 1 <= u < 1 + t ==> (#[trigger] tasks@[u]).ops@ == agent_shutdown_ops(
                assignments@[u - 1].0,
                assignments@[u - 1].1@,
            ),
        decreases assignments@.len() - t,
    {
        let a = assignments[t].0;
        let acts = &assignments[t].1;
        let mut ops: Vec<Op> = Vec::new();
        ops.push(Op::Sync(EventId::ShutdownBroadcast));
        let mut kk: usize = 0;
        while kk < acts.len()
            invariant
                kk <= acts@.len(),
                ops@.len() == 1 + kk,
                ops@[0] == Op::Sync(EventId::ShutdownBroadcast),
                forall|j: int| 1 <= j < 1 + kk ==> #[trigger] ops@[j] == Op::Invoke(
                    acts@[j - 1],
                    Hook::Stop,
                ),
            decreases acts@.len() - kk,
        {
            ops.push(Op::Invoke(acts[kk], Hook::Stop));
            kk += 1;
        }
        ops.push(Op::Trigger(EventId::AgentShutdownCompleted(a)));
        proof {
            assert(ops@ =~= agent_shutdown_ops(
                assignments@[t as int].0,
                assignments@[t as int].1@,
            ));
        }
        tasks.push(Task { ops });
        t += 1;
    }
    tasks
}

/// What operation stands at each position of each body task.
#[verifier::rlimit(50)]
pub proof fn lemma_body_op_char(
    tasks: Seq<Task>,
    graph: Seq<(ActivityId, Vec<ActivityId>)>,
    t: int,
    j: int,
)
    requires
        body_shape(tasks, graph),
        0 <= t < tasks.len(),
        0 <= j < tasks[t].ops@.len(),
    ensures
        t < graph.len() ==> {
            let x = graph[t].0;
            let deps = graph[t].1@;
            &&& tasks[t].ops@.len() == deps.len() + 2
            &&& (j < deps.len() ==> tasks[t].ops@[j] == Op::Sync(
                EventId::ActivityStepCompleted(deps[j]),
            ))
            &&& (j == deps.len() ==> tasks[t].ops@[j] == Op::Trigger(EventId::ActivityStep(x)))
            &&& (j == deps.len() + 1 ==> tasks[t].ops@[j] == Op::Sync(
                EventId::ActivityStepCompleted(x),
            ))
        },
        t >= graph.len() ==> {
            let x = graph[t - graph.len()].0;
            &&& tasks[t].ops@.len() == 3
            &&& (j == 0 ==> tasks[t].ops@[j] == Op::Sync(EventId::ActivityStep(x)))
            &&& (j == 1 ==> tasks[t].ops@[j] == Op::Invoke(x, Hook::Step))
            &&& (j == 2 ==> tasks[t].ops@[j] == Op::Trigger(EventId::ActivityStepCompleted(x)))
        },
{
    if t < graph.len() {
        let x = graph[t].0;
        let deps = graph[t].1@;
        let base = Seq::new(
            deps.len(),
            |k: int| Op::Sync(EventId::ActivityStepCompleted(deps[k])),
        );
        let s1 = base.push(Op::Trigger(EventId::ActivityStep(x)));
        assert(tasks[t].ops@ == s1.push(Op::Sync(EventId::ActivityStepCompleted(x))));
        if j < deps.len() {
            assert(s1[j] == base[j]);
            assert(tasks[t].ops@[j] == s1[j]);
        }
    } else {
        assert(tasks[t].ops@ == agent_step_ops(graph[t - graph.len()].0));
    }
}

/// `Invoke(x, Step)` stands only in the agent task of `x`, at position 1.
#[verifier::rlimit(50)]
pub proof fn lemma_body_invoke_unique(
    tasks: Seq<Task>,
    graph: Seq<(ActivityId, Vec<ActivityId>)>,
    t: int,
    j: int,
    kx: int,
)
    requires
        body_shape(tasks, graph),
        distinct_graph(graph),
        0 <= kx < graph.len(),
        0 <= t < tasks.len(),
        0 <= j < tasks[t].ops@.len(),
        tasks[t].ops@[j] == Op::Invoke(graph[kx].0, Hook::Step),
    ensures
        t == graph.len() + kx,
        j == 1,
{
    lemma_body_op_char(tasks, graph, t, j);
}

/// `Trigger(step(x))` stands only in the global chain task of `x`, after all
/// its prerequisite waits.
#[verifier::rlimit(50)]
pub proof fn lemma_body_trigger_step_unique(
    tasks: Seq<Task>,
    graph: Seq<(ActivityId, Vec<ActivityId>)>,
    t: int,
    j: int,
    kx: int,
)
    requires
        body_shape(tasks, graph),
        distinct_graph(graph),
        0 <= kx < graph.len(),
        0 <= t < tasks.len(),
        0 <= j < tasks[t].ops@.len(),
        tasks[t].ops@[j] == Op::Trigger(EventId::ActivityStep(graph[kx].0)),
    ensures
        t == kx,
        j == graph[kx].1@.len(),
{
    lemma_body_op_char(tasks, graph, t, j);
}

/// `Trigger(step_completed(x))` stands only in the agent task of `x`, after
/// its step hook.
#[verifier::rlimit(50)]
pub proof fn lemma_body_trigger_done_unique(
    tasks: Seq<Task>,
    graph: Seq<(ActivityId, Vec<ActivityId>)>,
    t: int,
    j: int,
    kx: int,
)
    requires
        body_shape(tasks, graph),
        distinct_graph(graph),
        0 <= kx < graph.len(),
        0 <= t < tasks.len(),
        0 <= j < tasks[t].ops@.len(),
        tasks[t].ops@[j] == Op::Trigger(EventId::ActivityStepCompleted(graph[kx].0)),
    ensures
        t == graph.len() + kx,
        j == 2,
{
    lemma_body_op_char(tasks, graph, t, j);
}

/// The entry invoking the step of the activity at graph position `kx` is
/// the agent task's step position.
#[verifier::rlimit(50)]
pub proof fn lemma_step_invoke_located(
    s: TaskExec,
    graph: Seq<(ActivityId, Vec<ActivityId>)>,
    p: int,
    kx: int,
)
    requires
        s.wf(),
        body_shape(s.tasks@, graph),
        distinct_graph(graph),
        0 <= p < s.trace@.len(),
        0 <= kx < graph.len(),
        s.trace@[p].op == Op::Invoke(graph[kx].0, Hook::Step),
    ensures
        s.trace@[p].tix == graph.len() + kx,
        s.trace@[p].oix == 1,
{
    let t_p = s.trace@[p].tix as int;
    let j_p = s.trace@[p].oix as int;
    lemma_body_invoke_unique(s.tasks@, graph, t_p, j_p, kx);
}

/// Before the agent task of `kx` invoked the step, the global chain task of
/// `kx` had fired the activity's `step` event, after all its prerequisite
/// waits.
#[verifier::rlimit(50)]
pub proof fn lemma_step_release(
    s: TaskExec,
    graph: Seq<(ActivityId, Vec<ActivityId>)>,
    p: int,
    kx: int,
) -> (r: int)
    requires
        s.wf(),
        body_shape(s.tasks@, graph),
        distinct_graph(graph),
        forall|e: EventId| body_event(graph, e) ==> !s.init@.contains(e),
        0 <= p < s.trace@.len(),
        0 <= kx < graph.len(),
        s.trace@[p].tix == graph.len() + kx,
        s.trace@[p].oix == 1,
    ensures
        0 <= r < p,
        s.trace@[r].tix == kx,
        s.trace@[r].oix == graph[kx].1@.len(),
{
    let n = graph.len() as int;
    let x = graph[kx].0;
    let tr = s.trace@;
    let q0 = s.lemma_program_order(p, 0);
    lemma_body_op_char(s.tasks@, graph, n + kx, 0);
    assert(tr[q0].op == Op::Sync(EventId::ActivityStep(x)));
    assert(body_event(graph, EventId::ActivityStep(x))) by {
        assert(0 <= kx < graph.len() && EventId::ActivityStep(x) == EventId::ActivityStep(
            graph[kx].0,
        ));
    }
    let r = s.lemma_sync_source(q0, EventId::ActivityStep(x));
    let t_r = tr[r].tix as int;
    let j_r = tr[r].oix as int;
    lemma_body_trigger_step_unique(s.tasks@, graph, t_r, j_r, kx);
    r
}

/// Before the global chain task of `kx` fired the `step` event, the step of
/// the prerequisite at position `di` had been invoked.
#[verifier::rlimit(50)]
pub proof fn lemma_dep_step_before_release(
    s: TaskExec,
    graph: Seq<(ActivityId, Vec<ActivityId>)>,
    r: int,
    kx: int,
    di: int,
    kd: int,
) -> (q: int)
    requires
        s.wf(),
        body_shape(s.tasks@, graph),
        distinct_graph(graph),
        forall|e: EventId| body_event(graph, e) ==> !s.init@.contains(e),
        0 <= r < s.trace@.len(),
        0 <= kx < graph.len(),
        s.trace@[r].tix == kx,
        s.trace@[r].oix == graph[kx].1@.len(),
        0 <= di < graph[kx].1@.len(),
        0 <= kd < graph.len(),
        graph[kd].0 == graph[kx].1@[di],
    ensures
        0 <= q < r,
        s.trace@[q].op == Op::Invoke(graph[kd].0, Hook::Step),
{
    let n = graph.len() as int;
    let d = graph[kd].0;
    let tr = s.trace@;
    let ri = s.lemma_program_order(r, di);
    lemma_body_op_char(s.tasks@, graph, kx, di);
    assert(tr[ri].op == Op::Sync(EventId::ActivityStepCompleted(d)));
    assert(body_event(graph, EventId::ActivityStepCompleted(d))) by {
        assert(0 <= kd < graph.len() && EventId::ActivityStepCompleted(d)
            == EventId::ActivityStepCompleted(graph[kd].0));
    }
    let si = s.lemma_sync_source(ri, EventId::ActivityStepCompleted(d));
    let t_s = tr[si].tix as int;
    let j_s = tr[si].oix as int;
    lemma_body_trigger_done_unique(s.tasks@, graph, t_s, j_s, kd);
    let q = s.lemma_program_order(si, 1);
    lemma_body_op_char(s.tasks@, graph, n + kd, 1);
    q
}

/// Dependency obedience: in any well-formed trace of the body, the step hook
/// of an activity runs only after the step hooks of all its prerequisites
/// have completed.
///
/// Given the trace entry at `p` invoking the step of the activity at graph
/// position `kx`, and a prerequisite of it at graph position `kd`, there is
/// an earlier entry invoking the prerequisite's step.
#[verifier::rlimit(50)]
pub proof fn theorem_dependency_obedience(
    s: TaskExec,
    graph: Seq<(ActivityId, Vec<ActivityId>)>,
    p: int,
    kx: int,
    di: int,
    kd: int,
) -> (q: int)
    requires
        s.wf(),
        body_shape(s.tasks@, graph),
        distinct_graph(graph),
        forall|e: EventId| body_event(graph, e) ==> !s.init@.contains(e),
        0 <= p < s.trace@.len(),
        0 <= kx < graph.len(),
        s.trace@[p].op == Op::Invoke(graph[kx].0, Hook::Step),
        0 <= di < graph[kx].1@.len(),
        0 <= kd < graph.len(),
        graph[kd].0 == graph[kx].1@[di],
    ensures
        0 <= q < p,
        s.trace@[q].op == Op::Invoke(graph[kd].0, Hook::Step),
{
    lemma_step_invoke_located(s, graph, p, kx);
    let r = lemma_step_release(s, graph, p, kx);
    lemma_dep_step_before_release(s, graph, r, kx, di, kd)
}

/// In a completed body run, the step hook of every activity runs exactly
/// once; and in any body run, it runs at most once.
#[verifier::rlimit(50)]
pub proof fn theorem_step_cardinality(
    s: TaskExec,
    graph: Seq<(ActivityId, Vec<ActivityId>)>,
    kx: int,
)
    requires
        s.wf(),
        body_shape(s.tasks@, graph),
        distinct_graph(graph),
        0 <= kx < graph.len(),
    ensures
        count_op(s.trace@, Op::Invoke(graph[kx].0, Hook::Step)) <= 1,
        s.task_complete(graph.len() + kx) ==> count_op(
            s.trace@,
            Op::Invoke(graph[kx].0, Hook::Step),
        ) == 1,
{
    let n = graph.len() as int;
    let x = graph[kx].0;
    let op = Op::Invoke(x, Hook::Step);
    assert forall|t: int, j: int|
        0 <= t < s.tasks@.len() && 0 <= j < s.tasks@[t].ops@.len() && s.tasks@[t].ops@[j]
            == op implies t == n + kx && j == 1 by {
        lemma_body_invoke_unique(s.tasks@, graph, t, j, kx);
    }
    s.lemma_op_at_most_once(op, n + kx, 1);
    if s.task_complete(n + kx) {
        lemma_body_op_char(s.tasks@, graph, n + kx, 1);
        let p = s.lemma_cursor_witness(n + kx, 1);
        lemma_count_op_positive(s.trace@, op);
    }
}

/// The startup handshake: when the global startup task has completed, every
/// declared agent has triggered its `alive` event and its
/// `startup_completed` event.
#[verifier::rlimit(50)]
pub proof fn theorem_startup_handshake(
    s: TaskExec,
    agents: Seq<AgentId>,
    assignments: Seq<(AgentId, Vec<ActivityId>)>,
    ai: int,
)
    requires
        s.wf(),
        startup_shape(s.tasks@, agents, assignments),
        0 <= ai < agents.len(),
        !s.init@.contains(EventId::AgentAlive(agents[ai])),
        !s.init@.contains(EventId::AgentStartupCompleted(agents[ai])),
        s.task_complete(0),
    ensures
        triggered_in(s.trace@, EventId::AgentAlive(agents[ai])),
        triggered_in(s.trace@, EventId::AgentStartupCompleted(agents[ai])),
{
    let m = agents.len() as int;
    let tr = s.trace@;
    let gops = global_startup_ops(agents);
    assert(gops.len() == 2 * m + 1);
    assert(gops[ai] == Op::Sync(EventId::AgentAlive(agents[ai]))) by {
        let base = Seq::new(m as nat, |k: int| Op::Sync(EventId::AgentAlive(agents[k])));
        assert(gops[ai] == base.push(Op::Trigger(EventId::StartupRelease))[ai]);
    }
    assert(gops[m + 1 + ai] == Op::Sync(EventId::AgentStartupCompleted(agents[ai])));

    let p1 = s.lemma_cursor_witness(0, ai);
    let q1 = s.lemma_sync_source(p1, EventId::AgentAlive(agents[ai]));
    assert(triggered_in(tr, EventId::AgentAlive(agents[ai])));

    let p2 = s.lemma_cursor_witness(0, m + 1 + ai);
    let q2 = s.lemma_sync_source(p2, EventId::AgentStartupCompleted(agents[ai]));
    assert(triggered_in(tr, EventId::AgentStartupCompleted(agents[ai])));
}

/// What operation stands at each position of each shutdown task.
#[verifier::rlimit(50)]
pub proof fn lemma_shutdown_op_char(
    tasks: Seq<Task>,
    agents: Seq<AgentId>,
    assignments: Seq<(AgentId, Vec<ActivityId>)>,
    t: int,
    j: int,
)
    requires
        shutdown_shape(tasks, agents, assignments),
        0 <= t < tasks.len(),
        0 <= j < tasks[t].ops@.len(),
    ensures
        t == 0 ==> {
            &&& tasks[t].ops@.len() == 1 + agents.len()
            &&& (j == 0 ==> tasks[t].ops@[j] == Op::Trigger(EventId::ShutdownBroadcast))
            &&& (j >= 1 ==> tasks[t].ops@[j] == Op::Sync(
                EventId::AgentShutdownCompleted(agents[j - 1]),
            ))
        },
        t >= 1 ==> {
            let a = assignments[t - 1].0;
            let acts = assignments[t - 1].1@;
            &&& tasks[t].ops@.len() == acts.len() + 2
            &&& (j == 0 ==> tasks[t].ops@[j] == Op::Sync(EventId::ShutdownBroadcast))
            &&& (1 <= j < acts.len() + 1 ==> tasks[t].ops@[j] == Op::Invoke(
                acts[j - 1],
                Hook::Stop,
            ))
            &&& (j == acts.len() + 1 ==> tasks[t].ops@[j] == Op::Trigger(
                EventId::AgentShutdownCompleted(a),
            ))
        },
{
    if t == 0 {
        assert(tasks[0].ops@ == global_shutdown_ops(agents));
    } else {
        assert(tasks[t].ops@ == agent_shutdown_ops(assignments[t - 1].0, assignments[t - 1].1@));
    }
}

/// `Trigger(shutdown_completed(a))` stands only in the task of agent `a`.
#[verifier::rlimit(50)]
pub proof fn lemma_shutdown_trigger_completed_unique(
    tasks: Seq<Task>,
    agents: Seq<AgentId>,
    assignments: Seq<(AgentId, Vec<ActivityId>)>,
    t: int,
    j: int,
    ai: int,
)
    requires
        shutdown_shape(tasks, agents, assignments),
        distinct_agents(assignments),
        0 <= ai < assignments.len(),
        0 <= t < tasks.len(),
        0 <= j < tasks[t].ops@.len(),
        tasks[t].ops@[j] == Op::Trigger(EventId::AgentShutdownCompleted(assignments[ai].0)),
    ensures
        t == 1 + ai,
        j == assignments[ai].1@.len() + 1,
{
    lemma_shutdown_op_char(tasks, agents, assignments, t, j);
}

/// `Invoke(x, Stop)` stands only in the task of the one agent that owns `x`.
#[verifier::rlimit(50)]
pub proof fn lemma_shutdown_invoke_unique(
    tasks: Seq<Task>,
    agents: Seq<AgentId>,
    assignments: Seq<(AgentId, Vec<ActivityId>)>,
    t: int,
    j: int,
    ai: int,
    k: int,
)
    requires
        shutdown_shape(tasks, agents, assignments),
        distinct_assigned_activities(assignments),
        0 <= ai < assignments.len(),
        0 <= k < assignments[ai].1@.len(),
        0 <= t < tasks.len(),
        0 <= j < tasks[t].ops@.len(),
        tasks[t].ops@[j] == Op::Invoke(assignments[ai].1@[k], Hook::Stop),
    ensures
        t == 1 + ai,
        j == 1 + k,
{
    lemma_shutdown_op_char(tasks, agents, assignments, t, j);
}

/// Shutdown completeness: when the global shutdown task has completed, every
/// agent has triggered `shutdown_completed`, and the shutdown hook of every
/// activity has run exactly once.
#[verifier::rlimit(50)]
pub proof fn theorem_shutdown_completeness(
    s: TaskExec,
    agents: Seq<AgentId>,
    assignments: Seq<(AgentId, Vec<ActivityId>)>,
    ai: int,
    k: int,
)
    requires
        s.wf(),
        shutdown_shape(s.tasks@, agents, assignments),
        distinct_agents(assignments),
        distinct_assigned_activities(assignments),
        agents.len() == assignments.len(),
        forall|i: int| 0 <= i < agents.len() ==> #[trigger] agents[i] == assignments[i].0,
        0 <= ai < agents.len(),
        0 <= k < assignments[ai].1@.len(),
        !s.init@.contains(EventId::AgentShutdownCompleted(agents[ai])),
        s.task_complete(0),
    ensures
        triggered_in(s.trace@, EventId::AgentShutdownCompleted(agents[ai])),
        count_op(s.trace@, Op::Invoke(assignments[ai].1@[k], Hook::Stop)) == 1,
{
    let q = lemma_shutdown_agent_acked(s, agents, assignments, ai);
    lemma_stop_invoked(s, agents, assignments, ai, k, q);
    lemma_stop_at_most_once(s, agents, assignments, ai, k);
}

/// When the global shutdown task has completed, the agent's own task fired
/// its completion trigger: the trace holds that entry.
#[verifier::rlimit(50)]
pub proof fn lemma_shutdown_agent_acked(
    s: TaskExec,
    agents: Seq<AgentId>,
    assignments: Seq<(AgentId, Vec<ActivityId>)>,
    ai: int,
) -> (q: int)
    requires
        s.wf(),
        shutdown_shape(s.tasks@, agents, assignments),
        distinct_agents(assignments),
        agents.len() == assignments.len(),
        forall|i: int| 0 <= i < agents.len() ==> #[trigger] agents[i] == assignments[i].0,
        0 <= ai < agents.len(),
        !s.init@.contains(EventId::AgentShutdownCompleted(agents[ai])),
        s.task_complete(0),
    ensures
        triggered_in(s.trace@, EventId::AgentShutdownCompleted(agents[ai])),
        0 <= q < s.trace@.len(),
        s.trace@[q].tix == 1 + ai,
        s.trace@[q].oix == assignments[ai].1@.len() + 1,
{
    let tr = s.trace@;
    lemma_shutdown_op_char(s.tasks@, agents, assignments, 0, 1 + ai);
    let p = s.lemma_cursor_witness(0, 1 + ai);
    let q = s.lemma_sync_source(p, EventId::AgentShutdownCompleted(agents[ai]));
    assert(triggered_in(tr, EventId::AgentShutdownCompleted(agents[ai])));
    let t_q = tr[q].tix as int;
    let j_q = tr[q].oix as int;
    lemma_shutdown_trigger_completed_unique(s.tasks@, agents, assignments, t_q, j_q, ai);
    q
}

/// Before an agent's completion trigger, each of its stop hooks ran.
#[verifier::rlimit(50)]
pub proof fn lemma_stop_invoked(
    s: TaskExec,
    agents: Seq<AgentId>,
    assignments: Seq<(AgentId, Vec<ActivityId>)>,
    ai: int,
    k: int,
    q: int,
)
    requires
        s.wf(),
        shutdown_shape(s.tasks@, agents, assignments),
        0 <= ai < assignments.len(),
        0 <= k < assignments[ai].1@.len(),
        0 <= q < s.trace@.len(),
        s.trace@[q].tix == 1 + ai,
        s.trace@[q].oix == assignments[ai].1@.len() + 1,
    ensures
        count_op(s.trace@, Op::Invoke(assignments[ai].1@[k], Hook::Stop)) >= 1,
{
    let tr = s.trace@;
    let x = assignments[ai].1@[k];
    let op = Op::Invoke(x, Hook::Stop);
    let w = s.lemma_program_order(q, 1 + k);
    lemma_shutdown_op_char(s.tasks@, agents, assignments, 1 + ai, 1 + k);
    assert(tr[w].op == op);
    lemma_count_op_positive(tr, op);
}

/// No stop hook runs twice: the operation stands at one place only.
#[verifier::rlimit(50)]
pub proof fn lemma_stop_at_most_once(
    s: TaskExec,
    agents: Seq<AgentId>,
    assignments: Seq<(AgentId, Vec<ActivityId>)>,
    ai: int,
    k: int,
)
    requires
        s.wf(),
        shutdown_shape(s.tasks@, agents, assignments),
        distinct_assigned_activities(assignments),
        0 <= ai < assignments.len(),
        0 <= k < assignments[ai].1@.len(),
    ensures
        count_op(s.trace@, Op::Invoke(assignments[ai].1@[k], Hook::Stop)) <= 1,
{
    let op = Op::Invoke(assignments[ai].1@[k], Hook::Stop);
    assert forall|t: int, j: int|
        0 <= t < s.tasks@.len() && 0 <= j < s.tasks@[t].ops@.len() && s.tasks@[t].ops@[j]
            == op implies t == 1 + ai && j == 1 + k by {
        lemma_shutdown_invoke_unique(s.tasks@, agents, assignments, t, j, ai, k);
    }
    s.lemma_op_at_most_once(op, 1 + ai, 1 + k);
}

/// What operation stands at each position of each startup task.
#[verifier::rlimit(50)]
pub proof fn lemma_startup_op_char(
    tasks: Seq<Task>,
    agents: Seq<AgentId>,
    assignments: Seq<(AgentId, Vec<ActivityId>)>,
    t: int,
    j: int,
)
    requires
        startup_shape(tasks, agents, assignments),
        0 <= t < tasks.len(),
        0 <= j < tasks[t].ops@.len(),
    ensures
        t == 0 ==> {
            &&& tasks[t].ops@.len() == 2 * agents.len() + 1
            &&& (j < agents.len() ==> tasks[t].ops@[j] == Op::Sync(
                EventId::AgentAlive(agents[j]),
            ))
            &&& (j == agents.len() ==> tasks[t].ops@[j] == Op::Trigger(EventId::StartupRelease))
            &&& (j > agents.len() ==> tasks[t].ops@[j] == Op::Sync(
                EventId::AgentStartupCompleted(agents[j - agents.len() - 1]),
            ))
        },
        t >= 1 ==> {
            let a = assignments[t - 1].0;
            let acts = assignments[t - 1].1@;
            &&& tasks[t].ops@.len() == acts.len() + 3
            &&& (j == 0 ==> tasks[t].ops@[j] == Op::Trigger(EventId::AgentAlive(a)))
            &&& (j == 1 ==> tasks[t].ops@[j] == Op::Sync(EventId::StartupRelease))
            &&& (2 <= j < acts.len() + 2 ==> tasks[t].ops@[j] == Op::Invoke(
                acts[j - 2],
                Hook::Start,
            ))
            &&& (j == acts.len() + 2 ==> tasks[t].ops@[j] == Op::Trigger(
                EventId::AgentStartupCompleted(a),
            ))
        },
{
    if t == 0 {
        assert(tasks[0].ops@ == global_startup_ops(agents));
        let m = agents.len() as int;
        let base = Seq::new(m as nat, |kk: int| Op::Sync(EventId::AgentAlive(agents[kk])));
        let s1 = base.push(Op::Trigger(EventId::StartupRelease));
        if j < m {
            assert(tasks[0].ops@[j] == s1[j]);
            assert(s1[j] == base[j]);
        } else if j == m {
            assert(tasks[0].ops@[j] == s1[j]);
        }
    } else {
        assert(tasks[t].ops@ == agent_startup_ops(assignments[t - 1].0, assignments[t - 1].1@));
    }
}

/// `Invoke(x, Start)` stands only in the task of the one agent that owns `x`.
#[verifier::rlimit(50)]
pub proof fn lemma_startup_invoke_unique(
    tasks: Seq<Task>,
    agents: Seq<AgentId>,
    assignments: Seq<(AgentId, Vec<ActivityId>)>,
    t: int,
    j: int,
    ai: int,
    k: int,
)
    requires
        startup_shape(tasks, agents, assignments),
        distinct_assigned_activities(assignments),
        0 <= ai < assignments.len(),
        0 <= k < assignments[ai].1@.len(),
        0 <= t < tasks.len(),
        0 <= j < tasks[t].ops@.len(),
        tasks[t].ops@[j] == Op::Invoke(assignments[ai].1@[k], Hook::Start),
    ensures
        t == 1 + ai,
        j == 2 + k,
{
    lemma_startup_op_char(tasks, agents, assignments, t, j);
}

/// In a startup run in which the task of an agent completed, the startup
/// hook of each of its activities ran exactly once; in any startup run it
/// runs at most once.
#[verifier::rlimit(50)]
pub proof fn theorem_start_cardinality(
    s: TaskExec,
    agents: Seq<AgentId>,
    assignments: Seq<(AgentId, Vec<ActivityId>)>,
    ai: int,
    k: int,
)
    requires
        s.wf(),
        startup_shape(s.tasks@, agents, assignments),
        distinct_assigned_activities(assignments),
        0 <= ai < assignments.len(),
        0 <= k < assignments[ai].1@.len(),
    ensures
        count_op(s.trace@, Op::Invoke(assignments[ai].1@[k], Hook::Start)) <= 1,
        s.task_complete(1 + ai) ==> count_op(
            s.trace@,
            Op::Invoke(assignments[ai].1@[k], Hook::Start),
        ) == 1,
{
    let x = assignments[ai].1@[k];
    let op = Op::Invoke(x, Hook::Start);
    assert forall|t: int, j: int|
        0 <= t < s.tasks@.len() && 0 <= j < s.tasks@[t].ops@.len() && s.tasks@[t].ops@[j]
            == op implies t == 1 + ai && j == 2 + k by {
        lemma_startup_invoke_unique(s.tasks@, agents, assignments, t, j, ai, k);
    }
    s.lemma_op_at_most_once(op, 1 + ai, 2 + k);
    if s.task_complete(1 + ai) {
        lemma_startup_op_char(s.tasks@, agents, assignments, 1 + ai, 2 + k);
        let p = s.lemma_cursor_witness(1 + ai, 2 + k);
        lemma_count_op_positive(s.trace@, op);
    }
}

/// Whether an event belongs to the startup handshake.
pub open spec fn is_startup_kind(e: EventId) -> bool {
    match e {
        EventId::AgentAlive(_) => true,
        EventId::StartupRelease => true,
        EventId::AgentStartupCompleted(_) => true,
        _ => false,
    }
}

/// Whether an event belongs to the per-cycle body.
pub open spec fn is_body_kind(e: EventId) -> bool {
    match e {
        EventId::ActivityStep(_) => true,
        EventId::ActivityStepCompleted(_) => true,
        _ => false,
    }
}

/// Whether an event belongs to the shutdown handshake.
pub open spec fn is_shutdown_kind(e: EventId) -> bool {
    match e {
        EventId::ShutdownBroadcast => true,
        EventId::AgentShutdownCompleted(_) => true,
        _ => false,
    }
}

/// A startup run triggers only startup events.
#[verifier::rlimit(50)]
pub proof fn lemma_startup_triggers(
    s: TaskExec,
    agents: Seq<AgentId>,
    assignments: Seq<(AgentId, Vec<ActivityId>)>,
)
    requires
        s.wf(),
        startup_shape(s.tasks@, agents, assignments),
    ensures
        forall|e: EventId| triggered_in(s.trace@, e) ==> is_startup_kind(e),
{
    assert forall|e: EventId| triggered_in(s.trace@, e) implies is_startup_kind(e) by {
        let p = choose|p: int| 0 <= p < s.trace@.len() && s.trace@[p].op == Op::Trigger(e);
        let t = s.trace@[p].tix as int;
        let j = s.trace@[p].oix as int;
        lemma_startup_op_char(s.tasks@, agents, assignments, t, j);
    }
}

/// A body run triggers only body events.
#[verifier::rlimit(50)]
pub proof fn lemma_body_triggers(s: TaskExec, graph: Seq<(ActivityId, Vec<ActivityId>)>)
    requires
        s.wf(),
        body_shape(s.tasks@, graph),
    ensures
        forall|e: EventId| triggered_in(s.trace@, e) ==> is_body_kind(e),
{
    assert forall|e: EventId| triggered_in(s.trace@, e) implies is_body_kind(e) by {
        let p = choose|p: int| 0 <= p < s.trace@.len() && s.trace@[p].op == Op::Trigger(e);
        let t = s.trace@[p].tix as int;
        let j = s.trace@[p].oix as int;
        lemma_body_op_char(s.tasks@, graph, t, j);
    }
}

/// A task list with the same operations satisfies the same body shape.
#[verifier::rlimit(50)]
pub proof fn lemma_body_shape_transfer(
    a: Seq<Task>,
    b: Seq<Task>,
    graph: Seq<(ActivityId, Vec<ActivityId>)>,
)
    requires
        body_shape(a, graph),
        b.len() == a.len(),
        forall|t: int| 0 <= t < a.len() ==> (#[trigger] b[t]).ops@ == a[t].ops@,
    ensures
        body_shape(b, graph),
{
}

/// A task list with the same operations satisfies the same startup shape.
#[verifier::rlimit(50)]
pub proof fn lemma_startup_shape_transfer(
    a: Seq<Task>,
    b: Seq<Task>,
    agents: Seq<AgentId>,
    assignments: Seq<(AgentId, Vec<ActivityId>)>,
)
    requires
        startup_shape(a, agents, assignments),
        b.len() == a.len(),
        forall|t: int| 0 <= t < a.len() ==> (#[trigger] b[t]).ops@ == a[t].ops@,
    ensures
        startup_shape(b, agents, assignments),
{
}

/// A task list with the same operations satisfies the same shutdown shape.
#[verifier::rlimit(50)]
pub proof fn lemma_shutdown_shape_transfer(
    a: Seq<Task>,
    b: Seq<Task>,
    agents: Seq<AgentId>,
    assignments: Seq<(AgentId, Vec<ActivityId>)>,
)
    requires
        shutdown_shape(a, agents, assignments),
        b.len() == a.len(),
        forall|t: int| 0 <= t < a.len() ==> (#[trigger] b[t]).ops@ == a[t].ops@,
    ensures
        shutdown_shape(b, agents, assignments),
{
}

/// The declared agent list of a set of assignments.
pub fn agents_of(assignments: &Vec<(AgentId, Vec<ActivityId>)>) -> (agents: Vec<AgentId>)
    ensures
        agents@.len() == assignments@.len(),
        forall|i: int| 0 <= i < assignments@.len() ==> #[trigger] agents@[i]
            == assignments@[i].0,
{
    let mut agents: Vec<AgentId> = Vec::new();
    let mut i: usize = 0;
    while i < assignments.len()
        invariant
            i <= assignments@.len(),
            agents@.len() == i,
            forall|j: int| 0 <= j < i ==> #[trigger] agents@[j] == assignments@[j].0,
        decreases assignments@.len() - i,
    {
        agents.push(assignments[i].0);
        i += 1;
    }
    agents
}

/// The startup phase runs startup hooks only: together with the body and
/// shutdown counterparts, the three hooks of an activity are confined each
/// to its own phase, and the phases run one after another, so no two hooks
/// of one activity ever interleave.
#[verifier::rlimit(50)]
pub proof fn theorem_startup_phase_purity(
    s: TaskExec,
    agents: Seq<AgentId>,
    assignments: Seq<(AgentId, Vec<ActivityId>)>,
)
    requires
        s.wf(),
        startup_shape(s.tasks@, agents, assignments),
    ensures
        forall|p: int| 0 <= p < s.trace@.len() ==> ((#[trigger] s.trace@[p]).op matches Op::Invoke(
            _,
            h,
        ) ==> h == Hook::Start),
{
    assert forall|p: int| 0 <= p < s.trace@.len() implies ((#[trigger] s.trace@[p]).op
        matches Op::Invoke(_, h) ==> h == Hook::Start) by {
        let t = s.trace@[p].tix as int;
        let j = s.trace@[p].oix as int;
        lemma_startup_op_char(s.tasks@, agents, assignments, t, j);
    }
}

/// The body runs step hooks only.
#[verifier::rlimit(50)]
pub proof fn theorem_body_phase_purity(s: TaskExec, graph: Seq<(ActivityId, Vec<ActivityId>)>)
    requires
        s.wf(),
        body_shape(s.tasks@, graph),
    ensures
        forall|p: int| 0 <= p < s.trace@.len() ==> ((#[trigger] s.trace@[p]).op matches Op::Invoke(
            _,
            h,
        ) ==> h == Hook::Step),
{
    assert forall|p: int| 0 <= p < s.trace@.len() implies ((#[trigger] s.trace@[p]).op
        matches Op::Invoke(_, h) ==> h == Hook::Step) by {
        let t = s.trace@[p].tix as int;
        let j = s.trace@[p].oix as int;
        lemma_body_op_char(s.tasks@, graph, t, j);
    }
}

/// The shutdown phase runs shutdown hooks only.
#[verifier::rlimit(50)]
pub proof fn theorem_shutdown_phase_purity(
    s: TaskExec,
    agents: Seq<AgentId>,
    assignments: Seq<(AgentId, Vec<ActivityId>)>,
)
    requires
        s.wf(),
        shutdown_shape(s.tasks@, agents, assignments),
    ensures
        forall|p: int| 0 <= p < s.trace@.len() ==> ((#[trigger] s.trace@[p]).op matches Op::Invoke(
            _,
            h,
        ) ==> h == Hook::Stop),
{
    assert forall|p: int| 0 <= p < s.trace@.len() implies ((#[trigger] s.trace@[p]).op
        matches Op::Invoke(_, h) ==> h == Hook::Stop) by {
        let t = s.trace@[p].tix as int;
        let j = s.trace@[p].oix as int;
        lemma_shutdown_op_char(s.tasks@, agents, assignments, t, j);
    }
}

} // verus!
