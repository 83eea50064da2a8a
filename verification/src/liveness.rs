//! Liveness of the per-cycle body: over a valid dependency graph, a cycle in
//! which no hook fails always completes.
//!
//! The scheduler stops either because every task completed or because no
//! task can proceed. The theorem here rules the second case out for valid
//! graphs: by induction along the declaration order, every prerequisite's
//! completion event fires before the chain task of an activity needs it, so
//! a stuck, failure-free scheduler state can only be a finished one.
//! Together with the cardinality theorem of [`crate::orchestrator`], a run
//! of `k` cycles invokes every activity's step hook exactly `k` times.

use vstd::prelude::*;

use crate::events::EventId;
use crate::graph::{declared_before, graph_valid};
use crate::ids::ActivityId;
use crate::orchestrator::{body_event, body_shape, distinct_graph, lemma_body_op_char};
use crate::program::{CycleRecord, Program};
use crate::tasks::{triggered_in, Hook, InvokePlan, Op, TaskExec};

verus! {

/// A completed agent step task has fired its activity's completion event.
#[verifier::rlimit(50)]
proof fn lemma_completed_agent_fired(
    s: TaskExec,
    graph: Seq<(ActivityId, Vec<ActivityId>)>,
    j: int,
)
    requires
        s.wf(),
        body_shape(s.tasks@, graph),
        0 <= j < graph.len(),
        s.task_complete(graph.len() + j),
    ensures
        s.bus@.contains(EventId::ActivityStepCompleted(graph[j].0)),
{
    let n = graph.len() as int;
    lemma_body_op_char(s.tasks@, graph, n + j, 2);
    let p = s.lemma_cursor_witness(n + j, 2);
    assert(triggered_in(s.trace@, EventId::ActivityStepCompleted(graph[j].0)));
}

/// In a stuck, failure-free scheduler state over a valid graph, the chain
/// task and the agent task of each of the first `k` activities have
/// completed.
#[verifier::rlimit(50)]
proof fn lemma_body_progress(s: TaskExec, graph: Seq<(ActivityId, Vec<ActivityId>)>, k: int)
    requires
        s.wf(),
        body_shape(s.tasks@, graph),
        distinct_graph(graph),
        graph_valid(graph),
        forall|e: EventId| body_event(graph, e) ==> !s.init@.contains(e),
        forall|t: int| !s.task_runnable(t),
        forall|t: int| 0 <= t < s.tasks@.len() ==> !s.failed@[t],
        0 <= k <= graph.len(),
    ensures
        forall|j: int| 0 <= j < k ==> #[trigger] s.task_complete(j) && s.task_complete(
            graph.len() + j,
        ),
    decreases k,
{
    if k > 0 {
        lemma_body_progress(s, graph, k - 1);
        let n = graph.len() as int;
        let m = k - 1;
        let x = graph[m].0;
        let deps = graph[m].1@;
        let dl = deps.len() as int;

        // Every prerequisite's completion event has fired: each resolves to
        // an earlier activity, whose agent task has completed.
        assert forall|d: int| 0 <= d < dl implies s.bus@.contains(
            EventId::ActivityStepCompleted(#[trigger] deps[d]),
        ) by {
            assert(crate::graph::deps_resolved_at(graph, m));
            assert(declared_before(graph, m, graph[m].1@[d]));
            let j = choose|j: int| 0 <= j < m && (#[trigger] graph[j]).0 == deps[d];
            assert(s.task_complete(j));
            lemma_completed_agent_fired(s, graph, j);
        }

        // The chain task of x is past its release: a pending wait would be
        // enabled, and the release itself is always ready.
        let c = s.cursors@[m] as int;
        assert(c <= dl + 2) by {
            lemma_body_op_char(s.tasks@, graph, m, 0);
        }
        if c < dl {
            lemma_body_op_char(s.tasks@, graph, m, c);
            assert(s.task_runnable(m));
        }
        if c == dl {
            lemma_body_op_char(s.tasks@, graph, m, c);
            assert(s.task_runnable(m));
        }
        assert(c >= dl + 1);
        assert(s.bus@.contains(EventId::ActivityStep(x))) by {
            lemma_body_op_char(s.tasks@, graph, m, dl);
            let p = s.lemma_cursor_witness(m, dl);
            assert(triggered_in(s.trace@, EventId::ActivityStep(x)));
        }

        // So the agent task of x could run through all its operations; a
        // stuck state leaves it completed.
        let ca = s.cursors@[n + m] as int;
        assert(ca <= 3) by {
            lemma_body_op_char(s.tasks@, graph, n + m, 0);
        }
        if ca < 3 {
            lemma_body_op_char(s.tasks@, graph, n + m, ca);
            assert(s.task_runnable(n + m));
        }
        assert(s.task_complete(n + m));

        // Its completion event fired, so the chain task finished as well.
        lemma_completed_agent_fired(s, graph, m);
        if c == dl + 1 {
            lemma_body_op_char(s.tasks@, graph, m, c);
            assert(s.task_runnable(m));
        }
        assert(s.task_complete(m));
    }
}

/// Over a valid graph, a stuck, failure-free body scheduler has completed
/// every task: the body cannot deadlock.
#[verifier::rlimit(50)]
pub proof fn theorem_body_completes(s: TaskExec, graph: Seq<(ActivityId, Vec<ActivityId>)>)
    requires
        s.wf(),
        body_shape(s.tasks@, graph),
        distinct_graph(graph),
        graph_valid(graph),
        forall|e: EventId| body_event(graph, e) ==> !s.init@.contains(e),
        forall|t: int| !s.task_runnable(t),
        forall|t: int| 0 <= t < s.tasks@.len() ==> !s.failed@[t],
    ensures
        s.all_complete(),
{
    lemma_body_progress(s, graph, graph.len() as int);
    assert forall|t: int| 0 <= t < s.tasks@.len() implies s.task_complete(t) by {
        if t < graph.len() {
            assert(s.task_complete(t));
        } else {
            assert(s.task_complete(t - graph.len()));
        }
    }
}

/// Cycle cardinality, unconditionally: in a run of a program over a valid
/// graph, every cycle whose hooks all succeed completes, and a completed
/// cycle invokes each activity's step hook exactly once. A cycle with a
/// failing hook still invokes each step hook at most once.
#[verifier::rlimit(50)]
pub proof fn theorem_cycle_completes(
    program: Program,
    c: CycleRecord,
    cplan: InvokePlan,
)
    requires
        program.cycle_ok(c, cplan),
        distinct_graph(program.graph@),
        graph_valid(program.graph@),
        forall|a: ActivityId, h: Hook| #[trigger] cplan.spec_ok(a, h),
    ensures
        c.complete,
        forall|k: int| 0 <= k < program.graph@.len() ==> crate::tasks::count_op(
            c.trace@,
            Op::Invoke((#[trigger] program.graph@[k]).0, Hook::Step),
        ) == 1,
{
    reveal(Program::cycle_ok);
    theorem_body_completes(c.sched@, program.graph@);
    assert forall|k: int| 0 <= k < program.graph@.len() implies crate::tasks::count_op(
        c.trace@,
        Op::Invoke((#[trigger] program.graph@[k]).0, Hook::Step),
    ) == 1 by {
        crate::orchestrator::theorem_step_cardinality(c.sched@, program.graph@, k);
    }
}

} // verus!
