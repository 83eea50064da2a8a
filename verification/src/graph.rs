//! Validation of the declared dependency graph.
//!
//! The graph is an ordered list of entries, one per activity: the activity
//! and its prerequisites. A valid graph names each activity once, and every
//! prerequisite refers to an activity that stands earlier in the list — so
//! the list order itself witnesses that the graph is acyclic and closed.

use vstd::prelude::*;

use crate::ids::ActivityId;
use crate::orchestrator::distinct_graph;

verus! {

/// What makes a declared configuration unusable, fatal at load.
#[derive(Debug, Clone, Copy, PartialEq, Eq, Structural)]
pub enum ConfigError {
    /// An activity is declared twice.
    DuplicateActivity(ActivityId),
    /// A prerequisite names an activity that does not stand earlier in the
    /// graph: the graph is not closed, or its order hides a cycle.
    UnresolvedDependency(ActivityId),
    /// An activity of the graph is not mapped to any worker.
    ActivityUnassigned(ActivityId),
}

/// Whether the activity `x` is declared before position `k` of the graph.
pub open spec fn declared_before(
    graph: Seq<(ActivityId, Vec<ActivityId>)>,
    k: int,
    x: ActivityId,
) -> bool {
    exists|j: int| 0 <= j < k && (#[trigger] graph[j]).0 == x
}

/// Whether every prerequisite of the entry at `k` stands earlier in the
/// graph.
pub open spec fn deps_resolved_at(graph: Seq<(ActivityId, Vec<ActivityId>)>, k: int) -> bool {
    forall|d: int| 0 <= d < graph[k].1@.len() ==> #[trigger] declared_before(
        graph,
        k,
        graph[k].1@[d],
    )
}

/// Whether the graph is well formed: distinct activities, and every
/// prerequisite resolved to an earlier entry.
pub open spec fn graph_valid(graph: Seq<(ActivityId, Vec<ActivityId>)>) -> bool {
    &&& distinct_graph(graph)
    &&& forall|k: int| 0 <= k < graph.len() ==> #[trigger] deps_resolved_at(graph, k)
}

/// Check a declared graph: `Ok` exactly when each activity is declared once
/// and every prerequisite resolves to an earlier entry. A duplicate is
/// reported as such; a prerequisite that is missing or does not stand
/// earlier is reported as unresolved.
pub fn validate_graph(graph: &Vec<(ActivityId, Vec<ActivityId>)>) -> (r: Result<(), ConfigError>)
    ensures
        r is Ok <==> graph_valid(graph@),
        r matches Err(e) ==> (e matches ConfigError::DuplicateActivity(x) ==> !distinct_graph(
            graph@,
        )),
{
    let n = graph.len();
    let mut k: usize = 0;
    while k < n
        invariant
            k <= n,
            n == graph@.len(),
            forall|k1: int, k2: int| 0 <= k1 < k && 0 <= k2 < k && (#[trigger] graph@[k1]).0
                == (#[trigger] graph@[k2]).0 ==> k1 == k2,
            forall|j: int| 0 <= j < k ==> #[trigger] deps_resolved_at(graph@, j),
        decreases n - k,
    {
        let x = graph[k].0;
        // No earlier entry may declare the same activity.
        let mut j: usize = 0;
        while j < k
            invariant
                j <= k < n,
                n == graph@.len(),
                x == graph@[k as int].0,
                forall|i: int| 0 <= i < j ==> (#[trigger] graph@[i]).0 != x,
            decreases k - j,
        {
            if graph[j].0 == x {
                proof {
                    assert(graph@[j as int].0 == graph@[k as int].0 && j as int != k as int);
                }
                return Err(ConfigError::DuplicateActivity(x));
            }
            j += 1;
        }
        // Every prerequisite must stand earlier.
        let deps = &graph[k].1;
        let mut d: usize = 0;
        while d < deps.len()
            invariant
                d <= deps@.len(),
                k < n,
                n == graph@.len(),
                deps@ == graph@[k as int].1@,
                forall|i: int| 0 <= i < d ==> #[trigger] declared_before(
                    graph@,
                    k as int,
                    graph@[k as int].1@[i],
                ),
            decreases deps@.len() - d,
        {
            let dep = deps[d];
            let mut j: usize = 0;
            let mut found = false;
            while j < k
                invariant
                    j <= k < n,
                    n == graph@.len(),
                    dep == graph@[k as int].1@[d as int],
                    found ==> declared_before(graph@, k as int, dep),
                    !found ==> forall|i: int| 0 <= i < j ==> (#[trigger] graph@[i]).0 != dep,
                decreases k - j,
            {
                if graph[j].0 == dep {
                    found = true;
                }
                j += 1;
            }
            if !found {
                proof {
                    assert(!declared_before(graph@, k as int, graph@[k as int].1@[d as int]));
                    assert(!deps_resolved_at(graph@, k as int));
                }
                return Err(ConfigError::UnresolvedDependency(dep));
            }
            d += 1;
        }
        proof {
            assert(deps_resolved_at(graph@, k as int));
        }
        k += 1;
    }
    Ok(())
}

} // verus!
