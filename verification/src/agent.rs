//! Agent configuration.

use vstd::prelude::*;

use crate::ids::{ActivityId, AgentId, WorkerId};
use core::time::Duration;

verus! {

/// Where an agent's signalling endpoints listen or connect: a TCP socket
/// address or a Unix socket path, both held as text and parsed by the
/// transport.
#[derive(Debug, PartialEq, Eq)]
pub enum NodeAddress {
    /// A TCP socket address.
    Tcp(String),
    /// A Unix domain socket path.
    UnixSocket(String),
}

/// Configuration of the primary agent: the cycle period, the dependency
/// graph, the recorders the scheduler waits for, the worker assignments run
/// in this process, and the endpoints remote agents connect to.
pub struct PrimaryConfig {
    /// ID of the primary agent.
    pub id: AgentId,
    /// Cycle time of the step loop.
    pub cycle_time: Duration,
    /// Each activity and its prerequisites, prerequisites first.
    pub activity_dependencies: Vec<(ActivityId, Vec<ActivityId>)>,
    /// IDs of all recorders for which the scheduler waits.
    pub recorder_ids: Vec<AgentId>,
    /// Which activities each worker of this agent runs.
    pub worker_assignments: Vec<(WorkerId, Vec<ActivityId>)>,
    /// Receive timeout of the scheduler's connector.
    pub timeout: Duration,
    /// The address to which secondary agents' senders connect.
    pub bind_address_senders: NodeAddress,
    /// The address to which secondary agents' receivers connect.
    pub bind_address_receivers: NodeAddress,
    /// Which agent each worker belongs to.
    pub worker_agent_map: Vec<(WorkerId, AgentId)>,
    /// Which worker each activity runs on.
    pub activity_worker_map: Vec<(ActivityId, WorkerId)>,
}

/// Whether the activity is mapped to some worker.
pub open spec fn mapped_activity(map: Seq<(ActivityId, WorkerId)>, x: ActivityId) -> bool {
    exists|m: int| 0 <= m < map.len() && (#[trigger] map[m]).0 == x
}

/// Whether a primary configuration is usable: the graph is valid, and every
/// activity of the graph is mapped to a worker.
pub open spec fn primary_config_valid(config: PrimaryConfig) -> bool {
    &&& crate::graph::graph_valid(config.activity_dependencies@)
    &&& forall|k: int| 0 <= k < config.activity_dependencies@.len() ==> mapped_activity(
        config.activity_worker_map@,
        (#[trigger] config.activity_dependencies@[k]).0,
    )
}

/// Check a primary configuration: `Ok` exactly when the graph is valid and
/// every activity of the graph is mapped to a worker. This is the load-time
/// check behind which the agent refuses to start.
pub fn validate_primary_config(config: &PrimaryConfig) -> (r: Result<
    (),
    crate::graph::ConfigError,
>)
    ensures
        r is Ok <==> primary_config_valid(*config),
{
    match crate::graph::validate_graph(&config.activity_dependencies) {
        Err(e) => {
            return Err(e);
        },
        Ok(()) => {},
    }
    let graph = &config.activity_dependencies;
    let map = &config.activity_worker_map;
    let mut k: usize = 0;
    while k < graph.len()
        invariant
            k <= graph@.len(),
            graph@ == config.activity_dependencies@,
            map@ == config.activity_worker_map@,
            forall|j: int| 0 <= j < k ==> mapped_activity(map@, (#[trigger] graph@[j]).0),
        decreases graph@.len() - k,
    {
        let x = graph[k].0;
        let mut m: usize = 0;
        let mut found = false;
        while m < map.len()
            invariant
                m <= map@.len(),
                x == graph@[k as int].0,
                map@ == config.activity_worker_map@,
                found ==> mapped_activity(map@, x),
                !found ==> forall|i: int| 0 <= i < m ==> (#[trigger] map@[i]).0 != x,
            decreases map@.len() - m,
        {
            if map[m].0 == x {
                found = true;
            }
            m += 1;
        }
        if !found {
            proof {
                assert(!mapped_activity(map@, x));
            }
            return Err(crate::graph::ConfigError::ActivityUnassigned(x));
        }
        k += 1;
    }
    Ok(())
}

} // verus!
