//! Identifiers of activities, agents, workers and signalling channels.

use vstd::prelude::*;

verus! {

/// Identifier of an activity, unique across the whole system.
#[derive(Clone, Copy, Debug, PartialEq, Eq, Hash, Structural)]
pub struct ActivityId(pub u64);

/// Identifier of an agent (an OS process hosting activities).
#[derive(Clone, Copy, Debug, PartialEq, Eq, Hash, Structural)]
pub struct AgentId(pub u64);

/// Identifier of a worker thread within an agent.
#[derive(Clone, Copy, Debug, PartialEq, Eq, Hash, Structural)]
pub struct WorkerId(pub u64);

/// Identifier of a signalling channel.
#[derive(Clone, Copy, Debug, PartialEq, Eq, Hash, Structural)]
pub struct ChannelId(pub u64);

} // verus!
