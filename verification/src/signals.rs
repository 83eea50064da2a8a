//! Signals sent between the scheduler, the workers and the recorders.

use vstd::prelude::*;

use crate::ids::{ActivityId, AgentId};
use crate::timestamp::{SyncInfo, Timestamp};

verus! {

/// Signal types sent between threads or processes.
#[derive(Debug, Copy, Clone, PartialEq, Eq, Hash)]
pub enum Signal {
    /// Sent from the primary agent to each secondary agent with time
    /// synchronisation information.
    StartupSync(SyncInfo),
    /// Sent by the scheduler to trigger an activity's startup hook.
    Startup((ActivityId, Timestamp)),
    /// Sent by the scheduler to trigger an activity's shutdown hook.
    Shutdown((ActivityId, Timestamp)),
    /// Sent by the scheduler to trigger an activity's step hook.
    Step((ActivityId, Timestamp)),
    /// Sent back to indicate that a previously triggered activity hook has
    /// finished.
    Ready((ActivityId, Timestamp)),
    /// Sent by the scheduler to the recorders when the task chain starts.
    TaskChainStart(Timestamp),
    /// Sent by the scheduler to the recorders when the task chain ends.
    TaskChainEnd(Timestamp),
    /// Sent back to indicate that a recorder operation has finished.
    RecorderReady((AgentId, Timestamp)),
}

/// The variant of a signal, without its payload: what recording rules select
/// on.
#[derive(Debug, Copy, Clone, PartialEq, Eq, Hash, Structural)]
pub enum SignalKind {
    /// A [`Signal::StartupSync`].
    StartupSync,
    /// A [`Signal::Startup`].
    Startup,
    /// A [`Signal::Shutdown`].
    Shutdown,
    /// A [`Signal::Step`].
    Step,
    /// A [`Signal::Ready`].
    Ready,
    /// A [`Signal::TaskChainStart`].
    TaskChainStart,
    /// A [`Signal::TaskChainEnd`].
    TaskChainEnd,
    /// A [`Signal::RecorderReady`].
    RecorderReady,
}

impl Signal {
    /// The variant of this signal.
    pub open spec fn spec_kind(self) -> SignalKind {
        match self {
            Signal::StartupSync(_) => SignalKind::StartupSync,
            Signal::Startup(_) => SignalKind::Startup,
            Signal::Shutdown(_) => SignalKind::Shutdown,
            Signal::Step(_) => SignalKind::Step,
            Signal::Ready(_) => SignalKind::Ready,
            Signal::TaskChainStart(_) => SignalKind::TaskChainStart,
            Signal::TaskChainEnd(_) => SignalKind::TaskChainEnd,
            Signal::RecorderReady(_) => SignalKind::RecorderReady,
        }
    }

    /// The variant of this signal.
    pub fn kind(&self) -> (k: SignalKind)
        ensures
            k == self.spec_kind(),
    {
        match self {
            Signal::StartupSync(_) => SignalKind::StartupSync,
            Signal::Startup(_) => SignalKind::Startup,
            Signal::Shutdown(_) => SignalKind::Shutdown,
            Signal::Step(_) => SignalKind::Step,
            Signal::Ready(_) => SignalKind::Ready,
            Signal::TaskChainStart(_) => SignalKind::TaskChainStart,
            Signal::TaskChainEnd(_) => SignalKind::TaskChainEnd,
            Signal::RecorderReady(_) => SignalKind::RecorderReady,
        }
    }
}

} // verus!
