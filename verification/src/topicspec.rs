//! Direction of data flow on inter-activity topics.
//!
//! The full topic specification — the topic handle and the backend
//! initialisation callables of the communication layer — lives with the
//! transport code outside the verified library; the direction tag is the
//! part the orchestration logic reads.

use vstd::prelude::*;

verus! {

/// Describes the direction of the data flow for one topic of one component.
#[derive(Debug, Default, Clone, Copy, Eq, PartialEq, Structural)]
pub enum Direction {
    /// Incoming / received data.
    #[default]
    Incoming,
    /// Outgoing / sent data.
    Outgoing,
}

} // verus!
