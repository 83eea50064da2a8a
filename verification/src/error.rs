//! The library's error type.

use vstd::prelude::*;

use crate::ids::{ActivityId, ChannelId, WorkerId};
use crate::signals::Signal;
use core::time::Duration;

verus! {

/// Knows `std::io::Error` as an opaque value, carried out of transport code.
#[verifier::external_type_specification]
#[verifier::external_body]
pub struct ExIoError(std::io::Error);

/// Everything that can go wrong in the orchestrator's signalling paths.
#[non_exhaustive]
#[derive(Debug)]
pub enum Error {
    /// No activity with this ID is hosted here.
    ActivityNotFound(ActivityId),
    /// A signalling channel failed, with a static description.
    Channel(&'static str),
    /// No channel with this ID exists.
    ChannelNotFound(ChannelId),
    /// An input/output error, with a static description of the action.
    Io((std::io::Error, &'static str)),
    /// A timeout was reached, with the action that timed out.
    Timeout(Duration, &'static str),
    /// A protocol-level signal arrived where none was expected.
    UnexpectedProtocolSignal,
    /// A signal arrived that this receiver does not handle.
    UnexpectedSignal(Signal),
    /// No worker with this ID exists.
    WorkerNotFound(WorkerId),
}

} // verus!
