//! Timestamps and cross-process time synchronisation.
//!
//! The primary agent samples its clock once and sends the sample to every
//! other process as [`SyncInfo`]; each process then reports timestamps on the
//! primary's time base by offsetting its own clock readings.

use vstd::prelude::*;

verus! {

/// A point in time on the primary's time base, in nanoseconds.
#[derive(Clone, Copy, Debug, PartialEq, Eq, Hash, Structural)]
pub struct Timestamp(pub u64);

/// The primary's clock sample, broadcast at startup so that every process
/// reports timestamps on one time base.
#[derive(Clone, Copy, Debug, PartialEq, Eq, Hash, Structural)]
pub struct SyncInfo {
    /// The primary's clock reading at synchronisation, in nanoseconds.
    pub reference_nanos: u64,
}

/// Relies on `std::time::SystemTime::now`: the local clock reading, in
/// nanoseconds since the epoch. Nothing can be promised of the clock's value.
#[verifier::external_body]
pub fn system_now_nanos() -> u64 {
    std::time::SystemTime::now().duration_since(std::time::UNIX_EPOCH).map(
        |d| d.as_nanos() as u64,
    ).unwrap_or(0)
}

/// A local clock aligned to the primary's time base: the pair of one local
/// reading and the reference reading it corresponds to.
#[derive(Clone, Copy, Debug, PartialEq, Eq, Structural)]
pub struct Clock {
    /// The local reading taken at synchronisation.
    pub base_local: u64,
    /// The primary's reading it corresponds to.
    pub base_reference: u64,
}

impl Clock {
    /// A clock not yet aligned: it reports plain local readings until a
    /// synchronisation sample arrives.
    pub fn new_unsynchronised() -> (clock: Clock)
        ensures
            clock.base_local == 0,
            clock.base_reference == 0,
    {
        Clock { base_local: 0, base_reference: 0 }
    }

    /// Align to the primary's time base: pair the received sample with the
    /// local reading taken on receipt.
    pub fn new(sync: SyncInfo, local_now: u64) -> (clock: Clock)
        ensures
            clock.base_local == local_now,
            clock.base_reference == sync.reference_nanos,
    {
        Clock { base_local: local_now, base_reference: sync.reference_nanos }
    }

    /// The timestamp, on the primary's time base, of the local reading
    /// `local_now`: the reference reading advanced by the time passed
    /// locally. A reading older than the synchronisation point maps to the
    /// reference itself, and a sum beyond the range saturates.
    pub fn timestamp_at(&self, local_now: u64) -> (t: Timestamp)
        ensures
            t.0 == if local_now < self.base_local {
                self.base_reference as int
            } else if self.base_reference + (local_now - self.base_local) <= u64::MAX {
                self.base_reference + (local_now - self.base_local)
            } else {
                u64::MAX as int
            },
    {
        let delta = if local_now >= self.base_local {
            local_now - self.base_local
        } else {
            0
        };
        if delta <= u64::MAX - self.base_reference {
            Timestamp(self.base_reference + delta)
        } else {
            Timestamp(u64::MAX)
        }
    }

    /// The current timestamp on the primary's time base.
    pub fn now(&self) -> Timestamp {
        let local = system_now_nanos();
        self.timestamp_at(local)
    }
}

} // verus!
