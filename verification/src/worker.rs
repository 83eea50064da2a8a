//! The worker thread loop running activities.
//!
//! A worker owns a set of activities, built inside its own thread, and obeys
//! the scheduler's signals: on `Startup`, `Step` or `Shutdown` for one of its
//! activities it runs the matching hook and reports `Ready`; on
//! `StartupSync` it aligns its clock to the primary's time base. Because one
//! worker handles one signal at a time, the three hooks of an activity are
//! never concurrent and steps are strictly serialized.

use vstd::prelude::*;

use crate::activity::{Activity, ActivityBuilder};
use crate::channel::{Receiver, Sender};
use crate::error::Error;
use crate::ids::{ActivityId, WorkerId};
use crate::signals::Signal;
use crate::timestamp::{system_now_nanos, Clock};
use core::time::Duration;

verus! {

/// A worker's connection to the scheduler: a source of trigger signals and a
/// sink for readiness reports. Nothing is promised of the transport itself;
/// everything the worker concludes from a received value is verified.
pub trait ConnectWorker {
    /// Wait up to `timeout` for a signal from the scheduler: a signal,
    /// `None` on timeout, or a transport error.
    fn receive(&mut self, timeout: Duration) -> (r: Result<Option<Signal>, Error>)
        ensures
            r matches Err(e) ==> (e matches Error::Channel(_) || e matches Error::Io(_) || e
                matches Error::Timeout(_, _)),
    ;

    /// Report to the scheduler; an error is a transport error.
    fn send_to_scheduler(&mut self, signal: &Signal) -> (r: Result<(), Error>)
        ensures
            r matches Err(e) ==> (e matches Error::Channel(_) || e matches Error::Io(_) || e
                matches Error::Timeout(_, _)),
    ;
}

/// A worker connector over in-process bounded channels.
pub struct MpscWorkerConnector {
    /// Signals from the scheduler.
    pub receiver: Receiver<Signal>,
    /// Reports to the scheduler.
    pub sender: Sender<Signal>,
}

impl ConnectWorker for MpscWorkerConnector {
    fn receive(&mut self, timeout: Duration) -> Result<Option<Signal>, Error> {
        self.receiver.receive(timeout)
    }

    fn send_to_scheduler(&mut self, signal: &Signal) -> Result<(), Error> {
        self.sender.send(*signal)
    }
}

/// A worker: its activities, its connection to the scheduler, and its clock
/// on the primary's time base.
pub struct Worker<T: ConnectWorker, A: Activity> {
    /// ID of this worker.
    pub id: WorkerId,
    /// The activities this worker runs, by ID.
    pub activities: Vec<(ActivityId, A)>,
    /// Connector to the scheduler.
    pub connector: T,
    /// Timeout on receive calls.
    pub timeout: Duration,
    /// The worker's clock, aligned by the startup synchronisation signal.
    pub clock: Clock,
}

impl<T: ConnectWorker, A: Activity> Worker<T, A> {
    /// Create a new instance: each activity is built here, inside the thread
    /// that will run it, under its declared ID.
    pub fn new<B: ActivityBuilder<Built = A>>(
        id: WorkerId,
        activity_builders: Vec<(ActivityId, B)>,
        connector: T,
        timeout: Duration,
    ) -> (worker: Worker<T, A>)
        ensures
            worker.id == id,
            worker.timeout == timeout,
            worker.activities@.len() == activity_builders@.len(),
            forall|i: int| 0 <= i < activity_builders@.len()
                ==> (#[trigger] worker.activities@[i]).0 == activity_builders@[i].0,
    {
        let ghost orig = activity_builders@;
        let mut builders = activity_builders;
        let mut activities: Vec<(ActivityId, A)> = Vec::new();
        while builders.len() > 0
            invariant
                activities@.len() + builders@.len() == orig.len(),
                forall|i: int| 0 <= i < activities@.len() ==> (#[trigger] activities@[i]).0
                    == orig[i].0,
                forall|i: int| 0 <= i < builders@.len() ==> #[trigger] builders@[i]
                    == orig[activities@.len() + i],
            decreases builders@.len(),
        {
            let (aid, builder) = builders.remove(0);
            let activity = builder.build(aid);
            activities.push((aid, activity));
        }
        Worker { id, activities, connector, timeout, clock: Clock::new_unsynchronised() }
    }

    /// Run the matching hook of the signalled activity and report `Ready`
    /// for it. The result is `Err(ActivityNotFound)` exactly when the
    /// activity is not hosted here; on a hook signal for a hosted activity
    /// the hook runs and the result is `Ok` or the transport's own error; a
    /// non-hook signal for a hosted activity is rejected as unexpected.
    pub fn handle_activity_signal(&mut self, id: &ActivityId, signal: &Signal) -> (r: Result<
        (),
        Error,
    >)
        ensures
            final(self).activities@.len() == old(self).activities@.len(),
            forall|i: int| 0 <= i < old(self).activities@.len()
                ==> (#[trigger] final(self).activities@[i]).0 == old(self).activities@[i].0,
            (forall|i: int| 0 <= i < old(self).activities@.len()
                ==> (#[trigger] old(self).activities@[i]).0 != *id) ==> (r matches Err(e)
                && e matches Error::ActivityNotFound(a) && a == *id),
            r matches Err(e) ==> (e matches Error::ActivityNotFound(_) || e
                matches Error::Channel(_) || e matches Error::Io(_) || e matches Error::Timeout(
                _,
                _,
            ) || e matches Error::UnexpectedSignal(_)),
            (!(*signal matches Signal::Startup(_) || *signal matches Signal::Step(_) || *signal
                matches Signal::Shutdown(_)) && (exists|i: int|
                0 <= i < old(self).activities@.len() && (#[trigger] old(
                    self,
                ).activities@[i]).0 == *id)) ==> (r matches Err(e) && e
                matches Error::UnexpectedSignal(u) && u == *signal),
            ((*signal matches Signal::Startup(_) || *signal matches Signal::Step(_) || *signal
                matches Signal::Shutdown(_)) && (exists|i: int|
                0 <= i < old(self).activities@.len() && (#[trigger] old(
                    self,
                ).activities@[i]).0 == *id)) ==> (r is Ok || (r matches Err(e) && (e
                matches Error::Channel(_) || e matches Error::Io(_) || e matches Error::Timeout(
                _,
                _,
            )))),
    {
        // Find the activity.
        let n = self.activities.len();
        let mut i: usize = 0;
        let mut found = false;
        while i < n && !found
            invariant
                i <= n,
                n == self.activities@.len(),
                found ==> i < n && self.activities@[i as int].0 == *id,
                !found ==> forall|j: int| 0 <= j < i
                    ==> (#[trigger] self.activities@[j]).0 != *id,
            decreases n - i + if found {
                0int
            } else {
                1int
            },
        {
            if self.activities[i].0 == *id {
                found = true;
            } else {
                i += 1;
            }
        }
        if !found {
            return Err(Error::ActivityNotFound(*id));
        }

        match signal {
            Signal::Startup((activity_id, _)) => {
                let (aid, mut activity) = self.activities.remove(i);
                activity.startup();
                self.activities.insert(i, (aid, activity));
                proof {
                    assert(self.activities@ =~= old(self).activities@.update(
                        i as int,
                        self.activities@[i as int],
                    ));
                }
                let ready = Signal::Ready((*activity_id, self.clock.now()));
                self.connector.send_to_scheduler(&ready)
            },
            Signal::Step((activity_id, _)) => {
                let (aid, mut activity) = self.activities.remove(i);
                activity.step();
                self.activities.insert(i, (aid, activity));
                proof {
                    assert(self.activities@ =~= old(self).activities@.update(
                        i as int,
                        self.activities@[i as int],
                    ));
                }
                let ready = Signal::Ready((*activity_id, self.clock.now()));
                self.connector.send_to_scheduler(&ready)
            },
            Signal::Shutdown((activity_id, _)) => {
                let (aid, mut activity) = self.activities.remove(i);
                activity.shutdown();
                self.activities.insert(i, (aid, activity));
                proof {
                    assert(self.activities@ =~= old(self).activities@.update(
                        i as int,
                        self.activities@[i as int],
                    ));
                }
                let ready = Signal::Ready((*activity_id, self.clock.now()));
                self.connector.send_to_scheduler(&ready)
            },
            other => Err(Error::UnexpectedSignal(*other)),
        }
    }

    /// Run the worker: obey up to `max_signals` scheduler signals (a timeout
    /// consumes one too, so the loop is bounded), aligning the clock on
    /// `StartupSync` and running hooks on the trigger signals. Ends with the
    /// transport error when the channel closes, with the offending signal's
    /// error on protocol violations — an unexpected-signal error only ever
    /// carries a signal that is neither a hook trigger nor the startup
    /// synchronisation — and with `Ok` when the bound is reached.
    pub fn run(self, max_signals: u64) -> (r: Result<(), Error>)
        ensures
            r matches Err(e) ==> (e matches Error::ActivityNotFound(_) || e
                matches Error::Channel(_) || e matches Error::Io(_) || e
                matches Error::Timeout(_, _) || e matches Error::UnexpectedSignal(_)),
            r matches Err(e) ==> (e matches Error::UnexpectedSignal(s) ==> !(s
                matches Signal::Startup(_) || s matches Signal::Step(_) || s
                matches Signal::Shutdown(_) || s matches Signal::StartupSync(_))),
    {
        let mut this = self;
        let mut fuel = max_signals;
        while fuel > 0
            invariant
                true,
            decreases fuel,
        {
            fuel = fuel - 1;
            let received = this.connector.receive(this.timeout);
            match received {
                Ok(None) => {},
                Ok(Some(signal)) => {
                    match signal {
                        Signal::Startup((id, _)) | Signal::Step((id, _)) | Signal::Shutdown(
                            (id, _),
                        ) => {
                            let result = this.handle_activity_signal(&id, &signal);
                            match result {
                                Ok(()) => {},
                                Err(e) => {
                                    return Err(e);
                                },
                            }
                        },
                        Signal::StartupSync(sync_info) => {
                            let local = system_now_nanos();
                            this.clock = Clock::new(sync_info, local);
                        },
                        other => {
                            return Err(Error::UnexpectedSignal(other));
                        },
                    }
                },
                Err(e) => {
                    return Err(e);
                },
            }
        }
        Ok(())
    }
}

} // verus!
