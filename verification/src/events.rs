//! Name-addressed one-shot rendezvous events.
//!
//! The orchestration protocol is driven entirely by named events: an event is
//! `triggered` (fired, releasing every waiter), observed by a `sync` wait, and
//! `reset` at the cycle boundary. Event identity is structured here; the wire
//! rendering of a name is a transport concern and stays outside the verified
//! core.

use vstd::prelude::*;

use crate::ids::{ActivityId, AgentId};

verus! {

broadcast use vstd::seq_lib::group_seq_properties;

/// Identity of one rendezvous event of the orchestration protocol.
#[derive(Clone, Copy, Debug, PartialEq, Eq, Hash, Structural)]
pub enum EventId {
    /// `<agent>/alive`: a secondary announces readiness to the primary.
    AgentAlive(AgentId),
    /// `<app>/startup`: the primary's global startup release.
    StartupRelease,
    /// `<agent>/startup_completed`: an agent finished starting all activities.
    AgentStartupCompleted(AgentId),
    /// `<app>/<activity>/step`: release of one activity's step in this cycle.
    ActivityStep(ActivityId),
    /// `<app>/<activity>/step_completed`: that step has finished.
    ActivityStepCompleted(ActivityId),
    /// `<app>/shutdown`: the primary's termination broadcast.
    ShutdownBroadcast,
    /// `<agent>/shutdown_completed`: an agent finished stopping.
    AgentShutdownCompleted(AgentId),
    /// The external termination signal watched by the shutdown notification.
    ExternalShutdown,
}

/// A process-wide namespace of one-shot events with a fired flag per name.
///
/// The bus is viewed as the set of currently fired event names. An event is
/// created on first reference: a name that was never triggered is simply not
/// fired.
pub struct EventBus {
    fired: Vec<EventId>,
}

impl EventBus {
    /// The set of event names whose fired flag is set.
    pub closed spec fn view(&self) -> Set<EventId> {
        Set::new(|e: EventId| self.fired@.contains(e))
    }

    /// A bus on which no event has fired.
    pub fn new() -> (bus: EventBus)
        ensures
            bus@ == Set::<EventId>::empty(),
    {
        let bus = EventBus { fired: Vec::new() };
        proof {
            assert(bus@ =~= Set::<EventId>::empty());
        }
        bus
    }

    /// Whether the named event has fired since its last reset.
    pub fn is_fired(&self, e: EventId) -> (b: bool)
        ensures
            b == self@.contains(e),
    {
        let mut i: usize = 0;
        while i < self.fired.len()
            invariant
                i <= self.fired.len(),
                forall|j: int| 0 <= j < i ==> self.fired@[j] != e,
            decreases self.fired.len() - i,
        {
            if self.fired[i] == e {
                return true;
            }
            i += 1;
        }
        false
    }

    /// Mark the named event as fired. Idempotent: a second trigger on a
    /// fired name leaves the bus unchanged.
    pub fn trigger(&mut self, e: EventId)
        ensures
            final(self)@ == old(self)@.insert(e),
    {
        if !self.is_fired(e) {
            self.fired.push(e);
        }
        proof {
            assert(final(self)@ =~= old(self)@.insert(e));
        }
    }

    /// Clear the fired flag of the named event.
    pub fn reset(&mut self, e: EventId)
        ensures
            final(self)@ == old(self)@.remove(e),
    {
        let mut kept: Vec<EventId> = Vec::new();
        let mut i: usize = 0;
        while i < self.fired.len()
            invariant
                i <= self.fired.len(),
                self.fired == old(self).fired,
                forall|f: EventId| #[trigger] kept@.contains(f)
                    ==> self.fired@.contains(f) && f != e,
                forall|j: int| 0 <= j < i ==> #[trigger] self.fired@[j] == e
                    || kept@.contains(self.fired@[j]),
            decreases self.fired.len() - i,
        {
            let cur = self.fired[i];
            if cur != e {
                proof {
                    assert(self.fired@[i as int] == cur);
                }
                kept.push(cur);
            }
            i += 1;
        }
        self.fired = kept;
        proof {
            assert forall|f: EventId| old(self)@.remove(e).contains(f)
                implies final(self)@.contains(f) by {
                let j = choose|j: int| 0 <= j < old(self).fired@.len()
                    && old(self).fired@[j] == f;
                assert(old(self).fired@[j] == e || kept@.contains(old(self).fired@[j]));
            }
            assert(final(self)@ =~= old(self)@.remove(e));
        }
    }

    /// Clear the fired flags of all the named events: the cycle-boundary
    /// re-arming pass of the cycle driver.
    pub fn reset_all(&mut self, events: &Vec<EventId>)
        ensures
            forall|f: EventId| #[trigger] final(self)@.contains(f)
                <==> (old(self)@.contains(f) && !events@.contains(f)),
    {
        let mut i: usize = 0;
        while i < events.len()
            invariant
                i <= events.len(),
                forall|f: EventId| #[trigger] self@.contains(f)
                    <==> (old(self)@.contains(f)
                        && !exists|j: int| 0 <= j < i && events@[j] == f),
            decreases events.len() - i,
        {
            let ghost prev = self@;
            self.reset(events[i]);
            proof {
                assert forall|f: EventId| #[trigger] self@.contains(f)
                    implies (old(self)@.contains(f)
                        && !exists|j: int| 0 <= j < i + 1 && events@[j] == f) by {
                    assert(prev.contains(f) && f != events@[i as int]);
                    assert forall|j: int| 0 <= j < i + 1
                        implies events@[j] != f by {
                        if j < i {
                            assert(!(exists|k: int| 0 <= k < i && events@[k] == f));
                        }
                    }
                }
                assert forall|f: EventId| old(self)@.contains(f)
                    && !exists|j: int| 0 <= j < i + 1 && events@[j] == f
                    implies self@.contains(f) by {
                    assert(!exists|j: int| 0 <= j < i && events@[j] == f);
                    assert(f != events@[i as int]);
                }
            }
            i += 1;
        }
        proof {
            assert forall|f: EventId| old(self)@.contains(f) && !events@.contains(f)
                implies self@.contains(f) by {
                assert(!exists|j: int| 0 <= j < events@.len() && events@[j] == f);
            }
        }
    }
}

/// Triggering a fired event changes nothing: over the view of [`EventBus`],
/// a second `trigger` on the same name within one cycle is a no-op, so two
/// triggers are equivalent to one.
pub proof fn lemma_trigger_idempotent(bus: Set<EventId>, e: EventId)
    ensures
        bus.insert(e).insert(e) == bus.insert(e),
        bus.contains(e) ==> bus.insert(e) == bus,
{
    assert(bus.insert(e).insert(e) =~= bus.insert(e));
    if bus.contains(e) {
        assert(bus.insert(e) =~= bus);
    }
}

} // verus!
