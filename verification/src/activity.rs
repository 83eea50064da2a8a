//! Activities and their builders.

use vstd::prelude::*;

use crate::ids::ActivityId;

verus! {

/// An activity: a unit of user code run by a worker, with a startup, a step
/// and a shutdown hook. The orchestrator promises each hook is invoked
/// without overlap — startup once, step once per cycle in dependency order,
/// shutdown once — and assumes nothing about what the hooks do.
pub trait Activity {
    /// The ID of the activity.
    fn id(&self) -> ActivityId;

    /// Called once upon startup.
    fn startup(&mut self);

    /// Called once upon each step.
    fn step(&mut self);

    /// Called once upon shutdown.
    fn shutdown(&mut self);
}

/// Builds one activity inside the worker thread that will run it, so that an
/// activity never moves between threads after being built.
pub trait ActivityBuilder: Sized {
    /// The activity this builder builds.
    type Built: Activity;

    /// Build the activity under the given ID.
    fn build(self, id: ActivityId) -> Self::Built;
}

} // verus!
