//! A cyclic, deadline-driven task-chain orchestrator.
//!
//! Independent agents run fixed sets of activities — units of user code with
//! startup, step and shutdown hooks. A primary agent drives a global period
//! and enforces a per-cycle partial order over all activities that matches a
//! declared dependency graph; every other agent releases, steps and joins its
//! activities on each cycle in obedience to the global schedule.
//!
//! The orchestration core is modelled as data: named one-shot events
//! ([`events`]), tasks of primitive operations run by a cooperative scheduler
//! that records a trace ([`tasks`]), builders that lay the agent programs and
//! the global driver program out over those operations together with the
//! ordering theorems of the protocol ([`orchestrator`]), and the cycle driver
//! ([`program`]). The signalling layer ([`channel`], [`signals`], [`worker`],
//! [`recorder`]) carries activity triggers between the scheduler and worker
//! threads over bounded channels.

pub mod activity;
pub mod agent;
pub mod channel;
pub mod error;
pub mod graph;
pub mod events;
pub mod ids;
pub mod liveness;
pub mod orchestrator;
pub mod program;
pub mod recorder;
pub mod signals;
pub mod tasks;
pub mod timestamp;
pub mod topicspec;
pub mod worker;
