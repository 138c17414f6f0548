//! A second generation of the scheduler: CPU life cycle and topology, scheduling
//! policies, burst prediction, run queues, statistics and architecture hooks.
pub mod cpus;
pub mod hooks;
pub mod policy;
pub mod predictor;
pub mod types;
pub mod stats;
pub mod control;
pub mod accounting;
pub mod queue;
pub mod rq;
pub mod class;
