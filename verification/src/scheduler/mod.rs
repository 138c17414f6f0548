//! Scheduler data structures: bitmaps, CPU masks, the CPU registry, tasks, run
//! queues and context-switch decisions.
pub mod words;
pub mod bitmap;
pub mod cpumask;
pub mod registry;
pub mod task;
pub mod runqueue;
pub mod switch;
pub mod em;
pub mod em_access;
pub mod topology;
pub mod balance;
pub mod stopper;
pub mod decide;
pub mod sched_ops;
pub mod smp;
pub mod migration;

use vstd::prelude::*;

verus! {

/// Start-up check of the scheduler; it has nothing to check and succeeds.
pub fn self_test() -> (r: Result<(), &'static str>)
    ensures
        r == Ok::<(), &'static str>(()),
{
    Ok(())
}

/// The CPU the caller runs on; only the boot CPU runs the scheduler.
pub fn current_cpu_id() -> (r: u32)
    ensures
        r == 0,
{
    0
}

} // verus!
