//! Plain descriptions of tasks shared by the control plane: identifiers, a 64-CPU
//! affinity mask, deadline reservations, CPU budgets, task states and the
//! configuration a task is created with.
use vstd::prelude::*;
use super::policy::{Class, Policy, Priority};

verus! {

/// Identifier of a task.
#[derive(Clone, Copy, Debug, PartialEq, Eq, Structural)]
pub struct TaskId(pub u64);

/// A set of up to 64 CPUs, bit `i` standing for CPU `i`.
#[derive(Clone, Copy, Debug, PartialEq, Eq, Structural)]
pub struct CpuMask(pub u64);

/// A deadline reservation: `runtime_ns` of CPU time within each `deadline_ns`.
#[derive(Clone, Copy, Debug, PartialEq, Eq, Structural)]
pub struct Deadline {
    pub runtime_ns: u64,
    pub deadline_ns: u64,
    pub period_ns: u64,
}

/// A CPU budget: at most `quota_ns` in each `window_ns` (no limit when the quota is 0).
#[derive(Clone, Copy, Debug, PartialEq, Eq, Structural)]
pub struct TaskBudget {
    pub quota_ns: u64,
    pub window_ns: u64,
}

/// Where a task is in its life.
#[derive(Clone, Copy, Debug, PartialEq, Eq, Structural)]
pub enum TaskState {
    Ready,
    Running,
    Finished,
}

/// How a task is to be scheduled.
#[derive(Clone, Copy, Debug, PartialEq, Eq, Structural)]
pub struct TaskConfig {
    pub priority: Priority,
    pub class: Class,
    pub policy: Policy,
    pub affinity: CpuMask,
    pub deadline: Option<Deadline>,
    pub budget: TaskBudget,
    pub stack_size: usize,
}

} // verus!
