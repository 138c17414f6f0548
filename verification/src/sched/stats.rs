//! Per-CPU accounting: ticks, run and idle time, switches and queue events.
use vstd::prelude::*;

verus! {

/// Counters of one CPU.
#[derive(Clone, Copy, Debug, PartialEq, Eq, Structural)]
pub struct CpuStats {
    pub ticks: u64,
    pub runtime_ns: u64,
    pub idle_ns: u64,
    pub switches: u64,
    pub preemptions: u64,
    pub voluntary: u64,
    pub enqueues: u64,
    pub migrations: u64,
    pub missed_deadlines: u64,
}

impl Default for CpuStats {
    fn default() -> (r: Self)
        ensures
            r == (CpuStats {
                ticks: 0,
                runtime_ns: 0,
                idle_ns: 0,
                switches: 0,
                preemptions: 0,
                voluntary: 0,
                enqueues: 0,
                migrations: 0,
                missed_deadlines: 0,
            }),
    {
        CpuStats {
            ticks: 0,
            runtime_ns: 0,
            idle_ns: 0,
            switches: 0,
            preemptions: 0,
            voluntary: 0,
            enqueues: 0,
            migrations: 0,
            missed_deadlines: 0,
        }
    }
}

/// Busy share of `busy` out of `busy + idle`, in parts per million, both sums
/// saturating; 0 without busy time.
pub open spec fn ppm(busy: u64, idle: u64) -> u64 {
    if busy == 0 {
        0
    } else {
        let scaled = if busy * 1_000_000 > u64::MAX { u64::MAX as int } else { busy * 1_000_000 };
        let total = busy.saturating_add(idle);
        (scaled / (if total > 1 { total as int } else { 1 })) as u64
    }
}

impl CpuStats {
    /// Count a tick of `ns` run time.
    pub fn on_tick(&mut self, ns: u64)
        requires
            old(self).ticks < u64::MAX,
        ensures
            *final(self) == (CpuStats {
                ticks: (old(self).ticks + 1) as u64,
                runtime_ns: old(self).runtime_ns.saturating_add(ns),
                ..*old(self)
            }),
    {
        self.ticks = self.ticks + 1;
        self.runtime_ns = self.runtime_ns.saturating_add(ns);
    }

    /// Count a context switch.
    pub fn on_switch(&mut self)
        requires
            old(self).switches < u64::MAX,
        ensures
            *final(self) == (CpuStats { switches: (old(self).switches + 1) as u64, ..*old(self) }),
    {
        self.switches = self.switches + 1;
    }

    /// Count an enqueue.
    pub fn on_enqueue(&mut self)
        requires
            old(self).enqueues < u64::MAX,
        ensures
            *final(self) == (CpuStats { enqueues: (old(self).enqueues + 1) as u64, ..*old(self) }),
    {
        self.enqueues = self.enqueues + 1;
    }

    /// Count a preemption.
    pub fn on_preempt(&mut self)
        requires
            old(self).preemptions < u64::MAX,
        ensures
            *final(self) == (CpuStats { preemptions: (old(self).preemptions + 1) as u64, ..*old(self) }),
    {
        self.preemptions = self.preemptions + 1;
    }

    /// Add `ns` of idle time.
    pub fn on_idle(&mut self, ns: u64)
        ensures
            *final(self) == (CpuStats { idle_ns: old(self).idle_ns.saturating_add(ns), ..*old(self) }),
    {
        self.idle_ns = self.idle_ns.saturating_add(ns);
    }

    /// Share of time spent running, in parts per million.
    pub fn utilization_ppm(&self) -> (r: u64)
        ensures
            r == ppm(self.runtime_ns, self.idle_ns),
            r <= 1_000_000,
    {
        if self.runtime_ns == 0 {
            0
        } else {
            let scaled: u64 = if self.runtime_ns > u64::MAX / 1_000_000 {
                u64::MAX
            } else {
                self.runtime_ns * 1_000_000
            };
            let total = self.runtime_ns.saturating_add(self.idle_ns);
            let d: u64 = if total > 1 { total } else { 1 };
            proof {
                assert(scaled as int <= d * 1_000_000) by (nonlinear_arith)
                    requires
                        scaled as int == (if self.runtime_ns * 1_000_000 > u64::MAX { u64::MAX as int } else {
                            self.runtime_ns * 1_000_000
                        }),
                        d >= self.runtime_ns,
                ;
                vstd::arithmetic::div_mod::lemma_div_is_ordered(scaled as int, d * 1_000_000, d as int);
                vstd::arithmetic::div_mod::lemma_div_multiples_vanish(1_000_000, d as int);
            }
            scaled / d
        }
    }
}

/// A summary of the whole scheduler at one moment.
#[derive(Clone, Copy, Debug, PartialEq, Eq, Structural)]
pub struct SchedulerSnapshot {
    pub now_ns: u64,
    pub cpu_count: usize,
    pub task_count: usize,
    pub ready_count: usize,
    pub running_count: usize,
    pub load: u64,
}

impl Default for SchedulerSnapshot {
    fn default() -> (r: Self)
        ensures
            r == (SchedulerSnapshot { now_ns: 0, cpu_count: 0, task_count: 0, ready_count: 0, running_count: 0, load: 0 }),
    {
        SchedulerSnapshot { now_ns: 0, cpu_count: 0, task_count: 0, ready_count: 0, running_count: 0, load: 0 }
    }
}

} // verus!
