//! Per-CPU stoppers: a one-slot work queue that runs a function on a stopped CPU.
//! A job moves Idle -> Preparing (queued) -> Running -> Done or Aborted, and back
//! to Idle when its result is collected. The function and its argument are opaque
//! handles; the caller of `execute_work` supplies how a handle is run.
use vstd::prelude::*;
use super::cpumask::{CpuMask, MAX_CPUS};
use super::task::{SpinLock, CPU_NONE};

verus! {

/// Stage of a stopper job.
#[derive(Debug, Clone, Copy, PartialEq, Eq, Structural)]
pub enum StopperState {
    Idle,
    Preparing,
    Running,
    Done,
    Aborted,
}

/// The stored number of a stage.
pub open spec fn stopper_code(s: StopperState) -> u32 {
    match s {
        StopperState::Idle => 0,
        StopperState::Preparing => 1,
        StopperState::Running => 2,
        StopperState::Done => 3,
        StopperState::Aborted => 4,
    }
}

/// The stage a stored number stands for; an unknown number reads as `Idle`.
pub open spec fn stopper_state_of(v: u32) -> StopperState {
    if v == 1 {
        StopperState::Preparing
    } else if v == 2 {
        StopperState::Running
    } else if v == 3 {
        StopperState::Done
    } else if v == 4 {
        StopperState::Aborted
    } else {
        StopperState::Idle
    }
}

/// The job slot of a stopper.
pub struct StopperWork {
    pub state: u32,
    pub fn_ptr: usize,
    pub arg: usize,
    pub ret: u32,
    pub started: bool,
    pub completed: bool,
}

impl StopperWork {
    /// An idle slot with no job.
    pub fn empty() -> (r: Self)
        ensures
            r == (StopperWork { state: 0, fn_ptr: 0, arg: 0, ret: 0, started: false, completed: false }),
            stopper_state_of(r.state) == StopperState::Idle,
    {
        StopperWork { state: 0, fn_ptr: 0, arg: 0, ret: 0, started: false, completed: false }
    }

    /// The job's stage.
    pub fn get_state(&self) -> (r: StopperState)
        ensures
            r == stopper_state_of(self.state),
    {
        match self.state {
            1 => StopperState::Preparing,
            2 => StopperState::Running,
            3 => StopperState::Done,
            4 => StopperState::Aborted,
            _ => StopperState::Idle,
        }
    }

    /// Move the job to `new_state`.
    pub fn set_state(&mut self, new_state: StopperState)
        ensures
            *final(self) == (StopperWork { state: stopper_code(new_state), ..*old(self) }),
            stopper_state_of(final(self).state) == new_state,
    {
        self.state = match new_state {
            StopperState::Idle => 0,
            StopperState::Preparing => 1,
            StopperState::Running => 2,
            StopperState::Done => 3,
            StopperState::Aborted => 4,
        };
    }
}

/// The stopper of one CPU.
pub struct CpuStopper {
    pub cpu: u32,
    pub lock: SpinLock,
    pub work: StopperWork,
    pub stopper_task: usize,
    pub enabled: bool,
    pub park_task: bool,
    pub nr_stops: u32,
}

/// The slot after a job of `func` on `arg` is queued.
pub open spec fn queued_work(w: StopperWork, func: usize, arg: usize) -> StopperWork {
    StopperWork { state: 1, fn_ptr: func, arg, ret: 0, started: false, completed: false }
}

impl CpuStopper {
    /// A disabled stopper of no CPU.
    pub fn empty() -> (r: Self)
        ensures
            r.cpu == CPU_NONE,
            !r.lock.held(),
            r.work == (StopperWork { state: 0, fn_ptr: 0, arg: 0, ret: 0, started: false, completed: false }),
            r.stopper_task == 0 && !r.enabled && !r.park_task && r.nr_stops == 0,
    {
        CpuStopper {
            cpu: CPU_NONE,
            lock: SpinLock::new(),
            work: StopperWork::empty(),
            stopper_task: 0,
            enabled: false,
            park_task: false,
            nr_stops: 0,
        }
    }

    /// Bind the stopper to `cpu` and enable it.
    pub fn init(&mut self, cpu: u32)
        ensures
            final(self).cpu == cpu,
            final(self).enabled,
            final(self).work == old(self).work,
            final(self).nr_stops == old(self).nr_stops,
            final(self).stopper_task == old(self).stopper_task,
            final(self).park_task == old(self).park_task,
            final(self).lock.held() == old(self).lock.held(),
    {
        self.cpu = cpu;
        self.enabled = true;
    }

    /// Queue a job of `func` on `arg` when the slot is idle; report whether it was
    /// queued.
    pub fn queue_work(&mut self, func: usize, arg: usize) -> (r: bool)
        ensures
            r == (stopper_state_of(old(self).work.state) == StopperState::Idle),
            !r ==> *final(self) == *old(self),
            r ==> final(self).work == queued_work(old(self).work, func, arg),
            r ==> final(self).nr_stops == vstd::wrapping::u32_specs::wrapping_add(old(self).nr_stops, 1),
            r ==> final(self).cpu == old(self).cpu && final(self).enabled == old(self).enabled
                && final(self).stopper_task == old(self).stopper_task && final(self).park_task == old(
                self,
            ).park_task && final(self).lock.held() == old(self).lock.held(),
    {
        if self.work.get_state() != StopperState::Idle {
            return false;
        }
        self.work.fn_ptr = func;
        self.work.arg = arg;
        self.work.ret = 0;
        self.work.started = false;
        self.work.completed = false;
        self.work.set_state(StopperState::Preparing);
        self.nr_stops = self.nr_stops.wrapping_add(1);
        true
    }

    /// Run a queued job: `call(func, arg)` runs it and gives its result. Without a
    /// queued job nothing happens; a job without a function is aborted.
    pub fn execute_work<F: Fn(usize, usize) -> u32>(&mut self, call: F)
        requires
            forall|f: usize, a: usize| call.requires((f, a)),
        ensures
            final(self).cpu == old(self).cpu && final(self).nr_stops == old(self).nr_stops,
            final(self).enabled == old(self).enabled && final(self).stopper_task == old(self).stopper_task,
            stopper_state_of(old(self).work.state) != StopperState::Preparing ==> final(self).work == old(self).work,
            stopper_state_of(old(self).work.state) == StopperState::Preparing && old(self).work.fn_ptr == 0
                ==> final(self).work == (StopperWork { state: 4, started: true, ..old(self).work }),
            stopper_state_of(old(self).work.state) == StopperState::Preparing && old(self).work.fn_ptr != 0
                ==> final(self).work == (StopperWork {
                state: 3,
                started: true,
                completed: true,
                ret: final(self).work.ret,
                ..old(self).work
            }) && call.ensures((old(self).work.fn_ptr, old(self).work.arg), final(self).work.ret),
    {
        if self.work.get_state() != StopperState::Preparing {
            return;
        }
        self.work.set_state(StopperState::Running);
        self.work.started = true;
        let func_ptr = self.work.fn_ptr;
        let arg_ptr = self.work.arg;
        if func_ptr == 0 {
            self.work.set_state(StopperState::Aborted);
            return;
        }
        let ret = call(func_ptr, arg_ptr);
        self.work.ret = ret;
        self.work.completed = true;
        self.work.set_state(StopperState::Done);
    }

    /// Collect the result of a finished job and free the slot. Waiting on a job that
    /// has not finished does not return, so the job must be done or aborted.
    pub fn wait_for_completion(&mut self) -> (r: u32)
        requires
            stopper_state_of(old(self).work.state) == StopperState::Done || stopper_state_of(old(self).work.state)
                == StopperState::Aborted,
        ensures
            r == old(self).work.ret,
            final(self).work == (StopperWork { state: 0, fn_ptr: 0, arg: 0, ..old(self).work }),
            final(self).cpu == old(self).cpu && final(self).nr_stops == old(self).nr_stops,
            final(self).enabled == old(self).enabled && final(self).stopper_task == old(self).stopper_task,
    {
        let ret = self.work.ret;
        self.work.set_state(StopperState::Idle);
        self.work.fn_ptr = 0;
        self.work.arg = 0;
        ret
    }
}

/// The stoppers of all CPUs.
pub struct StopperRegistry {
    pub stoppers: Vec<CpuStopper>,
}

impl StopperRegistry {
    /// One stopper per CPU.
    pub open spec fn wf(&self) -> bool {
        self.stoppers@.len() == MAX_CPUS
    }

    /// A disabled, idle stopper for every CPU.
    pub fn empty() -> (r: Self)
        ensures
            r.wf(),
            forall|c: int|
                0 <= c < MAX_CPUS ==> #[trigger] r.stoppers@[c].cpu == CPU_NONE && !r.stoppers@[c].enabled
                    && r.stoppers@[c].work.state == 0 && r.stoppers@[c].nr_stops == 0,
    {
        let mut stoppers: Vec<CpuStopper> = Vec::new();
        let mut i: usize = 0;
        while i < MAX_CPUS
            invariant
                i <= MAX_CPUS,
                stoppers.len() == i,
                forall|c: int|
                    0 <= c < i ==> #[trigger] stoppers@[c].cpu == CPU_NONE && !stoppers@[c].enabled
                        && stoppers@[c].work.state == 0 && stoppers@[c].nr_stops == 0,
            decreases MAX_CPUS - i,
        {
            stoppers.push(CpuStopper::empty());
            i = i + 1;
        }
        StopperRegistry { stoppers }
    }

    /// Bind and enable the stopper of `cpu` (ignored when out of range).
    pub fn init_cpu(&mut self, cpu: u32)
        requires
            old(self).wf(),
        ensures
            final(self).wf(),
            forall|c: int|
                0 <= c < MAX_CPUS && c != cpu ==> #[trigger] final(self).stoppers@[c] == old(self).stoppers@[c],
            cpu < MAX_CPUS ==> {
                let s = final(self).stoppers@[cpu as int];
                let o = old(self).stoppers@[cpu as int];
                &&& s.cpu == cpu
                &&& s.enabled
                &&& s.work == o.work
                &&& s.nr_stops == o.nr_stops
                &&& s.stopper_task == o.stopper_task
            },
    {
        if (cpu as usize) < MAX_CPUS {
            let ghost before = self.stoppers@;
            let mut s = self.stoppers.remove(cpu as usize);
            s.init(cpu);
            self.stoppers.insert(cpu as usize, s);
            assert forall|c: int| 0 <= c < MAX_CPUS && c != cpu implies #[trigger] self.stoppers@[c] == before[c] by {
                if c < cpu {
                } else {
                }
            }
        }
    }

    /// The stopper of `cpu`, when it is in range.
    pub fn get(&self, cpu: u32) -> (r: Option<&CpuStopper>)
        requires
            self.wf(),
        ensures
            match r {
                None => cpu >= MAX_CPUS,
                Some(s) => cpu < MAX_CPUS && *s == self.stoppers@[cpu as int],
            },
    {
        if (cpu as usize) < MAX_CPUS {
            Some(&self.stoppers[cpu as usize])
        } else {
            None
        }
    }
}


/// A job queued on an idle slot, run to completion with result `ret`, and collected,
/// gives back `ret` and leaves the slot idle again.
pub proof fn law_stopper_roundtrip(w0: StopperWork, func: usize, arg: usize, ret: u32)
    requires
        stopper_state_of(w0.state) == StopperState::Idle,
        func != 0,
    ensures
        ({
            let w1 = queued_work(w0, func, arg);
            let w2 = StopperWork { state: 3, started: true, completed: true, ret, ..w1 };
            let w3 = StopperWork { state: 0, fn_ptr: 0, arg: 0, ..w2 };
            &&& stopper_state_of(w1.state) == StopperState::Preparing
            &&& w1.fn_ptr == func && w1.arg == arg
            &&& stopper_state_of(w2.state) == StopperState::Done
            &&& w3.ret == ret
            &&& stopper_state_of(w3.state) == StopperState::Idle
        }),
{
}


/// Bind and enable the stopper of every CPU in `online`.
pub fn stopper_init(reg: &mut StopperRegistry, online: &CpuMask)
    requires
        old(reg).wf(),
        online.wf(),
    ensures
        final(reg).wf(),
        forall|c: int|
            #![trigger final(reg).stoppers@[c]]
            0 <= c < MAX_CPUS ==> if online@.contains(c) {
                final(reg).stoppers@[c].cpu == c && final(reg).stoppers@[c].enabled
                    && final(reg).stoppers@[c].work == old(reg).stoppers@[c].work
            } else {
                final(reg).stoppers@[c] == old(reg).stoppers@[c]
            },
{
    let mut cpu: u32 = 0;
    while cpu < 1024
        invariant
            reg.wf(),
            online.wf(),
            cpu <= MAX_CPUS,
            forall|c: int|
                #![trigger reg.stoppers@[c]]
                0 <= c < MAX_CPUS ==> if online@.contains(c) && c < cpu {
                    reg.stoppers@[c].cpu == c && reg.stoppers@[c].enabled
                        && reg.stoppers@[c].work == old(reg).stoppers@[c].work
                } else {
                    reg.stoppers@[c] == old(reg).stoppers@[c]
                },
        decreases MAX_CPUS - cpu,
    {
        if online.test(cpu) {
            reg.init_cpu(cpu);
        }
        cpu = cpu + 1;
    }
}

/// Queue `func` on `arg` for `cpu`'s stopper. Error 1: no such CPU; error 2: its
/// stopper is busy. Once queued, the caller interrupts the CPU and collects the
/// result with `wait_for_completion`.
pub fn stop_one_cpu(reg: &mut StopperRegistry, cpu: u32, func: usize, arg: usize) -> (r: Result<(), u32>)
    requires
        old(reg).wf(),
    ensures
        final(reg).wf(),
        cpu >= MAX_CPUS ==> r == Err::<(), u32>(1) && *final(reg) == *old(reg),
        cpu < MAX_CPUS ==> {
            let o = old(reg).stoppers@[cpu as int];
            let n = final(reg).stoppers@[cpu as int];
            &&& (r is Ok) == (stopper_state_of(o.work.state) == StopperState::Idle)
            &&& r is Err ==> r == Err::<(), u32>(2) && final(reg).stoppers@ == old(reg).stoppers@
            &&& r is Ok ==> n.work == queued_work(o.work, func, arg) && n.nr_stops
                == vstd::wrapping::u32_specs::wrapping_add(o.nr_stops, 1) && n.cpu == o.cpu && n.enabled == o.enabled
            &&& forall|c: int| 0 <= c < MAX_CPUS && c != cpu ==> #[trigger] final(reg).stoppers@[c] == old(reg).stoppers@[c]
        },
{
    if (cpu as usize) >= MAX_CPUS {
        return Err(1);
    }
    let ghost before = reg.stoppers@;
    let mut s = reg.stoppers.remove(cpu as usize);
    let queued = s.queue_work(func, arg);
    reg.stoppers.insert(cpu as usize, s);
    assert(reg.stoppers@ =~= before.update(cpu as int, s));
    if !queued {
        assert(reg.stoppers@ =~= before);
        return Err(2);
    }
    Ok(())
}

/// The slot after a job of `func` on `arg` is queued for a pair of CPUs: only the
/// function, its argument and the stage change.
pub open spec fn paired_work(w: StopperWork, func: usize, arg: usize) -> StopperWork {
    StopperWork { state: 1, fn_ptr: func, arg, ..w }
}

/// What a stop of CPUs queued: one CPU, or two in increasing order.
#[derive(Debug, Clone, Copy, PartialEq, Eq, Structural)]
pub enum StopPlan {
    One(u32),
    Two(u32, u32),
}

/// Queue `func` on `arg` for both CPUs (one when they are the same), lower number
/// first. Error 1: a CPU does not exist; error 2: a stopper is busy (nothing is
/// queued then).
pub fn stop_two_cpus(reg: &mut StopperRegistry, cpu1: u32, cpu2: u32, func: usize, arg: usize) -> (r: Result<StopPlan, u32>)
    requires
        old(reg).wf(),
    ensures
        final(reg).wf(),
        cpu1 == cpu2 ==> match r {
            Ok(p) => p == StopPlan::One(cpu1),
            Err(e) => e == 1 || e == 2,
        },
        cpu1 != cpu2 ==> {
            let lo = if cpu1 < cpu2 { cpu1 } else { cpu2 };
            let hi = if cpu1 < cpu2 { cpu2 } else { cpu1 };
            &&& hi >= MAX_CPUS ==> r == Err::<StopPlan, u32>(1) && *final(reg) == *old(reg)
            &&& hi < MAX_CPUS ==> {
                let lw = old(reg).stoppers@[lo as int].work;
                let hw = old(reg).stoppers@[hi as int].work;
                let idle = stopper_state_of(lw.state) == StopperState::Idle && stopper_state_of(hw.state)
                    == StopperState::Idle;
                &&& !idle ==> r == Err::<StopPlan, u32>(2) && *final(reg) == *old(reg)
                &&& idle ==> r == Ok::<StopPlan, u32>(StopPlan::Two(lo, hi)) && final(reg).stoppers@ == old(
                    reg,
                ).stoppers@.update(
                    lo as int,
                    CpuStopper { work: paired_work(lw, func, arg), ..old(reg).stoppers@[lo as int] },
                ).update(hi as int, CpuStopper { work: paired_work(hw, func, arg), ..old(reg).stoppers@[hi as int] })
            }
        },
{
    if cpu1 == cpu2 {
        return match stop_one_cpu(reg, cpu1, func, arg) {
            Ok(()) => Ok(StopPlan::One(cpu1)),
            Err(e) => Err(e),
        };
    }
    let target_cpu = if cpu1 < cpu2 { cpu1 } else { cpu2 };
    let other_cpu = if cpu1 < cpu2 { cpu2 } else { cpu1 };
    if (other_cpu as usize) >= MAX_CPUS {
        return Err(1);
    }
    let s1 = reg.stoppers[target_cpu as usize].work.get_state();
    let s2 = reg.stoppers[other_cpu as usize].work.get_state();
    if s1 != StopperState::Idle || s2 != StopperState::Idle {
        return Err(2);
    }
    let ghost before = reg.stoppers@;
    let mut a = reg.stoppers.remove(target_cpu as usize);
    a.work.fn_ptr = func;
    a.work.arg = arg;
    a.work.set_state(StopperState::Preparing);
    reg.stoppers.insert(target_cpu as usize, a);
    let ghost mid = reg.stoppers@;
    assert(mid =~= before.update(target_cpu as int, a));
    let mut b = reg.stoppers.remove(other_cpu as usize);
    b.work.fn_ptr = func;
    b.work.arg = arg;
    b.work.set_state(StopperState::Preparing);
    reg.stoppers.insert(other_cpu as usize, b);
    assert(reg.stoppers@ =~= mid.update(other_cpu as int, b));
    Ok(StopPlan::Two(target_cpu, other_cpu))
}

/// The result of a two-CPU stop: the first CPU's if it failed, else the second's.
pub fn combine_stop_results(ret1: u32, ret2: u32) -> (r: u32)
    ensures
        r == if ret1 != 0 {
            ret1
        } else {
            ret2
        },
{
    if ret1 != 0 {
        ret1
    } else {
        ret2
    }
}

/// Interrupt handler of `cpu`'s stopper: run its queued job, if any, through `call`.
pub fn cpu_stopper_irq_handler<F: Fn(usize, usize) -> u32>(reg: &mut StopperRegistry, cpu: u32, call: F)
    requires
        old(reg).wf(),
        forall|f: usize, a: usize| call.requires((f, a)),
    ensures
        final(reg).wf(),
        forall|c: int| 0 <= c < MAX_CPUS && c != cpu ==> #[trigger] final(reg).stoppers@[c] == old(reg).stoppers@[c],
        cpu >= MAX_CPUS ==> *final(reg) == *old(reg),
        cpu < MAX_CPUS && stopper_state_of(old(reg).stoppers@[cpu as int].work.state) != StopperState::Preparing
            ==> final(reg).stoppers@[cpu as int] == old(reg).stoppers@[cpu as int],
        cpu < MAX_CPUS && stopper_state_of(old(reg).stoppers@[cpu as int].work.state) == StopperState::Preparing
            ==> {
            let o = old(reg).stoppers@[cpu as int];
            let n = final(reg).stoppers@[cpu as int];
            &&& o.work.fn_ptr == 0 ==> n.work == (StopperWork { state: 4, started: true, ..o.work })
            &&& o.work.fn_ptr != 0 ==> n.work == (StopperWork {
                state: 3,
                started: true,
                completed: true,
                ret: n.work.ret,
                ..o.work
            }) && call.ensures((o.work.fn_ptr, o.work.arg), n.work.ret)
        },
{
    if (cpu as usize) >= MAX_CPUS {
        return;
    }
    if reg.stoppers[cpu as usize].work.get_state() != StopperState::Preparing {
        return;
    }
    let ghost before = reg.stoppers@;
    let mut s = reg.stoppers.remove(cpu as usize);
    s.execute_work(call);
    reg.stoppers.insert(cpu as usize, s);
    assert(reg.stoppers@ =~= before.update(cpu as int, s));
}

} // verus!
