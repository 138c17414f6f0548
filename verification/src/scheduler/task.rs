//! Task descriptors: life-cycle states, scheduling policies and classes, load
//! tracking, and the per-class queue heads of a run queue. Task links are task
//! addresses held as integers, 0 standing for none.
use vstd::prelude::*;
use super::cpumask::{CpuMask, WORDS};
use super::words::{word_bit, next_set_from, update_bit};

verus! {

/// Identifier of a task.
pub type TaskId = u64;

/// Size of a kernel stack.
pub const KERNEL_STACK_SIZE: usize = 16384;

/// Number of real-time priorities.
pub const MAX_RT_PRIO: i32 = 100;

/// Weight of a task at nice 0.
pub const NICE_0_LOAD: u64 = 1024;

/// CPU number of a task that has run nowhere yet.
pub const CPU_NONE: u32 = 0xffff_ffff;

/// Red node colour.
pub const RB_RED: usize = 0;

/// Black node colour.
pub const RB_BLACK: usize = 1;

/// Flag bit of a task that must be rescheduled.
pub const NEED_RESCHED: u32 = 0x2_0000;

/// The parent address packed in a parent-and-colour word.
pub fn rb_parent(pc: usize) -> (r: usize)
    ensures
        r == pc & !1usize,
{
    pc & !1usize
}

/// The colour packed in a parent-and-colour word.
pub fn rb_color(pc: usize) -> (r: usize)
    ensures
        r == pc & 1usize,
        r <= 1,
{
    proof {
        lemma_and_one(pc);
    }
    pc & 1usize
}

/// Pack a parent address (its lowest bit dropped) and a colour (its lowest bit).
pub fn rb_make_parent_color(p: usize, c: usize) -> (r: usize)
    ensures
        r == (p & !1usize) | (c & 1usize),
        rb_parent_spec(r) == p & !1usize,
        rb_color_spec(r) == c & 1usize,
{
    proof {
        lemma_pack(p, c);
    }
    (p & !1usize) | (c & 1usize)
}

/// The parent address of a packed word.
pub open spec fn rb_parent_spec(pc: usize) -> usize {
    pc & !1usize
}

/// The colour of a packed word.
pub open spec fn rb_color_spec(pc: usize) -> usize {
    pc & 1usize
}

proof fn lemma_and_one(x: usize)
    by (bit_vector)
    ensures
        x & 1usize <= 1,
{
}

proof fn lemma_pack(p: usize, c: usize)
    by (bit_vector)
    ensures
        ((p & !1usize) | (c & 1usize)) & !1usize == p & !1usize,
        ((p & !1usize) | (c & 1usize)) & 1usize == c & 1usize,
{
}

/// Life-cycle state of a task.
#[derive(Debug, Clone, Copy, PartialEq, Eq, Structural)]
pub enum TaskState {
    Runnable,
    Interruptible,
    Uninterruptible,
    Stopped,
    Zombie,
    Dead,
    Idle,
}

/// The byte that stores a state.
pub open spec fn state_code(s: TaskState) -> u8 {
    match s {
        TaskState::Runnable => 0,
        TaskState::Interruptible => 1,
        TaskState::Uninterruptible => 2,
        TaskState::Stopped => 3,
        TaskState::Zombie => 5,
        TaskState::Dead => 6,
        TaskState::Idle => 7,
    }
}

/// The state a stored byte stands for; an unknown byte reads as `Dead`.
pub open spec fn state_of_code(v: u8) -> TaskState {
    if v == 0 {
        TaskState::Runnable
    } else if v == 1 {
        TaskState::Interruptible
    } else if v == 2 {
        TaskState::Uninterruptible
    } else if v == 3 {
        TaskState::Stopped
    } else if v == 5 {
        TaskState::Zombie
    } else if v == 7 {
        TaskState::Idle
    } else {
        TaskState::Dead
    }
}

/// The moves the task life cycle allows: staying put, and
/// runnable to sleeping, stopped or zombie and back, zombie to dead.
pub open spec fn transition_allowed(from: TaskState, to: TaskState) -> bool {
    ||| from == to
    ||| (from == TaskState::Runnable && (to == TaskState::Interruptible || to == TaskState::Uninterruptible
        || to == TaskState::Stopped || to == TaskState::Zombie))
    ||| ((from == TaskState::Interruptible || from == TaskState::Uninterruptible || from == TaskState::Stopped)
        && to == TaskState::Runnable)
    ||| (from == TaskState::Zombie && to == TaskState::Dead)
}

impl TaskState {
    /// The task can be picked to run.
    pub fn is_runnable(self) -> (r: bool)
        ensures
            r == (self == TaskState::Runnable || self == TaskState::Idle),
    {
        match self {
            TaskState::Runnable | TaskState::Idle => true,
            _ => false,
        }
    }

    /// The task has exited.
    pub fn is_terminal(self) -> (r: bool)
        ensures
            r == (self == TaskState::Zombie || self == TaskState::Dead),
    {
        match self {
            TaskState::Zombie | TaskState::Dead => true,
            _ => false,
        }
    }

    /// The life cycle allows a move from this state to `next`.
    pub fn can_transition_to(self, next: Self) -> (r: bool)
        ensures
            r == transition_allowed(self, next),
    {
        match (self, next) {
            (TaskState::Runnable, TaskState::Interruptible) => true,
            (TaskState::Runnable, TaskState::Uninterruptible) => true,
            (TaskState::Runnable, TaskState::Stopped) => true,
            (TaskState::Runnable, TaskState::Zombie) => true,
            (TaskState::Interruptible, TaskState::Runnable) => true,
            (TaskState::Uninterruptible, TaskState::Runnable) => true,
            (TaskState::Stopped, TaskState::Runnable) => true,
            (TaskState::Zombie, TaskState::Dead) => true,
            (s, n) => s == n,
        }
    }

    /// The stored byte of this state.
    pub fn to_u8(self) -> (r: u8)
        ensures
            r == state_code(self),
    {
        match self {
            TaskState::Runnable => 0,
            TaskState::Interruptible => 1,
            TaskState::Uninterruptible => 2,
            TaskState::Stopped => 3,
            TaskState::Zombie => 5,
            TaskState::Dead => 6,
            TaskState::Idle => 7,
        }
    }

    /// The state of a stored byte.
    pub fn from_u8(v: u8) -> (r: Self)
        ensures
            r == state_of_code(v),
    {
        match v {
            0 => TaskState::Runnable,
            1 => TaskState::Interruptible,
            2 => TaskState::Uninterruptible,
            3 => TaskState::Stopped,
            5 => TaskState::Zombie,
            7 => TaskState::Idle,
            _ => TaskState::Dead,
        }
    }
}

/// A state read back from its stored byte is the same state.
pub proof fn law_state_code_roundtrip(s: TaskState)
    ensures
        state_of_code(state_code(s)) == s,
{
}

/// An exited task stays exited: the only moves out of zombie or dead lead to zombie
/// or dead.
pub proof fn law_terminal_states_absorb(from: TaskState, to: TaskState)
    requires
        from == TaskState::Zombie || from == TaskState::Dead,
        transition_allowed(from, to),
    ensures
        to == TaskState::Zombie || to == TaskState::Dead,
{
}

/// Policy a task asks to be scheduled under.
#[derive(Debug, Clone, Copy, PartialEq, Eq, Structural)]
pub enum SchedPolicy {
    Normal,
    Batch,
    Idle,
    Fifo,
    RoundRobin,
    Deadline,
    Stop,
}

/// Scheduling class, ordered from lowest to highest precedence.
#[derive(Debug, Clone, Copy, PartialEq, Eq, Structural)]
pub enum SchedClass {
    Idle,
    Fair,
    RealTime,
    Deadline,
    Stop,
}

/// Precedence of a class: `Idle` 0 up to `Stop` 4.
pub open spec fn class_rank(c: SchedClass) -> int {
    match c {
        SchedClass::Idle => 0,
        SchedClass::Fair => 1,
        SchedClass::RealTime => 2,
        SchedClass::Deadline => 3,
        SchedClass::Stop => 4,
    }
}

/// The class that serves a policy.
pub open spec fn class_of_policy(p: SchedPolicy) -> SchedClass {
    match p {
        SchedPolicy::Idle => SchedClass::Idle,
        SchedPolicy::Normal | SchedPolicy::Batch => SchedClass::Fair,
        SchedPolicy::Fifo | SchedPolicy::RoundRobin => SchedClass::RealTime,
        SchedPolicy::Deadline => SchedClass::Deadline,
        SchedPolicy::Stop => SchedClass::Stop,
    }
}

impl SchedClass {
    /// Precedence of the class.
    pub fn rank(self) -> (r: u8)
        ensures
            r == class_rank(self),
    {
        match self {
            SchedClass::Idle => 0,
            SchedClass::Fair => 1,
            SchedClass::RealTime => 2,
            SchedClass::Deadline => 3,
            SchedClass::Stop => 4,
        }
    }

    /// This class takes precedence over `other`.
    pub fn is_above(self, other: Self) -> (r: bool)
        ensures
            r == (class_rank(self) > class_rank(other)),
    {
        self.rank() > other.rank()
    }
}

impl From<SchedPolicy> for SchedClass {
    fn from(p: SchedPolicy) -> (r: Self) {
        match p {
            SchedPolicy::Idle => SchedClass::Idle,
            SchedPolicy::Normal | SchedPolicy::Batch => SchedClass::Fair,
            SchedPolicy::Fifo | SchedPolicy::RoundRobin => SchedClass::RealTime,
            SchedPolicy::Deadline => SchedClass::Deadline,
            SchedPolicy::Stop => SchedClass::Stop,
        }
    }
}

impl vstd::std_specs::convert::FromSpecImpl<SchedPolicy> for SchedClass {
    open spec fn obeys_from_spec() -> bool {
        true
    }

    open spec fn from_spec(p: SchedPolicy) -> SchedClass {
        class_of_policy(p)
    }
}

/// Decay of an average: one part in 1024 is dropped per update.
pub open spec fn decayed(avg: u32) -> u32 {
    avg.saturating_sub(avg >> 10)
}

/// Load added for `delta_ns` of running at `weight`: the share of a second, capped at
/// one second, times the weight, kept to its low 32 bits.
pub open spec fn load_gain(delta_ns: u64, weight: u64) -> u32 {
    ((if delta_ns < 1_000_000_000 { delta_ns as int } else { 1_000_000_000int }) * weight / 1_000_000_000int) as u32
}

/// Tracked load and utilisation of a task.
#[derive(Debug, Clone, Copy)]
pub struct LoadAvg {
    pub last_update: u64,
    pub load_sum: u64,
    pub load_avg: u32,
    pub util_sum: u64,
    pub util_avg: u32,
}

impl Default for LoadAvg {
    fn default() -> (r: Self)
        ensures
            r == (LoadAvg { last_update: 0, load_sum: 0, load_avg: 0, util_sum: 0, util_avg: 0 }),
    {
        LoadAvg { last_update: 0, load_sum: 0, load_avg: 0, util_sum: 0, util_avg: 0 }
    }
}

/// Load tracking after accounting `delta_ns` at `weight` ending at `now`.
pub open spec fn accumulated(l: LoadAvg, now: u64, delta_ns: u64, weight: u64, running: bool) -> LoadAvg {
    if delta_ns == 0 {
        LoadAvg { last_update: now, ..l }
    } else {
        LoadAvg {
            last_update: now,
            load_avg: decayed(l.load_avg).saturating_add(load_gain(delta_ns, weight)),
            load_sum: l.load_sum.saturating_add(delta_ns),
            util_avg: if running {
                decayed(l.util_avg).saturating_add((delta_ns / 1_000_000) as u32)
            } else {
                l.util_avg
            },
            util_sum: if running {
                l.util_sum.saturating_add(delta_ns)
            } else {
                l.util_sum
            },
        }
    }
}

impl LoadAvg {
    /// Account `delta_ns` at `weight` ending at `now`; utilisation only grows while
    /// `running`. A zero delta only moves the update time.
    pub fn accumulate(&mut self, now: u64, delta_ns: u64, weight: u64, running: bool)
        ensures
            *final(self) == accumulated(*old(self), now, delta_ns, weight, running),
            final(self).last_update == now,
            delta_ns == 0 ==> *final(self) == (LoadAvg { last_update: now, ..*old(self) }),
            delta_ns != 0 ==> {
                &&& final(self).load_avg == decayed(old(self).load_avg).saturating_add(
                    load_gain(delta_ns, weight),
                )
                &&& final(self).load_sum == old(self).load_sum.saturating_add(delta_ns)
                &&& final(self).util_avg == if running {
                    decayed(old(self).util_avg).saturating_add((delta_ns / 1_000_000) as u32)
                } else {
                    old(self).util_avg
                }
                &&& final(self).util_sum == if running {
                    old(self).util_sum.saturating_add(delta_ns)
                } else {
                    old(self).util_sum
                }
            },
    {
        if delta_ns == 0 {
            self.last_update = now;
            return;
        }
        let decay = self.load_avg >> 10;
        self.load_avg = self.load_avg.saturating_sub(decay);
        let capped: u64 = if delta_ns < 1_000_000_000 { delta_ns } else { 1_000_000_000 };
        proof {
            vstd::arithmetic::mul::lemma_mul_upper_bound(capped as int, 1_000_000_000, weight as int, 0xffff_ffff_ffff_ffff);
        }
        let product: u128 = (capped as u128) * (weight as u128);
        let gain = (product / 1_000_000_000) as u32;
        self.load_avg = self.load_avg.saturating_add(gain);
        self.load_sum = self.load_sum.saturating_add(delta_ns);
        if running {
            self.util_avg = self.util_avg.saturating_sub(self.util_avg >> 10);
            self.util_avg = self.util_avg.saturating_add((delta_ns / 1_000_000) as u32);
            self.util_sum = self.util_sum.saturating_add(delta_ns);
        }
        self.last_update = now;
    }
}

/// Fair-class part of a task: tree links, virtual run time, weight and load.
#[derive(Clone)]
pub struct SchedEntity {
    pub rb_left: usize,
    pub rb_right: usize,
    pub rb_parent_color: usize,
    pub vruntime: u64,
    pub sum_exec_runtime: u64,
    pub prev_sum_exec_runtime: u64,
    pub weight: u64,
    pub inv_weight: u32,
    pub load: LoadAvg,
    pub on_rq: bool,
    pub last_cpu: u32,
    pub cpus_allowed: CpuMask,
    pub nr_migrations: u32,
}

impl Default for SchedEntity {
    fn default() -> (r: Self)
        ensures
            r.rb_left == 0 && r.rb_right == 0 && r.rb_parent_color == RB_RED,
            r.vruntime == 0 && r.sum_exec_runtime == 0 && r.prev_sum_exec_runtime == 0,
            r.weight == NICE_0_LOAD && r.inv_weight == 4194304,
            r.load == (LoadAvg { last_update: 0, load_sum: 0, load_avg: 0, util_sum: 0, util_avg: 0 }),
            !r.on_rq && r.last_cpu == CPU_NONE && r.nr_migrations == 0,
            r.cpus_allowed.wf(),
            r.cpus_allowed@ == super::cpumask::all_cpus(),
    {
        SchedEntity {
            rb_left: 0,
            rb_right: 0,
            rb_parent_color: RB_RED,
            vruntime: 0,
            sum_exec_runtime: 0,
            prev_sum_exec_runtime: 0,
            weight: NICE_0_LOAD,
            inv_weight: 4194304,
            load: LoadAvg::default(),
            on_rq: false,
            last_cpu: CPU_NONE,
            cpus_allowed: CpuMask::full(),
            nr_migrations: 0,
        }
    }
}

/// Real-time part of a task: list links, time slice, queued priority.
#[derive(Debug, Clone, Copy)]
pub struct RtEntity {
    pub list_prev: usize,
    pub list_next: usize,
    pub time_slice: u32,
    pub queued_prio: u32,
}

impl Default for RtEntity {
    fn default() -> (r: Self)
        ensures
            r == (RtEntity { list_prev: 0, list_next: 0, time_slice: 100, queued_prio: 100 }),
    {
        RtEntity { list_prev: 0, list_next: 0, time_slice: 100, queued_prio: MAX_RT_PRIO as u32 }
    }
}

/// Deadline part of a task: tree links, reservation and current budget.
#[derive(Debug, Clone, Copy)]
pub struct DlEntity {
    pub rb_left: usize,
    pub rb_right: usize,
    pub rb_parent_color: usize,
    pub dl_runtime: u64,
    pub dl_deadline: u64,
    pub dl_period: u64,
    pub runtime: i64,
    pub deadline: u64,
    pub throttled: bool,
    pub replenish_at: u64,
}

impl Default for DlEntity {
    fn default() -> (r: Self)
        ensures
            r == (DlEntity {
                rb_left: 0,
                rb_right: 0,
                rb_parent_color: RB_RED,
                dl_runtime: 0,
                dl_deadline: 0,
                dl_period: 0,
                runtime: 0,
                deadline: 0,
                throttled: false,
                replenish_at: 0,
            }),
    {
        DlEntity {
            rb_left: 0,
            rb_right: 0,
            rb_parent_color: RB_RED,
            dl_runtime: 0,
            dl_deadline: 0,
            dl_period: 0,
            runtime: 0,
            deadline: 0,
            throttled: false,
            replenish_at: 0,
        }
    }
}

/// Time and switch counters of a task.
#[derive(Debug, Clone, Copy)]
pub struct TaskStats {
    pub utime: u64,
    pub stime: u64,
    pub nr_voluntary: u64,
    pub nr_involuntary: u64,
    pub nr_migrations: u64,
}

impl Default for TaskStats {
    fn default() -> (r: Self)
        ensures
            r == (TaskStats { utime: 0, stime: 0, nr_voluntary: 0, nr_involuntary: 0, nr_migrations: 0 }),
    {
        TaskStats { utime: 0, stime: 0, nr_voluntary: 0, nr_involuntary: 0, nr_migrations: 0 }
    }
}

/// Size of the saved floating-point area.
pub const FPU_AREA: usize = 512;

/// Registers saved across a context switch.
#[derive(Clone)]
pub struct CpuContext {
    pub rsp: u64,
    pub rip: u64,
    pub rflags: u64,
    pub rbx: u64,
    pub rbp: u64,
    pub r12: u64,
    pub r13: u64,
    pub r14: u64,
    pub r15: u64,
    pub fs_base: u64,
    pub gs_base: u64,
    pub fpu: Vec<u8>,
}

impl Default for CpuContext {
    fn default() -> (r: Self)
        ensures
            r.rsp == 0 && r.rip == 0 && r.rflags == 0x202,
            r.rbx == 0 && r.rbp == 0 && r.r12 == 0 && r.r13 == 0 && r.r14 == 0 && r.r15 == 0,
            r.fs_base == 0 && r.gs_base == 0,
            r.fpu@.len() == FPU_AREA,
            forall|i: int| 0 <= i < FPU_AREA ==> r.fpu@[i] == 0,
    {
        let mut fpu: Vec<u8> = Vec::new();
        let mut i: usize = 0;
        while i < FPU_AREA
            invariant
                i <= FPU_AREA,
                fpu.len() == i,
                forall|j: int| 0 <= j < i ==> fpu@[j] == 0,
            decreases FPU_AREA - i,
        {
            fpu.push(0);
            i = i + 1;
        }
        CpuContext {
            rsp: 0,
            rip: 0,
            rflags: 0x202,
            rbx: 0,
            rbp: 0,
            r12: 0,
            r13: 0,
            r14: 0,
            r15: 0,
            fs_base: 0,
            gs_base: 0,
            fpu,
        }
    }
}

/// A lock word. Callers hold it between `lock` and `unlock`; acquiring a lock that
/// is held does not return, so `lock` asks for a free one.
#[derive(Debug)]
pub struct SpinLock {
    locked: bool,
}

impl SpinLock {
    /// The lock is held.
    pub closed spec fn held(&self) -> bool {
        self.locked
    }

    /// A free lock.
    pub fn new() -> (r: Self)
        ensures
            !r.held(),
    {
        SpinLock { locked: false }
    }

    /// Take the lock.
    pub fn lock(&mut self)
        requires
            !old(self).held(),
        ensures
            final(self).held(),
    {
        self.locked = true;
    }

    /// Release the lock.
    pub fn unlock(&mut self)
        ensures
            !final(self).held(),
    {
        self.locked = false;
    }

    /// The lock is held.
    pub fn is_locked(&self) -> (r: bool)
        ensures
            r == self.held(),
    {
        self.locked
    }
}

/// A task.
pub struct TaskStruct {
    pub pid: TaskId,
    pub tgid: TaskId,
    pub state: u8,
    pub flags: u32,
    pub policy: SchedPolicy,
    pub sched_class: SchedClass,
    pub prio: i32,
    pub se: SchedEntity,
    pub rt: RtEntity,
    pub dl: DlEntity,
    pub on_cpu: bool,
    pub cpu: u32,
    pub rq: usize,
    pub stack_base: usize,
    pub stack_size: usize,
    pub context: CpuContext,
    pub preempt_count: i32,
    pub stats: TaskStats,
    pub parent: usize,
    pub children: usize,
    pub sibling: usize,
    pub comm: Vec<u8>,
    pub task_lock: SpinLock,
}

/// Bit 17 of the flags word.
proof fn lemma_resched_bits(f: u32)
    by (bit_vector)
    ensures
        (f | 0x2_0000u32) & 0x2_0000u32 != 0,
        (f & !0x2_0000u32) & 0x2_0000u32 == 0,
        (f | 0x2_0000u32) & !0x2_0000u32 == f & !0x2_0000u32,
        (f & !0x2_0000u32) & !0x2_0000u32 == f & !0x2_0000u32,
{
}

impl TaskStruct {
    /// The life-cycle state.
    pub fn state(&self) -> (r: TaskState)
        ensures
            r == state_of_code(self.state),
    {
        TaskState::from_u8(self.state)
    }

    /// Move to `new` when the life cycle allows it from the current state; report
    /// whether it did.
    pub fn set_state(&mut self, new: TaskState) -> (r: bool)
        ensures
            r == transition_allowed(state_of_code(old(self).state), new),
            *final(self) == (TaskStruct {
                state: if r {
                    state_code(new)
                } else {
                    old(self).state
                },
                ..*old(self)
            }),
    {
        let current = TaskState::from_u8(self.state);
        if !current.can_transition_to(new) {
            return false;
        }
        self.state = new.to_u8();
        true
    }

    /// Ask for a reschedule.
    pub fn set_need_resched(&mut self)
        ensures
            *final(self) == (TaskStruct { flags: old(self).flags | NEED_RESCHED, ..*old(self) }),
            final(self).flags & NEED_RESCHED != 0,
            final(self).flags & !NEED_RESCHED == old(self).flags & !NEED_RESCHED,
    {
        proof {
            lemma_resched_bits(self.flags);
        }
        self.flags = self.flags | NEED_RESCHED;
    }

    /// Withdraw a reschedule request.
    pub fn clear_need_resched(&mut self)
        ensures
            *final(self) == (TaskStruct { flags: old(self).flags & !NEED_RESCHED, ..*old(self) }),
            final(self).flags & NEED_RESCHED == 0,
    {
        proof {
            lemma_resched_bits(self.flags);
        }
        self.flags = self.flags & !NEED_RESCHED;
    }

    /// A reschedule was asked for.
    pub fn needs_resched(&self) -> (r: bool)
        ensures
            r == (self.flags & NEED_RESCHED != 0),
    {
        self.flags & NEED_RESCHED != 0
    }

    /// Address of the run queue the task is on (0 for none).
    pub fn rq_ptr(&self) -> (r: usize)
        ensures
            r == self.rq,
    {
        self.rq
    }

    /// Record the run queue the task is on.
    pub fn set_rq_ptr(&mut self, rq: usize)
        ensures
            *final(self) == (TaskStruct { rq, ..*old(self) }),
    {
        self.rq = rq;
    }
}

} // verus!
