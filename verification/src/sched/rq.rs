//! Per-CPU run-queue heads of the scheduler core: the fair and deadline trees (their
//! root and leftmost task), the real-time priority array, the stop slot, and the
//! queue that holds them. Tasks are named by their addresses, 0 standing for none.
use vstd::prelude::*;
use crate::scheduler::task::SpinLock;
use crate::scheduler::words::{word_bit, next_set_from, update_bit};

verus! {

/// Real-time priorities.
pub const MAX_RT_PRIO: i32 = 100;

/// Words of a priority bitmap.
pub const RT_BITMAP_WORDS: usize = 2;

/// Fixed-point scale of deadline bandwidth.
pub const DL_BW_SCALE: u64 = 0x10_0000;

/// Balancing period of a run queue.
pub const BALANCE_INTERVAL_NS: u64 = 4_000_000;

/// A list link: the next and previous entries (0 for none).
#[derive(Debug, Clone, Copy, PartialEq, Eq, Structural)]
pub struct ListHead {
    pub next: usize,
    pub prev: usize,
}

/// Real-time tasks by priority, with a bitmap of the non-empty priorities.
pub struct RtArray {
    pub queue: Vec<ListHead>,
    pub bitmap: Vec<u64>,
    pub nr_running: usize,
}

impl RtArray {
    /// One list per priority, two bitmap words.
    pub open spec fn wf(&self) -> bool {
        &&& self.queue@.len() == MAX_RT_PRIO
        &&& self.bitmap@.len() == RT_BITMAP_WORDS
    }

    /// The priorities marked non-empty.
    pub open spec fn marked(&self) -> Set<int> {
        Set::new(|p: int| word_bit(self.bitmap@, p))
    }

    /// No task, no mark.
    pub fn new() -> (r: Self)
        ensures
            r.wf(),
            r.nr_running == 0,
            r.marked() == Set::<int>::empty(),
            forall|p: int| 0 <= p < MAX_RT_PRIO ==> r.queue@[p] == (ListHead { next: 0, prev: 0 }),
    {
        let mut queue: Vec<ListHead> = Vec::new();
        let mut i: usize = 0;
        while i < 100
            invariant
                i <= MAX_RT_PRIO,
                queue.len() == i,
                forall|p: int| 0 <= p < i ==> queue@[p] == (ListHead { next: 0, prev: 0 }),
            decreases 100 - i,
        {
            queue.push(ListHead { next: 0, prev: 0 });
            i = i + 1;
        }
        let r = RtArray { queue, bitmap: vec![0u64, 0u64], nr_running: 0 };
        assert forall|p: int| !#[trigger] word_bit(r.bitmap@, p) by {
            if 0 <= p < 128 {
                crate::bits::lemma64_test(0u64, (p % 64) as u64);
                assert(0u64 & (1u64 << ((p % 64) as u64)) == 0) by (bit_vector);
            }
        }
        assert(r.marked() =~= Set::<int>::empty());
        r
    }

    /// Mark priority `prio` non-empty.
    pub fn set_bit(&mut self, prio: usize)
        requires
            old(self).wf(),
            prio < 128,
        ensures
            final(self).wf(),
            final(self).marked() == old(self).marked().insert(prio as int),
            final(self).queue == old(self).queue,
            final(self).nr_running == old(self).nr_running,
    {
        update_bit(&mut self.bitmap, prio, 0);
        assert(self.marked() =~= old(self).marked().insert(prio as int));
    }

    /// Mark priority `prio` empty.
    pub fn clear_bit(&mut self, prio: usize)
        requires
            old(self).wf(),
            prio < 128,
        ensures
            final(self).wf(),
            final(self).marked() == old(self).marked().remove(prio as int),
            final(self).queue == old(self).queue,
            final(self).nr_running == old(self).nr_running,
    {
        update_bit(&mut self.bitmap, prio, 1);
        assert(self.marked() =~= old(self).marked().remove(prio as int));
    }

    /// The best (lowest) marked priority.
    pub fn highest_prio(&self) -> (r: Option<usize>)
        requires
            self.wf(),
        ensures
            match r {
                Some(p) => self.marked().contains(p as int) && forall|q: int| 0 <= q < p ==> !self.marked().contains(q),
                None => self.marked() == Set::<int>::empty(),
            },
    {
        let r = next_set_from(&self.bitmap, 0);
        if r.is_none() {
            assert(self.marked() =~= Set::<int>::empty());
        }
        r
    }
}

/// The fair tree: root and leftmost task, count, weight and minimum virtual time.
pub struct RqFair {
    pub root: usize,
    pub leftmost: usize,
    pub nr_running: u32,
    pub load_weight: u64,
    pub min_vruntime: u64,
}

impl Default for RqFair {
    fn default() -> (r: Self)
        ensures
            r.root == 0 && r.leftmost == 0 && r.nr_running == 0 && r.load_weight == 0 && r.min_vruntime == 0,
    {
        RqFair { root: 0, leftmost: 0, nr_running: 0, load_weight: 0, min_vruntime: 0 }
    }
}

impl RqFair {
    /// The tree is empty.
    pub fn is_empty(&self) -> (r: bool)
        ensures
            r == (self.root == 0),
    {
        self.root == 0
    }

    /// The task with the least virtual time.
    pub fn leftmost(&self) -> (r: usize)
        ensures
            r == self.leftmost,
    {
        self.leftmost
    }

    /// The task to run next from this class.
    pub fn pick_first(&self) -> (r: usize)
        ensures
            r == self.leftmost,
    {
        self.leftmost
    }
}

/// The deadline tree, with the bandwidth in use and the most allowed.
pub struct RqDl {
    pub root: usize,
    pub leftmost: usize,
    pub dl_nr_running: u32,
    pub running_bw: u64,
    pub max_bw: u64,
}

/// Bandwidth of `runtime` in every `period`, scaled by `DL_BW_SCALE` (the product
/// saturating).
pub open spec fn bw_of(runtime: u64, period: u64) -> u64 {
    let scaled = if runtime * DL_BW_SCALE > u64::MAX { u64::MAX as int } else { runtime * DL_BW_SCALE };
    (scaled / period as int) as u64
}

impl Default for RqDl {
    fn default() -> (r: Self)
        ensures
            r.root == 0 && r.leftmost == 0 && r.dl_nr_running == 0 && r.running_bw == 0,
            r.max_bw == DL_BW_SCALE * 95 / 100,
    {
        RqDl { root: 0, leftmost: 0, dl_nr_running: 0, running_bw: 0, max_bw: (DL_BW_SCALE * 95) / 100 }
    }
}

impl RqDl {
    /// The tree is empty.
    pub fn is_empty(&self) -> (r: bool)
        ensures
            r == (self.root == 0),
    {
        self.root == 0
    }

    /// The task with the earliest deadline.
    pub fn leftmost(&self) -> (r: usize)
        ensures
            r == self.leftmost,
    {
        self.leftmost
    }

    /// The task to run next from this class.
    pub fn pick_first(&self) -> (r: usize)
        ensures
            r == self.leftmost,
    {
        self.leftmost
    }

    /// A reservation of `dl_runtime` per `dl_period` fits in the remaining bandwidth.
    pub fn admission_control(&self, dl_runtime: u64, dl_period: u64) -> (r: bool)
        ensures
            r == (dl_period != 0 && self.running_bw.saturating_add(bw_of(dl_runtime, dl_period)) <= self.max_bw),
    {
        if dl_period == 0 {
            return false;
        }
        let scaled: u64 = if dl_runtime > u64::MAX / DL_BW_SCALE { u64::MAX } else { dl_runtime * DL_BW_SCALE };
        let bw = scaled / dl_period;
        self.running_bw.saturating_add(bw) <= self.max_bw
    }
}

/// The real-time class: a list per priority, a bitmap of the non-empty ones, and the
/// best queued priority.
pub struct RqRt {
    pub active: Vec<ListHead>,
    pub bitmap: Vec<u64>,
    pub nr_running: u32,
    pub rt_nr_migratory: u32,
    pub overloaded: bool,
    pub highest_prio: i32,
}

impl RqRt {
    /// An empty class.
    pub fn new() -> (r: Self)
        ensures
            r.active@.len() == MAX_RT_PRIO,
            r.bitmap@ == seq![0u64, 0u64],
            r.nr_running == 0 && r.rt_nr_migratory == 0 && !r.overloaded,
            r.highest_prio == MAX_RT_PRIO,
    {
        let mut active: Vec<ListHead> = Vec::new();
        let mut i: usize = 0;
        while i < 100
            invariant
                i <= MAX_RT_PRIO,
                active.len() == i,
            decreases 100 - i,
        {
            active.push(ListHead { next: 0, prev: 0 });
            i = i + 1;
        }
        RqRt {
            active,
            bitmap: vec![0u64, 0u64],
            nr_running: 0,
            rt_nr_migratory: 0,
            overloaded: false,
            highest_prio: MAX_RT_PRIO,
        }
    }

    /// Nothing is queued.
    pub fn is_empty(&self) -> (r: bool)
        ensures
            r == (self.nr_running == 0),
    {
        self.nr_running == 0
    }

    /// The best queued priority (`MAX_RT_PRIO` when none).
    pub fn highest_priority(&self) -> (r: i32)
        ensures
            r == self.highest_prio,
    {
        self.highest_prio
    }
}

/// The stop class: at most one task.
pub struct RqStop {
    pub task: usize,
}

impl RqStop {
    /// No stop task.
    pub fn is_empty(&self) -> (r: bool)
        ensures
            r == (self.task == 0),
    {
        self.task == 0
    }

    /// The stop task (0 when none).
    pub fn pick_first(&self) -> (r: usize)
        ensures
            r == self.task,
    {
        self.task
    }
}

/// A CPU's run queue.
pub struct RunQueue {
    pub lock: SpinLock,
    pub cpu: u32,
    pub online: bool,
    pub clock: u64,
    pub clock_task: u64,
    pub fair: RqFair,
    pub rt: RqRt,
    pub dl: RqDl,
    pub stop: RqStop,
    pub curr: usize,
    pub idle: usize,
    pub nr_running: u32,
    pub nr_uninterruptible: u32,
    pub next_balance: u64,
    pub nr_switches: u64,
}

impl RunQueue {
    /// An online, empty queue of `cpu` running its idle task `idle_task`, which must
    /// exist.
    pub fn new(cpu: u32, idle_task: usize) -> (r: Self)
        requires
            idle_task != 0,
        ensures
            r.cpu == cpu && r.online && r.clock == 0 && r.clock_task == 0,
            r.curr == idle_task && r.idle == idle_task,
            r.fair.root == 0 && r.fair.leftmost == 0 && r.fair.nr_running == 0,
            r.dl.root == 0 && r.dl.leftmost == 0 && r.dl.running_bw == 0,
            r.rt.nr_running == 0 && r.stop.task == 0,
            r.nr_running == 0 && r.nr_uninterruptible == 0 && r.nr_switches == 0,
            r.next_balance == BALANCE_INTERVAL_NS,
            !r.lock.held(),
    {
        RunQueue {
            lock: SpinLock::new(),
            cpu,
            online: true,
            clock: 0,
            clock_task: 0,
            fair: RqFair::default(),
            rt: RqRt::new(),
            dl: RqDl::default(),
            stop: RqStop { task: 0 },
            curr: idle_task,
            idle: idle_task,
            nr_running: 0,
            nr_uninterruptible: 0,
            next_balance: BALANCE_INTERVAL_NS,
            nr_switches: 0,
        }
    }

    /// The running task.
    pub fn current(&self) -> (r: usize)
        ensures
            r == self.curr,
    {
        self.curr
    }

    /// Tasks queued.
    pub fn nr_running(&self) -> (r: u32)
        ensures
            r == self.nr_running,
    {
        self.nr_running
    }

    /// The idle task is running.
    pub fn is_idle(&self) -> (r: bool)
        ensures
            r == (self.curr == self.idle),
    {
        self.curr == self.idle
    }

    /// Root of the fair tree.
    pub fn fair_root_for_test(&self) -> (r: usize)
        ensures
            r == self.fair.root,
    {
        self.fair.root
    }
}

/// Saved stack pointer of a thread.
#[derive(Debug, Clone, Copy, PartialEq, Eq, Structural)]
pub struct Context {
    pub rsp: u64,
}

/// The first stack frame of a new thread: word `k` of `words` goes at address
/// `top - 8 * k`, and `rsp` is the saved stack pointer that resumes it.
#[derive(Debug, Clone)]
pub struct InitialFrame {
    pub top: u64,
    pub words: Vec<u64>,
    pub rsp: u64,
}

/// The frame's top: the stack top rounded down to 16 bytes, less `gap` (saturating).
pub open spec fn frame_top(stack_top: u64, gap: u64) -> u64 {
    (stack_top & !15u64).saturating_sub(gap)
}

/// The x86-64 start frame of a thread that begins in `entry(argument)`: the entry
/// address on top, six zeroed callee-saved slots, the argument below them; the saved
/// stack pointer 48 bytes below the top.
pub fn bootstrap_frame(stack_top: u64, entry: u64, argument: u64) -> (f: InitialFrame)
    ensures
        f.top == frame_top(stack_top, 8),
        f.words@ == seq![entry, 0u64, 0u64, 0u64, 0u64, 0u64, 0u64, argument],
        f.rsp == frame_top(stack_top, 8).saturating_sub(48),
{
    let top = (stack_top & !15u64).saturating_sub(8);
    let words: Vec<u64> = vec![entry, 0, 0, 0, 0, 0, 0, argument];
    InitialFrame { top, words, rsp: top.saturating_sub(48) }
}

/// The RISC-V start frame: the entry address (return address) on top, the argument
/// below it, then thirteen zeroed slots; the saved stack pointer 128 bytes below a top
/// 16 bytes under the aligned stack top.
pub fn bootstrap_frame_riscv(stack_top: u64, entry: u64, argument: u64) -> (f: InitialFrame)
    ensures
        f.top == frame_top(stack_top, 16),
        f.words@.len() == 15,
        f.words@[0] == entry,
        f.words@[1] == argument,
        forall|k: int| 2 <= k < 15 ==> f.words@[k] == 0,
        f.rsp == frame_top(stack_top, 16).saturating_sub(128),
{
    let top = (stack_top & !15u64).saturating_sub(16);
    let mut words: Vec<u64> = vec![entry, argument];
    let mut i: usize = 2;
    while i < 15
        invariant
            2 <= i <= 15,
            words@.len() == i,
            words@[0] == entry,
            words@[1] == argument,
            forall|k: int| 2 <= k < i ==> words@[k] == 0,
        decreases 15 - i,
    {
        words.push(0);
        i = i + 1;
    }
    InitialFrame { top, words, rsp: top.saturating_sub(128) }
}

impl Context {
    /// No saved state.
    pub fn empty() -> (r: Self)
        ensures
            r.rsp == 0,
    {
        Context { rsp: 0 }
    }

    /// The saved context of a new thread that starts in `entry(argument)`; the caller
    /// writes `bootstrap_frame`'s words to the stack.
    pub fn bootstrap(stack_top: u64, entry: u64, argument: u64) -> (r: Self)
        ensures
            r.rsp == frame_top(stack_top, 8).saturating_sub(48),
    {
        let f = bootstrap_frame(stack_top, entry, argument);
        Context { rsp: f.rsp }
    }
}

} // verus!
