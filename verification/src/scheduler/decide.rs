//! Decisions of the per-CPU scheduler, on plain values: how fair-class virtual time
//! advances, when a waking task preempts the running one, how deadline budgets are
//! charged and replenished, which class supplies the next task, where a waking task
//! is placed, and which run queue an idle CPU pulls from. The caller holds the
//! queues and tasks and applies the results.
use vstd::prelude::*;
use super::runqueue::{MIN_GRANULARITY_NS, TARGET_LATENCY_NS};
use super::task::{SchedClass, class_rank, CPU_NONE, NICE_0_LOAD};
use super::cpumask::{CpuMask, MAX_CPUS};

verus! {

/// Virtual time charged for `delta_exec` of running at `weight`: the run time itself
/// at nice 0, else scaled by the inverse weight (a 32-bit fixed-point fraction), kept
/// to 64 bits.
pub open spec fn vruntime_delta(delta_exec: u64, weight: u64, inv_weight: u32) -> u64 {
    if weight == NICE_0_LOAD {
        delta_exec
    } else {
        ((delta_exec * inv_weight) / 0x1_0000_0000int) as u64
    }
}

/// Virtual time charged for `delta_exec` at `weight`.
pub fn fair_vruntime_delta(delta_exec: u64, weight: u64, inv_weight: u32) -> (r: u64)
    ensures
        r == vruntime_delta(delta_exec, weight, inv_weight),
{
    if weight == NICE_0_LOAD {
        delta_exec
    } else {
        proof {
            vstd::arithmetic::mul::lemma_mul_upper_bound(delta_exec as int, u64::MAX as int, inv_weight as int, u32::MAX as int);
        }
        let prod: u128 = (delta_exec as u128) * (inv_weight as u128);
        proof {
            lemma_shr32(prod);
        }
        #[verifier::truncate]
        ((prod >> 32) as u64)
    }
}

proof fn lemma_shr32(p: u128)
    by (bit_vector)
    ensures
        p >> 32u128 == p / 0x1_0000_0000u128,
{
}

/// The queue's minimum virtual time after charging a task that reached `se_vruntime`,
/// with `leftmost_key` the key of the first queued task, if any: it rises to the
/// task's time, then is held down to the larger of the leftmost key and itself less
/// the target latency.
pub open spec fn next_min_vruntime(min_vruntime: u64, se_vruntime: u64, leftmost_key: Option<u64>) -> u64 {
    let raised = if min_vruntime > se_vruntime { min_vruntime } else { se_vruntime };
    match leftmost_key {
        None => raised,
        Some(k) => {
            let floor = raised.saturating_sub(TARGET_LATENCY_NS);
            let bound = if k > floor { k } else { floor };
            if raised < bound { raised } else { bound }
        },
    }
}

/// The queue's minimum virtual time after a charge.
pub fn fair_min_vruntime(min_vruntime: u64, se_vruntime: u64, leftmost_key: Option<u64>) -> (r: u64)
    ensures
        r == next_min_vruntime(min_vruntime, se_vruntime, leftmost_key),
{
    let raised = if min_vruntime > se_vruntime { min_vruntime } else { se_vruntime };
    match leftmost_key {
        None => raised,
        Some(k) => {
            let floor = raised.saturating_sub(TARGET_LATENCY_NS);
            let bound = if k > floor { k } else { floor };
            if raised < bound { raised } else { bound }
        },
    }
}

/// A waking fair task preempts the running one: it is behind in virtual time and
/// either the running task has had its minimum slice or the gap exceeds the target
/// latency.
pub open spec fn fair_preempts(curr_vruntime: u64, curr_sum: u64, curr_prev_sum: u64, cand_vruntime: u64) -> bool {
    cand_vruntime < curr_vruntime && {
        let vdiff = curr_vruntime - cand_vruntime;
        let ran_for = curr_sum.saturating_sub(curr_prev_sum);
        (vdiff > 0 && ran_for >= MIN_GRANULARITY_NS) || vdiff > TARGET_LATENCY_NS
    }
}

/// Whether the candidate preempts the running fair task.
pub fn should_preempt(curr_vruntime: u64, curr_sum: u64, curr_prev_sum: u64, cand_vruntime: u64) -> (r: bool)
    ensures
        r == fair_preempts(curr_vruntime, curr_sum, curr_prev_sum, cand_vruntime),
{
    if cand_vruntime >= curr_vruntime {
        return false;
    }
    let vdiff = curr_vruntime - cand_vruntime;
    let ran_for = curr_sum.saturating_sub(curr_prev_sum);
    vdiff > 0 && ran_for >= MIN_GRANULARITY_NS || vdiff > TARGET_LATENCY_NS
}

/// Bandwidth of a deadline reservation: run time shifted left by 20 bits (in 64
/// bits) over the period; none for a zero period.
pub open spec fn dl_bandwidth_spec(dl_runtime: u64, dl_period: u64) -> u64 {
    if dl_period == 0 {
        0
    } else {
        ((dl_runtime << 20u64) / dl_period) as u64
    }
}

/// Bandwidth of a deadline reservation.
pub fn dl_bandwidth(dl_runtime: u64, dl_period: u64) -> (r: u64)
    ensures
        r == dl_bandwidth_spec(dl_runtime, dl_period),
{
    if dl_period == 0 {
        return 0;
    }
    (dl_runtime << 20) / dl_period
}

/// Budget state of a deadline task.
#[derive(Debug, Clone, Copy, PartialEq, Eq, Structural)]
pub struct DlBudget {
    pub runtime: i64,
    pub deadline: u64,
    pub throttled: bool,
    pub replenish_at: u64,
}

/// Charge `delta_exec` to a deadline task at `now`: past its deadline it gets a new
/// deadline and a full budget; with its budget spent it is throttled until the
/// deadline.
pub open spec fn dl_charged(b: DlBudget, dl_runtime: u64, dl_deadline: u64, delta_exec: u64, now: u64) -> DlBudget {
    let runtime = b.runtime - (delta_exec as i64);
    if now >= b.deadline {
        DlBudget { runtime: dl_runtime as i64, deadline: now.saturating_add(dl_deadline), throttled: false, ..b }
    } else if runtime <= 0 {
        DlBudget { runtime: runtime as i64, throttled: true, replenish_at: b.deadline, ..b }
    } else {
        DlBudget { runtime: runtime as i64, ..b }
    }
}

/// Charge a deadline task.
pub fn dl_update_curr(b: DlBudget, dl_runtime: u64, dl_deadline: u64, delta_exec: u64, now: u64) -> (r: DlBudget)
    requires
        i64::MIN <= b.runtime - (delta_exec as i64) <= i64::MAX,
    ensures
        r == dl_charged(b, dl_runtime, dl_deadline, delta_exec, now),
{
    let charged: i64 = #[verifier::truncate] (delta_exec as i64);
    let runtime = b.runtime - charged;
    if now >= b.deadline {
        DlBudget { runtime: #[verifier::truncate] (dl_runtime as i64), deadline: now.saturating_add(dl_deadline), throttled: false, ..b }
    } else if runtime <= 0 {
        DlBudget { runtime, throttled: true, replenish_at: b.deadline, ..b }
    } else {
        DlBudget { runtime, ..b }
    }
}

/// Which class supplies the next task: deadline, then real-time, then fair, then the
/// idle task (given by each queue's emptiness and first task; 0 is no task).
pub fn pick_next_task(dl_empty: bool, dl_first: usize, rt_empty: bool, rt_first: usize, fair_empty: bool, fair_first: usize, idle: usize) -> (r: usize)
    ensures
        r == if !dl_empty {
            dl_first
        } else if !rt_empty {
            rt_first
        } else if !fair_empty {
            fair_first
        } else {
            idle
        },
{
    if !dl_empty {
        return dl_first;
    }
    if !rt_empty {
        return rt_first;
    }
    if !fair_empty {
        return fair_first;
    }
    idle
}

/// What decides preemption between the running task and a candidate.
#[derive(Debug, Clone, Copy, PartialEq, Eq, Structural)]
pub struct PreemptView {
    pub class: SchedClass,
    pub deadline: u64,
    pub prio: i32,
    pub vruntime: u64,
    pub sum_exec_runtime: u64,
    pub prev_sum_exec_runtime: u64,
}

/// A candidate preempts the running task: a higher class always, the same class by
/// earlier deadline, better real-time priority, or the fair rule; idle and stop
/// tasks never preempt their own class.
pub open spec fn preempts(curr: PreemptView, cand: PreemptView) -> bool {
    if cand.class != curr.class {
        class_rank(cand.class) > class_rank(curr.class)
    } else {
        match cand.class {
            SchedClass::Deadline => cand.deadline < curr.deadline,
            SchedClass::RealTime => cand.prio < curr.prio,
            SchedClass::Fair => fair_preempts(curr.vruntime, curr.sum_exec_runtime, curr.prev_sum_exec_runtime, cand.vruntime),
            _ => false,
        }
    }
}

/// Whether `cand` preempts `curr`.
pub fn check_preempt(curr: &PreemptView, cand: &PreemptView) -> (r: bool)
    ensures
        r == preempts(*curr, *cand),
{
    if cand.class != curr.class {
        return cand.class.is_above(curr.class);
    }
    match cand.class {
        SchedClass::Deadline => cand.deadline < curr.deadline,
        SchedClass::RealTime => cand.prio < curr.prio,
        SchedClass::Fair => should_preempt(curr.vruntime, curr.sum_exec_runtime, curr.prev_sum_exec_runtime, cand.vruntime),
        _ => false,
    }
}

/// A run queue as placement sees it.
#[derive(Debug, Clone, Copy, PartialEq, Eq, Structural)]
pub struct RqLoad {
    pub online: bool,
    pub nr_running: u32,
}

/// The queue of `cpu` in a registry snapshot, when there is one.
pub open spec fn rq_at(registry: Seq<Option<RqLoad>>, cpu: int) -> Option<RqLoad> {
    if 0 <= cpu < registry.len() {
        registry[cpu]
    } else {
        None
    }
}

/// `cpu` is an allowed, online CPU with a queue, carrying `load`.
pub open spec fn candidate(allowed: Set<int>, registry: Seq<Option<RqLoad>>, cpu: int) -> bool {
    allowed.contains(cpu) && rq_at(registry, cpu).is_some() && rq_at(registry, cpu).unwrap().online
}

/// The allowed online CPU of least load, the lowest among equals; none when no such
/// CPU has a load below `u32::MAX`.
pub open spec fn least_loaded(allowed: Set<int>, registry: Seq<Option<RqLoad>>, best: u32) -> bool {
    if best == CPU_NONE {
        forall|c: int| candidate(allowed, registry, c) ==> rq_at(registry, c).unwrap().nr_running == u32::MAX
    } else {
        &&& candidate(allowed, registry, best as int)
        &&& rq_at(registry, best as int).unwrap().nr_running < u32::MAX
        &&& forall|c: int|
            candidate(allowed, registry, c) && c < best ==> rq_at(registry, c).unwrap().nr_running > rq_at(
                registry,
                best as int,
            ).unwrap().nr_running
        &&& forall|c: int|
            candidate(allowed, registry, c) && c > best ==> rq_at(registry, c).unwrap().nr_running >= rq_at(
                registry,
                best as int,
            ).unwrap().nr_running
    }
}

/// Where a waking task goes: its last CPU when allowed and idle there; else the
/// least-loaded allowed online CPU; else its last CPU if it had one, else CPU 0.
pub open spec fn placement(allowed: Set<int>, preferred: u32, registry: Seq<Option<RqLoad>>, r: u32) -> bool {
    let pref_idle = preferred != CPU_NONE && allowed.contains(preferred as int) && rq_at(registry, preferred as int).is_some()
        && rq_at(registry, preferred as int).unwrap().online && rq_at(registry, preferred as int).unwrap().nr_running == 0;
    if pref_idle {
        r == preferred
    } else {
        exists|best: u32|
            least_loaded(allowed, registry, best) && r == if best != CPU_NONE {
                best
            } else if preferred != CPU_NONE {
                preferred
            } else {
                0
            }
    }
}

/// Choose the CPU for a waking task allowed on `allowed`, last run on `preferred`
/// (`CPU_NONE` if never), given each CPU's queue (none where no queue is registered).
pub fn select_task_rq(allowed: &CpuMask, preferred: u32, registry: &[Option<RqLoad>]) -> (r: u32)
    requires
        allowed.wf(),
    ensures
        placement(allowed@, preferred, registry@, r),
{
    proof {
        allowed.lemma_bounds();
    }
    if preferred != CPU_NONE && allowed.test(preferred) {
        if (preferred as usize) < registry.len() {
            match registry[preferred as usize] {
                Some(rq) => {
                    if rq.online && rq.nr_running == 0 {
                        return preferred;
                    }
                },
                None => {},
            }
        }
    }
    let mut best_cpu: u32 = CPU_NONE;
    let mut best_load: u32 = u32::MAX;
    let mut cpu: u32 = 0;
    while cpu < 1024
        invariant
            allowed.wf(),
            cpu <= MAX_CPUS,
            forall|i: int| #[trigger] allowed@.contains(i) ==> 0 <= i < MAX_CPUS,
            best_cpu == CPU_NONE ==> best_load == u32::MAX,
            best_cpu == CPU_NONE ==> forall|c: int|
                candidate(allowed@, registry@, c) && c < cpu ==> rq_at(registry@, c).unwrap().nr_running == u32::MAX,
            best_cpu != CPU_NONE ==> {
                &&& best_cpu < cpu
                &&& candidate(allowed@, registry@, best_cpu as int)
                &&& best_load == rq_at(registry@, best_cpu as int).unwrap().nr_running
                &&& best_load < u32::MAX
                &&& forall|c: int|
                    candidate(allowed@, registry@, c) && c < best_cpu ==> rq_at(registry@, c).unwrap().nr_running
                        > best_load
                &&& forall|c: int|
                    candidate(allowed@, registry@, c) && best_cpu < c < cpu ==> rq_at(registry@, c).unwrap().nr_running
                        >= best_load
            },
        decreases MAX_CPUS - cpu,
    {
        if allowed.test(cpu) && (cpu as usize) < registry.len() {
            match registry[cpu as usize] {
                Some(rq) => {
                    if rq.online {
                        let load = rq.nr_running;
                        if load < best_load {
                            best_load = load;
                            best_cpu = cpu;
                        }
                    }
                },
                None => {},
            }
        }
        cpu = cpu + 1;
    }
    proof {
        assert(least_loaded(allowed@, registry@, best_cpu));
    }
    if best_cpu == CPU_NONE {
        if preferred != CPU_NONE {
            preferred
        } else {
            0
        }
    } else {
        best_cpu
    }
}

/// The busiest other online queue with more than one task: the first of greatest
/// load among `registry` (by position), skipping `this_idx`.
pub open spec fn busiest_spec(registry: Seq<Option<RqLoad>>, this_idx: int, r: Option<usize>) -> bool {
    let eligible = |i: int| 0 <= i < registry.len() && i != this_idx && registry[i].is_some() && registry[i].unwrap().online;
    match r {
        None => forall|i: int| eligible(i) ==> registry[i].unwrap().nr_running <= 1,
        Some(b) => {
            &&& eligible(b as int)
            &&& registry[b as int].unwrap().nr_running > 1
            &&& forall|i: int| eligible(i) && i < b ==> registry[i].unwrap().nr_running < registry[b as int].unwrap().nr_running
            &&& forall|i: int| eligible(i) && i > b ==> registry[i].unwrap().nr_running <= registry[b as int].unwrap().nr_running
        },
    }
}

/// The queue an idle CPU at position `this_idx` should pull from.
pub fn find_busiest(registry: &[Option<RqLoad>], this_idx: usize) -> (r: Option<usize>)
    ensures
        busiest_spec(registry@, this_idx as int, r),
{
    let mut busiest: Option<usize> = None;
    let mut busiest_load: u32 = 1;
    let mut i: usize = 0;
    while i < registry.len()
        invariant
            i <= registry@.len(),
            busiest.is_none() ==> busiest_load == 1,
            busiest.is_none() ==> forall|j: int|
                0 <= j < i && j != this_idx && registry@[j].is_some() && registry@[j].unwrap().online
                    ==> registry@[j].unwrap().nr_running <= 1,
            busiest.is_some() ==> {
                let b = busiest.unwrap() as int;
                &&& b < i
                &&& b != this_idx && registry@[b].is_some() && registry@[b].unwrap().online
                &&& busiest_load == registry@[b].unwrap().nr_running
                &&& busiest_load > 1
                &&& forall|j: int|
                    0 <= j < b && j != this_idx && registry@[j].is_some() && registry@[j].unwrap().online
                        ==> registry@[j].unwrap().nr_running < busiest_load
                &&& forall|j: int|
                    b < j < i && j != this_idx && registry@[j].is_some() && registry@[j].unwrap().online
                        ==> registry@[j].unwrap().nr_running <= busiest_load
            },
        decreases registry@.len() - i,
    {
        if i != this_idx {
            match registry[i] {
                Some(rq) => {
                    if rq.online && rq.nr_running > busiest_load {
                        busiest_load = rq.nr_running;
                        busiest = Some(i);
                    }
                },
                None => {},
            }
        }
        i = i + 1;
    }
    busiest
}

/// Pulling is worth it when the busiest queue has more than one task beyond this
/// one's (the sum saturating).
pub fn should_pull(busiest_nr: u32, this_nr: u32) -> (r: bool)
    ensures
        r == (busiest_nr > this_nr.saturating_add(1)),
{
    busiest_nr > this_nr.saturating_add(1)
}


/// A fair task of the busiest queue, in virtual-time order, as pulling sees it.
#[derive(Debug, Clone, Copy, PartialEq, Eq, Structural)]
pub struct PullCandidate {
    pub task: usize,
    pub allowed_here: bool,
}

/// The first candidate, in order, that is not running there and may run on the
/// pulling CPU.
pub fn choose_task_to_pull(candidates: &[PullCandidate], busiest_current: usize) -> (r: Option<usize>)
    ensures
        match r {
            Some(k) => k < candidates@.len() && candidates@[k as int].task != busiest_current
                && candidates@[k as int].allowed_here && forall|j: int|
                0 <= j < k ==> !(candidates@[j].task != busiest_current && candidates@[j].allowed_here),
            None => forall|j: int|
                0 <= j < candidates@.len() ==> !(candidates@[j].task != busiest_current && candidates@[j].allowed_here),
        },
{
    let mut i: usize = 0;
    while i < candidates.len()
        invariant
            i <= candidates@.len(),
            forall|j: int| 0 <= j < i ==> !(candidates@[j].task != busiest_current && candidates@[j].allowed_here),
        decreases candidates@.len() - i,
    {
        let c = candidates[i];
        if c.task != busiest_current && c.allowed_here {
            return Some(i);
        }
        i = i + 1;
    }
    None
}


/// Smallest difference in queued tasks between the busiest and the idlest queue for
/// periodic balancing to move a task.
pub const IMBALANCE_THRESHOLD: u32 = 2;

/// Entry `i` of a registry snapshot is an online queue.
pub open spec fn online_at(registry: Seq<Option<RqLoad>>, i: int) -> bool {
    0 <= i < registry.len() && registry[i].is_some() && registry[i].unwrap().online
}

/// The load of entry `i` of a registry snapshot.
pub open spec fn load_at(registry: Seq<Option<RqLoad>>, i: int) -> int {
    registry[i].unwrap().nr_running as int
}

/// `b` is the first online queue of greatest load, and that load is not zero.
pub open spec fn first_busiest(registry: Seq<Option<RqLoad>>, b: int) -> bool {
    &&& online_at(registry, b)
    &&& load_at(registry, b) > 0
    &&& forall|j: int| online_at(registry, j) ==> load_at(registry, j) <= load_at(registry, b)
    &&& forall|j: int| online_at(registry, j) && j < b ==> load_at(registry, j) < load_at(registry, b)
}

/// `d` is the first online queue of least load, and that load is below `u32::MAX`.
pub open spec fn first_idlest(registry: Seq<Option<RqLoad>>, d: int) -> bool {
    &&& online_at(registry, d)
    &&& load_at(registry, d) < u32::MAX
    &&& forall|j: int| online_at(registry, j) ==> load_at(registry, d) <= load_at(registry, j)
    &&& forall|j: int| online_at(registry, j) && j < d ==> load_at(registry, d) < load_at(registry, j)
}

/// Periodic balancing moves from `b` to `d`: the first busiest and first idlest
/// online queues, distinct, at least the threshold apart.
pub open spec fn balance_pair(registry: Seq<Option<RqLoad>>, b: int, d: int) -> bool {
    &&& first_busiest(registry, b)
    &&& first_idlest(registry, d)
    &&& b != d
    &&& load_at(registry, b) - load_at(registry, d) >= IMBALANCE_THRESHOLD
}

/// At most one pair of queues is the balancing pair.
pub proof fn lemma_balance_pair_unique(registry: Seq<Option<RqLoad>>, b1: int, d1: int, b2: int, d2: int)
    requires
        balance_pair(registry, b1, d1),
        balance_pair(registry, b2, d2),
    ensures
        b1 == b2 && d1 == d2,
{
    if b1 < b2 {
        assert(load_at(registry, b1) < load_at(registry, b2));
    } else if b2 < b1 {
        assert(load_at(registry, b2) < load_at(registry, b1));
    }
    if d1 < d2 {
        assert(load_at(registry, d2) < load_at(registry, d1));
    } else if d2 < d1 {
        assert(load_at(registry, d1) < load_at(registry, d2));
    }
}

/// The pair of queues that periodic balancing moves a task between, if any: the
/// first online queue of greatest load and the first of least load, when they differ
/// and their loads are at least the threshold apart.
pub fn balance_decision(registry: &[Option<RqLoad>]) -> (r: Option<(usize, usize)>)
    ensures
        match r {
            Some((b, d)) => balance_pair(registry@, b as int, d as int),
            None => forall|b: int, d: int| !balance_pair(registry@, b, d),
        },
{
    let mut busiest: Option<usize> = None;
    let mut idlest: Option<usize> = None;
    let mut max_load: u32 = 0;
    let mut min_load: u32 = u32::MAX;
    let mut i: usize = 0;
    while i < registry.len()
        invariant
            i <= registry@.len(),
            busiest.is_none() ==> max_load == 0,
            forall|j: int| 0 <= j < i && online_at(registry@, j) ==> load_at(registry@, j) <= max_load,
            busiest.is_some() ==> {
                let b = busiest.unwrap() as int;
                &&& b < i && online_at(registry@, b) && load_at(registry@, b) == max_load && max_load > 0
                &&& forall|j: int| 0 <= j < b && online_at(registry@, j) ==> load_at(registry@, j) < max_load
            },
            idlest.is_none() ==> min_load == u32::MAX,
            forall|j: int| 0 <= j < i && online_at(registry@, j) ==> min_load <= load_at(registry@, j),
            idlest.is_some() ==> {
                let d = idlest.unwrap() as int;
                &&& d < i && online_at(registry@, d) && load_at(registry@, d) == min_load && min_load < u32::MAX
                &&& forall|j: int| 0 <= j < d && online_at(registry@, j) ==> min_load < load_at(registry@, j)
            },
        decreases registry@.len() - i,
    {
        match registry[i] {
            Some(rq) => {
                if rq.online {
                    if rq.nr_running > max_load {
                        max_load = rq.nr_running;
                        busiest = Some(i);
                    }
                    if rq.nr_running < min_load {
                        min_load = rq.nr_running;
                        idlest = Some(i);
                    }
                }
            },
            None => {},
        }
        i = i + 1;
    }
    match (busiest, idlest) {
        (Some(b), Some(d)) => {
            assert(first_busiest(registry@, b as int));
            assert(first_idlest(registry@, d as int));
            assert forall|x: int| #[trigger] first_busiest(registry@, x) implies x == b as int by {
                if x < b as int {
                    assert(load_at(registry@, x) < max_load);
                } else if x > b as int {
                    assert(load_at(registry@, b as int) < load_at(registry@, x));
                }
            }
            assert forall|x: int| #[trigger] first_idlest(registry@, x) implies x == d as int by {
                if x < d as int {
                    assert(min_load < load_at(registry@, x));
                } else if x > d as int {
                    assert(load_at(registry@, x) < load_at(registry@, d as int));
                }
            }
            if b == d || max_load.saturating_sub(min_load) < IMBALANCE_THRESHOLD {
                None
            } else {
                Some((b, d))
            }
        },
        _ => {
            assert forall|x: int, y: int| !balance_pair(registry@, x, y) by {
                if busiest.is_none() && first_busiest(registry@, x) {
                    assert(load_at(registry@, x) <= 0);
                }
                if idlest.is_none() && first_idlest(registry@, y) {
                    assert(min_load <= load_at(registry@, y));
                }
            }
            None
        },
    }
}

/// Between two real-time tasks the candidate preempts exactly when its priority
/// number is smaller (a smaller number is a higher priority, the one the real-time
/// queue runs first); so of two real-time tasks at most one preempts the other.
pub proof fn law_rt_preempts_by_priority(curr: PreemptView, cand: PreemptView)
    requires
        curr.class == SchedClass::RealTime,
        cand.class == SchedClass::RealTime,
    ensures
        preempts(curr, cand) <==> cand.prio < curr.prio,
        preempts(curr, cand) ==> !preempts(cand, curr),
        curr.prio != cand.prio ==> (preempts(curr, cand) || preempts(cand, curr)),
{
}

/// A task of a higher class always preempts one of a lower class, and never the
/// other way round: deadline over real-time over fair over idle.
pub proof fn law_class_order_preempts(curr: PreemptView, cand: PreemptView)
    ensures
        cand.class == SchedClass::Deadline && (curr.class == SchedClass::RealTime || curr.class == SchedClass::Fair
            || curr.class == SchedClass::Idle) ==> preempts(curr, cand) && !preempts(cand, curr),
        cand.class == SchedClass::RealTime && (curr.class == SchedClass::Fair || curr.class == SchedClass::Idle)
            ==> preempts(curr, cand) && !preempts(cand, curr),
        cand.class == SchedClass::Fair && curr.class == SchedClass::Idle ==> preempts(curr, cand) && !preempts(cand, curr),
{
}

/// Between two deadline tasks the earlier deadline preempts; a stop task preempts
/// every other class; two idle or two stop tasks never preempt each other.
pub proof fn law_deadline_and_stop_preempt(curr: PreemptView, cand: PreemptView)
    ensures
        curr.class == SchedClass::Deadline && cand.class == SchedClass::Deadline ==> (preempts(curr, cand)
            <==> cand.deadline < curr.deadline),
        cand.class == SchedClass::Stop && curr.class != SchedClass::Stop ==> preempts(curr, cand),
        curr.class == cand.class && (cand.class == SchedClass::Idle || cand.class == SchedClass::Stop) ==> !preempts(
            curr,
            cand,
        ),
{
}

/// A fair candidate that is not behind the running fair task in virtual time never
/// preempts it; one behind by more than the target latency always does; one behind
/// by less preempts exactly when the running task has had its minimum slice.
pub proof fn law_fair_preempts_by_virtual_time(curr: PreemptView, cand: PreemptView)
    requires
        curr.class == SchedClass::Fair,
        cand.class == SchedClass::Fair,
    ensures
        cand.vruntime >= curr.vruntime ==> !preempts(curr, cand),
        cand.vruntime < curr.vruntime && curr.vruntime - cand.vruntime > TARGET_LATENCY_NS ==> preempts(curr, cand),
        cand.vruntime < curr.vruntime && curr.vruntime - cand.vruntime <= TARGET_LATENCY_NS ==> (preempts(curr, cand)
            <==> curr.sum_exec_runtime.saturating_sub(curr.prev_sum_exec_runtime) >= MIN_GRANULARITY_NS),
{
}

} // verus!
