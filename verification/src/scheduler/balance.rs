//! Load-balancing arithmetic between scheduling groups: how groups are classified
//! and how much load should move from the busiest group to the local one.
use vstd::prelude::*;
use super::topology::{SchedGroup, SD_SHARE_CPUCAPACITY};
use super::cpumask::{CpuMask, MAX_CPUS};

verus! {

/// Cost of migrating a task.
pub const MIGRATION_COST_NS: u64 = 500_000;

/// Shortest time between two balancing passes of a domain.
pub const MIN_BALANCE_INTERVAL_NS: u64 = 1_000_000;

/// Imbalance tolerated before balancing, in percent.
pub const IMBALANCE_PCT: u32 = 125;

/// Utilisation, in percent of capacity, past which a busy group is overloaded.
pub const GROUP_OVERLOAD_THRESHOLD: u32 = 90;

/// Utilisation, in percent of a CPU's capacity, past which a task does not fit.
pub const MISFIT_TASK_THRESHOLD: u32 = 80;

/// How loaded a group is, from most to least attractive as a destination.
#[derive(Debug, Clone, Copy, PartialEq, Eq, Structural)]
pub enum GroupType {
    FullyIdle,
    HasIdle,
    GroupAsym,
    GroupMisfit,
    GroupOverloaded,
    GroupSmt,
    GroupImbalanced,
}

/// Loads, utilisations and capacities of the two sides of a balancing pass, and the
/// load to move.
#[derive(Debug, Clone, Copy, PartialEq, Eq, Structural)]
pub struct LoadCalculation {
    pub src_load: u64,
    pub dst_load: u64,
    pub src_util: u64,
    pub dst_util: u64,
    pub src_capacity: u64,
    pub dst_capacity: u64,
    pub imbalance: u64,
    pub nr_moving: u32,
    pub env_task_util: u32,
}

impl LoadCalculation {
    /// Everything zero.
    pub fn empty() -> (r: Self)
        ensures
            r == (LoadCalculation {
                src_load: 0,
                dst_load: 0,
                src_util: 0,
                dst_util: 0,
                src_capacity: 0,
                dst_capacity: 0,
                imbalance: 0,
                nr_moving: 0,
                env_task_util: 0,
            }),
    {
        LoadCalculation {
            src_load: 0,
            dst_load: 0,
            src_util: 0,
            dst_util: 0,
            src_capacity: 0,
            dst_capacity: 0,
            imbalance: 0,
            nr_moving: 0,
            env_task_util: 0,
        }
    }
}

/// Utilisation per 1024 units of capacity across both groups.
pub open spec fn target_per_cpu(busiest: &SchedGroup, local: &SchedGroup) -> int {
    let total_util = busiest.group_util.saturating_add(local.group_util);
    let total_cap = busiest.group_capacity.saturating_add(local.group_capacity);
    if total_cap > 0 {
        total_util * 1024 / total_cap as int
    } else {
        0
    }
}

/// The arithmetic of `calculate_imbalance` fits in 32 bits.
pub open spec fn imbalance_fits(busiest: &SchedGroup, local: &SchedGroup) -> bool {
    &&& busiest.group_util.saturating_add(local.group_util) * 1024 <= u32::MAX
    &&& busiest.group_capacity * target_per_cpu(busiest, local) <= u32::MAX
    &&& local.group_capacity * target_per_cpu(busiest, local) <= u32::MAX
}

/// Load to move: the smaller of the busiest group's excess and the local group's
/// deficit, each measured against the share that equal utilisation per capacity
/// would give it.
pub open spec fn imbalance_of(busiest: &SchedGroup, local: &SchedGroup) -> int {
    let t = target_per_cpu(busiest, local);
    let busiest_target = busiest.group_capacity * t / 1024;
    let local_target = local.group_capacity * t / 1024;
    let excess = if busiest.group_util > busiest_target { busiest.group_util - busiest_target } else { 0 };
    let deficit = if local_target > local.group_util { local_target - local.group_util } else { 0 };
    if excess < deficit {
        excess
    } else {
        deficit
    }
}

/// Fill in the imbalance between the busiest and the local group, with both sides'
/// utilisation and capacity.
pub fn calculate_imbalance(env: &mut LoadCalculation, busiest: &SchedGroup, local: &SchedGroup)
    requires
        imbalance_fits(busiest, local),
    ensures
        *final(env) == (LoadCalculation {
            imbalance: imbalance_of(busiest, local) as u64,
            src_util: busiest.group_util as u64,
            dst_util: local.group_util as u64,
            src_capacity: busiest.group_capacity as u64,
            dst_capacity: local.group_capacity as u64,
            ..*old(env)
        }),
{
    let busiest_cap = busiest.group_capacity;
    let local_cap = local.group_capacity;
    let busiest_util = busiest.group_util;
    let local_util = local.group_util;
    let total_util = busiest_util.saturating_add(local_util);
    let total_cap = busiest_cap.saturating_add(local_cap);
    let target_util_per_cpu = if total_cap > 0 { (total_util * 1024) / total_cap } else { 0 };
    let busiest_target = (busiest_cap * target_util_per_cpu) / 1024;
    let local_target = (local_cap * target_util_per_cpu) / 1024;
    let busiest_excess = busiest_util.saturating_sub(busiest_target);
    let local_deficit = local_target.saturating_sub(local_util);
    let imbalance = if busiest_excess < local_deficit { busiest_excess } else { local_deficit };
    env.imbalance = imbalance as u64;
    env.src_util = busiest_util as u64;
    env.dst_util = local_util as u64;
    env.src_capacity = busiest_cap as u64;
    env.dst_capacity = local_cap as u64;
}

/// What `calculate_imbalance` computes levels the two groups toward one common
/// utilisation per 1024 units of capacity, `t` (total utilisation times 1024 over
/// total capacity): each group's share at that level is its own capacity times `t`
/// over 1024. A positive imbalance never takes the busiest group below its share nor
/// the local group above its own, and it brings one of them exactly to its share; it
/// is zero only when the busiest group is already at or below its share or the local
/// one at or above its own.
pub proof fn law_imbalance_levels_groups(busiest: &SchedGroup, local: &SchedGroup, imb: int)
    requires
        imbalance_fits(busiest, local),
        imb == imbalance_of(busiest, local),
    ensures
        ({
            let tu = busiest.group_util.saturating_add(local.group_util) as int;
            let tc = busiest.group_capacity.saturating_add(local.group_capacity) as int;
            let t = if tc > 0 { tu * 1024 / tc } else { 0 };
            let busiest_share = busiest.group_capacity * t / 1024;
            let local_share = local.group_capacity * t / 1024;
            &&& imb >= 0
            &&& imb > 0 ==> busiest.group_util - imb >= busiest_share && local.group_util + imb <= local_share
            &&& imb > 0 ==> busiest.group_util - imb == busiest_share || local.group_util + imb == local_share
            &&& imb == 0 <==> (busiest.group_util <= busiest_share || local_share <= local.group_util)
        }),
{
}

/// Class of a group: idle without utilisation, then with an idle CPU, then holding a
/// misfit task, then overloaded, else asymmetric.
pub open spec fn group_class(sg: &SchedGroup) -> GroupType {
    if sg.group_util == 0 {
        GroupType::FullyIdle
    } else if sg.idle_cpus@ != Set::<int>::empty() {
        GroupType::HasIdle
    } else if sg.group_misfit_task {
        GroupType::GroupMisfit
    } else if sg.group_overloaded {
        GroupType::GroupOverloaded
    } else {
        GroupType::GroupAsym
    }
}

/// Classify a group.
pub fn classify_group(sg: &SchedGroup) -> (r: GroupType)
    requires
        sg.idle_cpus.wf(),
    ensures
        r == group_class(sg),
{
    if sg.group_util == 0 {
        return GroupType::FullyIdle;
    }
    if !sg.idle_cpus.is_empty() {
        return GroupType::HasIdle;
    }
    if sg.group_misfit_task {
        return GroupType::GroupMisfit;
    }
    if sg.group_overloaded {
        return GroupType::GroupOverloaded;
    }
    GroupType::GroupAsym
}


/// The running task of a CPU does not fit it: its utilisation is above 80% of the
/// group's capacity per CPU and above that capacity itself, on a CPU that is not a
/// big one.
pub open spec fn misfit(task_util: u32, group_capacity: u32, group_weight: u32, is_big: bool) -> bool {
    let cpu_cap = (group_capacity as int) / (if group_weight > 1 { group_weight as int } else { 1int });
    task_util > cpu_cap * MISFIT_TASK_THRESHOLD / 100 && !is_big && task_util > cpu_cap
}

/// Whether the running task (of utilisation `task_util`, when there is one) is a
/// misfit on its group.
pub fn check_misfit_task(task_util: Option<u32>, group_capacity: u32, group_weight: u32, is_big: bool) -> (r: bool)
    requires
        ((group_capacity as int) / (if group_weight > 1 { group_weight as int } else { 1int })) * MISFIT_TASK_THRESHOLD <= u32::MAX,
    ensures
        r == match task_util {
            None => false,
            Some(u) => misfit(u, group_capacity, group_weight, is_big),
        },
{
    let util = match task_util {
        None => return false,
        Some(u) => u,
    };
    let w: u32 = if group_weight > 1 { group_weight } else { 1 };
    let cpu_cap = group_capacity / w;
    if util > cpu_cap * MISFIT_TASK_THRESHOLD / 100 {
        if !is_big && util > cpu_cap {
            return true;
        }
    }
    false
}

/// What a CPU of a group contributes to its statistics (none for a CPU without a
/// run queue).
#[derive(Debug, Clone, Copy, PartialEq, Eq, Structural)]
pub struct CpuLoad {
    pub present: bool,
    pub max_capacity: u32,
    pub thermal_pressure: u32,
    pub load_weight: u64,
    pub nr_running: u32,
    pub idle: bool,
}

/// Sums over the first `n` CPUs of a group: capacity less thermal pressure,
/// utilisation (each queue's load weight kept to 32 bits) and tasks, all saturating.
pub open spec fn group_sums(cpus: Seq<CpuLoad>, n: int) -> (u32, u32, u32)
    decreases n,
{
    if n <= 0 {
        (0, 0, 0)
    } else {
        let prev = group_sums(cpus, n - 1);
        let c = cpus[n - 1];
        if !c.present {
            prev
        } else {
            (
                prev.0.saturating_add(c.max_capacity.saturating_sub(c.thermal_pressure)),
                prev.1.saturating_add(c.load_weight as u32),
                prev.2.saturating_add(c.nr_running),
            )
        }
    }
}

/// Refresh a group's capacity, utilisation, idle CPUs, weight (its CPU count) and
/// overload flag from the state of its CPUs: `cpus[i]` describes CPU `i` of the
/// group's mask (in increasing order). Overloaded: busy with utilisation above 90%
/// of capacity.
pub fn update_group_capacity(sg: &mut SchedGroup, cpus: &[CpuLoad], members: &[u32])
    requires
        old(sg).group_mask.wf(),
        old(sg).idle_cpus.wf(),
        cpus@.len() == members@.len(),
        group_sums(cpus@, cpus@.len() as int).0 * GROUP_OVERLOAD_THRESHOLD <= u32::MAX,
    ensures
        final(sg).group_capacity == group_sums(cpus@, cpus@.len() as int).0,
        final(sg).group_util == group_sums(cpus@, cpus@.len() as int).1,
        final(sg).group_weight == old(sg).group_mask@.len(),
        final(sg).idle_cpus.wf(),
        final(sg).idle_cpus@ == Set::new(
            |c: int| 0 <= c < MAX_CPUS && exists|i: int| 0 <= i < members@.len() && members@[i] == c && cpus@[i].present && cpus@[i].idle,
        ),
        final(sg).group_overloaded == (group_sums(cpus@, cpus@.len() as int).2 > 0 && group_sums(cpus@, cpus@.len() as int).1
            > group_sums(cpus@, cpus@.len() as int).0 * GROUP_OVERLOAD_THRESHOLD / 100),
        final(sg).group_mask == old(sg).group_mask,
        final(sg).next == old(sg).next && final(sg).group_misfit_task == old(sg).group_misfit_task,
{
    let mut capacity: u32 = 0;
    let mut util: u32 = 0;
    let mut nr_running: u32 = 0;
    let mut idle_cpus = CpuMask::empty();
    let mut i: usize = 0;
    while i < cpus.len()
        invariant
            i <= cpus@.len(),
            cpus@.len() == members@.len(),
            (capacity, util, nr_running) == group_sums(cpus@, i as int),
            idle_cpus.wf(),
            idle_cpus@ == Set::new(
                |c: int| 0 <= c < MAX_CPUS && exists|k: int| 0 <= k < i && members@[k] == c && cpus@[k].present && cpus@[k].idle,
            ),
        decreases cpus@.len() - i,
    {
        let c = cpus[i];
        let ghost before = idle_cpus@;
        if c.present {
            capacity = capacity.saturating_add(c.max_capacity.saturating_sub(c.thermal_pressure));
            util = util.saturating_add(#[verifier::truncate] (c.load_weight as u32));
            nr_running = nr_running.saturating_add(c.nr_running);
            if c.idle {
                idle_cpus.set(members[i]);
            }
        }
        proof {
            assert(idle_cpus@ =~= Set::new(
                |x: int| 0 <= x < MAX_CPUS && exists|k: int| 0 <= k < i + 1 && members@[k] == x && cpus@[k].present && cpus@[k].idle,
            )) by {
                assert forall|x: int| idle_cpus@.contains(x) <==> (0 <= x < MAX_CPUS && exists|k: int|
                    0 <= k < i + 1 && members@[k] == x && cpus@[k].present && cpus@[k].idle) by {
                    if 0 <= x < MAX_CPUS && exists|k: int| 0 <= k < i + 1 && members@[k] == x && cpus@[k].present && cpus@[k].idle {
                        let k = choose|k: int| 0 <= k < i + 1 && members@[k] == x && cpus@[k].present && cpus@[k].idle;
                        if k < i {
                            assert(before.contains(x));
                        }
                    }
                    if idle_cpus@.contains(x) && !before.contains(x) {
                        assert(members@[i as int] == x);
                    }
                }
            }
        }
        i = i + 1;
    }
    sg.group_capacity = capacity;
    sg.group_util = util;
    sg.idle_cpus = idle_cpus;
    sg.group_weight = sg.group_mask.weight();
    sg.group_overloaded = nr_running > 0 && util > (capacity * GROUP_OVERLOAD_THRESHOLD / 100);
}

/// Whether `local_cpu` balances its domain now: always when idle; otherwise when the
/// balancing interval (halved for hardware-thread domains) has passed since the last
/// pass and it is the domain's first online CPU.
pub fn should_we_balance(
    idle: bool,
    now: u64,
    last_balance: u64,
    domain_flags: u32,
    first_online_in_span: Option<u32>,
    local_cpu: u32,
) -> (r: bool)
    ensures
        r == (idle || ({
            let interval = if domain_flags & SD_SHARE_CPUCAPACITY != 0 {
                MIN_BALANCE_INTERVAL_NS / 2
            } else {
                MIN_BALANCE_INTERVAL_NS
            };
            now.saturating_sub(last_balance) >= interval && first_online_in_span == Some(local_cpu)
        })),
{
    if idle {
        return true;
    }
    let interval = if domain_flags & SD_SHARE_CPUCAPACITY != 0 {
        MIN_BALANCE_INTERVAL_NS / 2
    } else {
        MIN_BALANCE_INTERVAL_NS
    };
    if now.saturating_sub(last_balance) < interval {
        return false;
    }
    match first_online_in_span {
        Some(designated) => designated == local_cpu,
        None => false,
    }
}

} // verus!
