//! Moving tasks between run queues with the queues' task counts kept: periodic load
//! balancing between the busiest and the idlest online queue, and pulling for an
//! idle CPU. A task that is pinned, running on a CPU right now, or not allowed on the
//! destination stays where it is.
use vstd::prelude::*;
use super::decide::{RqLoad, balance_decision, balance_pair, lemma_balance_pair_unique, busiest_spec, find_busiest, should_pull};
use super::runqueue::{RunQueue, task_at, valid_handle, handles_valid, placed_vruntime};
use super::smp::{rq_loads, queue_loads, fair_ready, fair_moved, move_fair, requeued_task, lemma_fair_ready_retask,
    lemma_fair_ready_same_queues, lemma_busiest_unique};
use super::task::{TaskStruct, TaskStats};

verus! {

/// Task flag: the task stays on the CPU it runs on.
pub const PF_NO_MIGRATE: u32 = 0x0400_0000;

/// Task `t` may move to `dst_cpu`: it is not pinned, not on a CPU right now, and
/// allowed there.
pub open spec fn migratable(t: TaskStruct, dst_cpu: u32) -> bool {
    &&& t.flags & PF_NO_MIGRATE == 0
    &&& !t.on_cpu
    &&& t.se.cpus_allowed@.contains(dst_cpu as int)
}

/// Entry `k` of queue `rq`'s fair order is the first task there, other than the
/// running one, that may move to `dst_cpu`.
pub open spec fn first_migratable(rq: RunQueue, tasks: Seq<TaskStruct>, dst_cpu: u32, k: int) -> bool {
    let q = rq.fair.queue@;
    &&& 0 <= k < q.len()
    &&& q[k] != rq.curr && migratable(task_at(tasks, q[k]), dst_cpu)
    &&& forall|j: int| 0 <= j < k ==> !(q[j] != rq.curr && migratable(#[trigger] task_at(tasks, q[j]), dst_cpu))
}

/// The fair queues are consistent with the task table, and each queue's fair count
/// is at most its total count.
pub open spec fn balance_ready(rqs: Seq<RunQueue>, tasks: Seq<TaskStruct>) -> bool {
    &&& fair_ready(rqs, tasks)
    &&& forall|i: int| 0 <= i < rqs.len() ==> (#[trigger] rqs[i]).fair.nr_running <= rqs[i].nr_running
}

/// Whether task `t` may move to `dst_cpu`.
pub fn can_migrate_task(t: &TaskStruct, dst_cpu: u32) -> (r: bool)
    requires
        t.se.cpus_allowed.wf(),
    ensures
        r == migratable(*t, dst_cpu),
{
    if t.flags & PF_NO_MIGRATE != 0 {
        return false;
    }
    if t.on_cpu {
        return false;
    }
    t.se.cpus_allowed.test(dst_cpu)
}

/// The position in `src`'s fair order of the first task, other than the running
/// one, that may move to `dst_cpu`.
pub fn find_migratable(src: &RunQueue, tasks: &Vec<TaskStruct>, dst_cpu: u32) -> (r: Option<usize>)
    requires
        handles_valid(src.fair.queue@, tasks@),
        forall|i: int| 0 <= i < tasks@.len() ==> (#[trigger] tasks@[i]).se.cpus_allowed.wf(),
    ensures
        match r {
            Some(k) => first_migratable(*src, tasks@, dst_cpu, k as int),
            None => forall|k: int| !first_migratable(*src, tasks@, dst_cpu, k),
        },
{
    let mut k: usize = 0;
    while k < src.fair.queue.len()
        invariant
            k <= src.fair.queue@.len(),
            handles_valid(src.fair.queue@, tasks@),
            forall|i: int| 0 <= i < tasks@.len() ==> (#[trigger] tasks@[i]).se.cpus_allowed.wf(),
            forall|j: int| 0 <= j < k ==> !(src.fair.queue@[j] != src.curr && migratable(
                #[trigger] task_at(tasks@, src.fair.queue@[j]),
                dst_cpu,
            )),
        decreases src.fair.queue@.len() - k,
    {
        let h = src.fair.queue[k];
        assert(valid_handle(tasks@, src.fair.queue@[k as int]));
        if h != src.curr && can_migrate_task(&tasks[h - 1], dst_cpu) {
            return Some(k);
        }
        k = k + 1;
    }
    None
}

/// Task `t` after moving to `cpu`: queued, on that CPU, one more migration counted
/// in its statistics (saturating).
pub open spec fn migrated_task(t: TaskStruct, cpu: u32) -> TaskStruct {
    TaskStruct {
        cpu,
        stats: TaskStats { nr_migrations: t.stats.nr_migrations.saturating_add(1), ..t.stats },
        se: super::task::SchedEntity { on_rq: true, ..t.se },
        ..t
    }
}

/// `(r1, t1)` is `(r0, t0)` with entry `k` of queue `b`'s fair order moved to queue
/// `d` with its virtual time kept, one task fewer counted on `b` and one more on
/// `d`, and the task marked as moved to `d`'s CPU.
pub open spec fn moved(r0: Seq<RunQueue>, t0: Seq<TaskStruct>, r1: Seq<RunQueue>, t1: Seq<TaskStruct>, b: int, d: int, k: int) -> bool {
    let h = r0[b].fair.queue@[k];
    let t = task_at(t0, h);
    &&& fair_moved(r0, t0, r1, b, d, k, t.se.vruntime)
    &&& r1[b].nr_running == r0[b].nr_running - 1
    &&& r1[d].nr_running == r0[d].nr_running + 1
    &&& t1 == t0.update(h - 1, migrated_task(t, r0[d].cpu))
}

/// Move entry `k` of queue `b`'s fair order to queue `d`, which holds fewer tasks.
#[verifier::rlimit(100)]
fn migrate_queued(rqs: &mut Vec<RunQueue>, tasks: &mut Vec<TaskStruct>, b: usize, d: usize, k: usize)
    requires
        balance_ready(old(rqs)@, old(tasks)@),
        b < old(rqs)@.len() && d < old(rqs)@.len() && b != d,
        k < old(rqs)@[b as int].fair.queue@.len(),
        old(rqs)@[d as int].nr_running < old(rqs)@[b as int].nr_running,
    ensures
        balance_ready(final(rqs)@, final(tasks)@),
        moved(old(rqs)@, old(tasks)@, final(rqs)@, final(tasks)@, b as int, d as int, k as int),
{
    let ghost r0 = rqs@;
    let ghost t0 = tasks@;
    let h = rqs[b].fair.queue[k];
    let dst_cpu = rqs[d].cpu;
    proof {
        assert(r0[d as int].fair.nr_running <= r0[d as int].nr_running);
        assert(r0[b as int].fair.nr_running <= r0[b as int].nr_running);
        assert(handles_valid(r0[b as int].fair.queue@, t0));
        assert(valid_handle(t0, h));
    }
    move_fair(rqs, tasks, b, d, k, false);
    let ghost r_mid = rqs@;
    let ghost t_mid = tasks@;
    let mut t = tasks.remove(h - 1);
    t.cpu = dst_cpu;
    t.stats.nr_migrations = t.stats.nr_migrations.saturating_add(1);
    tasks.insert(h - 1, t);
    rqs[b].nr_running = rqs[b].nr_running - 1;
    rqs[d].nr_running = rqs[d].nr_running + 1;
    proof {
        let ti = task_at(t0, h);
        assert(placed_vruntime(ti.se.vruntime, r0[d as int].fair.min_vruntime, false) == ti.se.vruntime);
        assert(tasks@ =~= t0.update(h - 1, migrated_task(ti, r0[d as int].cpu)));
        assert forall|i: int| 0 <= i < t_mid.len() implies (#[trigger] tasks@[i]).se.vruntime == t_mid[i].se.vruntime
            && tasks@[i].se.cpus_allowed == t_mid[i].se.cpus_allowed by {}
        lemma_fair_ready_retask(r_mid, t_mid, tasks@);
        assert forall|i: int| 0 <= i < r_mid.len() implies (#[trigger] rqs@[i]).fair == r_mid[i].fair by {}
        lemma_fair_ready_same_queues(r_mid, rqs@, tasks@);
        assert(moved(r0, t0, rqs@, tasks@, b as int, d as int, k as int));
        assert forall|i: int| 0 <= i < rqs@.len() implies (#[trigger] rqs@[i]).fair.nr_running <= rqs@[i].nr_running by {
            if i != b && i != d {
                assert(rqs@[i] == r0[i]);
            }
        }
    }
}

/// Periodic balancing: when the first busiest and first idlest online queues are
/// at least the threshold apart, move the first fair task of the busiest (in order
/// of virtual time) that is not running there and may run on the idlest CPU.
/// Returns the number of tasks moved.
pub fn load_balance(rqs: &mut Vec<RunQueue>, tasks: &mut Vec<TaskStruct>) -> (migrated: u32)
    requires
        balance_ready(old(rqs)@, old(tasks)@),
    ensures
        balance_ready(final(rqs)@, final(tasks)@),
        migrated <= 1,
        migrated == 1 <==> exists|b: int, d: int, k: int|
            balance_pair(rq_loads(old(rqs)@), b, d) && first_migratable(old(rqs)@[b], old(tasks)@, old(rqs)@[d].cpu, k),
        migrated == 0 ==> final(rqs)@ == old(rqs)@ && final(tasks)@ == old(tasks)@,
        migrated == 1 ==> exists|b: int, d: int, k: int|
            balance_pair(rq_loads(old(rqs)@), b, d) && first_migratable(old(rqs)@[b], old(tasks)@, old(rqs)@[d].cpu, k)
                && moved(old(rqs)@, old(tasks)@, final(rqs)@, final(tasks)@, b, d, k),
{
    let loads = queue_loads(rqs);
    let decision = balance_decision(&loads);
    let (b, d) = match decision {
        None => {
            return 0;
        },
        Some(pair) => pair,
    };
    proof {
        assert forall|x: int, y: int| #[trigger] balance_pair(rq_loads(old(rqs)@), x, y) implies x == b && y == d by {
            lemma_balance_pair_unique(rq_loads(old(rqs)@), b as int, d as int, x, y);
        }
    }
    let dst_cpu = rqs[d].cpu;
    assert(handles_valid(rqs@[b as int].fair.queue@, tasks@));
    let k = match find_migratable(&rqs[b], tasks, dst_cpu) {
        None => {
            return 0;
        },
        Some(k) => k,
    };
    proof {
        assert forall|x: int| #[trigger] first_migratable(old(rqs)@[b as int], old(tasks)@, dst_cpu, x) implies x == k by {
            if x < k {
            } else if k < x {
            }
        }
        assert(rq_loads(old(rqs)@)[b as int] == Some(RqLoad { online: old(rqs)@[b as int].online, nr_running: old(rqs)@[b as int].nr_running }));
        assert(rq_loads(old(rqs)@)[d as int] == Some(RqLoad { online: old(rqs)@[d as int].online, nr_running: old(rqs)@[d as int].nr_running }));
    }
    migrate_queued(rqs, tasks, b, d, k);
    1
}

/// An idle CPU's queue `this` pulls entry `k` of queue `b`'s fair order: `b` is the
/// busiest other online queue with more than one task, it holds more than one task
/// beyond `this` (the sum saturating), and `k` is its first task that may move to
/// `this`'s CPU.
pub open spec fn idle_pull(rqs: Seq<RunQueue>, tasks: Seq<TaskStruct>, this: int, b: int, k: int) -> bool {
    &&& 0 <= this < rqs.len()
    &&& 0 <= b < rqs.len()
    &&& busiest_spec(rq_loads(rqs), this, Some(b as usize))
    &&& rqs[b].nr_running > rqs[this].nr_running.saturating_add(1)
    &&& first_migratable(rqs[b], tasks, rqs[this].cpu, k)
}

/// Balancing for the idle CPU whose queue is entry `this_cpu` (none when there is no
/// such entry): pull the first movable fair task of the busiest other online queue,
/// when that queue holds more than one task beyond this one, keeping both queues'
/// task counts. Returns whether a task was pulled.
pub fn idle_balance(this_cpu: u32, rqs: &mut Vec<RunQueue>, tasks: &mut Vec<TaskStruct>) -> (pulled: bool)
    requires
        balance_ready(old(rqs)@, old(tasks)@),
    ensures
        balance_ready(final(rqs)@, final(tasks)@),
        pulled <==> exists|b: int, k: int| idle_pull(old(rqs)@, old(tasks)@, this_cpu as int, b, k),
        !pulled ==> final(rqs)@ == old(rqs)@ && final(tasks)@ == old(tasks)@,
        pulled ==> exists|b: int, k: int| idle_pull(old(rqs)@, old(tasks)@, this_cpu as int, b, k)
            && moved(old(rqs)@, old(tasks)@, final(rqs)@, final(tasks)@, b, this_cpu as int, k),
{
    let this = this_cpu as usize;
    if this >= rqs.len() {
        return false;
    }
    let loads = queue_loads(rqs);
    let b = match find_busiest(&loads, this) {
        None => {
            return false;
        },
        Some(b) => b,
    };
    proof {
        assert forall|x: int, y: int| #[trigger] idle_pull(old(rqs)@, old(tasks)@, this_cpu as int, x, y) implies x == b by {
            lemma_busiest_unique(rq_loads(old(rqs)@), this as int, b, x as usize);
        }
        assert(rq_loads(old(rqs)@)[b as int] == Some(RqLoad { online: old(rqs)@[b as int].online, nr_running: old(rqs)@[b as int].nr_running }));
    }
    if !should_pull(rqs[b].nr_running, rqs[this].nr_running) {
        return false;
    }
    let dst_cpu = rqs[this].cpu;
    assert(handles_valid(rqs@[b as int].fair.queue@, tasks@));
    let k = match find_migratable(&rqs[b], tasks, dst_cpu) {
        None => {
            return false;
        },
        Some(k) => k,
    };
    proof {
        assert forall|x: int| #[trigger] first_migratable(old(rqs)@[b as int], old(tasks)@, dst_cpu, x) implies x == k by {
            if x < k {
            } else if k < x {
            }
        }
    }
    assert(busiest_spec(rq_loads(old(rqs)@), this_cpu as int, Some(b)));
    assert(first_migratable(old(rqs)@[b as int], old(tasks)@, old(rqs)@[this as int].cpu, k as int));
    assert(idle_pull(old(rqs)@, old(tasks)@, this_cpu as int, b as int, k as int));
    migrate_queued(rqs, tasks, b, this, k);
    true
}

} // verus!
