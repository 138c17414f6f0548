//! Moving fair tasks between run queues, and pulling work to an idle CPU: the
//! busiest other online queue gives up its first fair task, other than the running
//! one, that is allowed on the idle CPU.
use vstd::prelude::*;
use super::decide::{RqLoad, busiest_spec, find_busiest, should_pull};
use super::runqueue::{RunQueue, task_at, valid_handle, handles_valid, insert_point, fair_key, key_sorted, placed_vruntime};
use super::task::{TaskStruct, SchedEntity};

verus! {

/// The loads the balancer sees: every queue of the table, with whether it is online
/// and how many tasks it holds.
pub open spec fn rq_loads(rqs: Seq<RunQueue>) -> Seq<Option<RqLoad>> {
    Seq::new(rqs.len(), |i: int| Some(RqLoad { online: rqs[i].online, nr_running: rqs[i].nr_running }))
}

/// The loads of all queues, as the balancer sees them.
pub(crate) fn queue_loads(rqs: &Vec<RunQueue>) -> (r: Vec<Option<RqLoad>>)
    ensures
        r@ == rq_loads(rqs@),
{
    let mut loads: Vec<Option<RqLoad>> = Vec::new();
    let mut i: usize = 0;
    while i < rqs.len()
        invariant
            i <= rqs@.len(),
            loads@ == rq_loads(rqs@).subrange(0, i as int),
        decreases rqs@.len() - i,
    {
        loads.push(Some(RqLoad { online: rqs[i].online, nr_running: rqs[i].nr_running }));
        i = i + 1;
        assert(loads@ =~= rq_loads(rqs@).subrange(0, i as int));
    }
    assert(loads@ =~= rq_loads(rqs@));
    loads
}

/// The fair queue of every run queue is consistent with the task table: it names
/// tasks of the table, once each, in order of virtual run time, and its count is its
/// length; no task is queued on two CPUs; every task's CPU mask is well-formed.
pub open spec fn fair_ready(rqs: Seq<RunQueue>, tasks: Seq<TaskStruct>) -> bool {
    &&& forall|i: int| 0 <= i < rqs.len() ==> {
        let f = #[trigger] rqs[i].fair;
        &&& handles_valid(f.queue@, tasks)
        &&& f.queue@.no_duplicates()
        &&& key_sorted(f.queue@, tasks)
        &&& f.nr_running as int == f.queue@.len()
    }
    &&& forall|i: int, j: int, h: usize| 0 <= i < rqs.len() && 0 <= j < rqs.len() && i != j
        && #[trigger] rqs[i].fair.queue@.contains(h) ==> !(#[trigger] rqs[j].fair.queue@.contains(h))
    &&& forall|i: int| 0 <= i < tasks.len() ==> (#[trigger] tasks[i]).se.cpus_allowed.wf()
}

/// Changing tasks in ways that keep their virtual time and CPU mask keeps the fair
/// queues consistent.
pub proof fn lemma_fair_ready_retask(rqs: Seq<RunQueue>, t0: Seq<TaskStruct>, t1: Seq<TaskStruct>)
    requires
        fair_ready(rqs, t0),
        t1.len() == t0.len(),
        forall|i: int| 0 <= i < t0.len() ==> (#[trigger] t1[i]).se.vruntime == t0[i].se.vruntime
            && t1[i].se.cpus_allowed == t0[i].se.cpus_allowed,
    ensures
        fair_ready(rqs, t1),
{
    assert forall|i: int| 0 <= i < rqs.len() implies key_sorted(#[trigger] rqs[i].fair.queue@, t1) && handles_valid(
        rqs[i].fair.queue@,
        t1,
    ) by {
        let q = rqs[i].fair.queue@;
        assert forall|j: int| 0 <= j < q.len() implies fair_key(t1, #[trigger] q[j]) == fair_key(t0, q[j]) by {
            assert(valid_handle(t0, q[j]));
            assert(t1[q[j] - 1].se.vruntime == t0[q[j] - 1].se.vruntime);
        }
        assert(key_sorted(q, t0));
    }
    assert forall|i: int| 0 <= i < t1.len() implies (#[trigger] t1[i]).se.cpus_allowed.wf() by {
        assert(t0[i].se.cpus_allowed.wf());
    }
}

/// The fair queues are all that consistency looks at.
pub proof fn lemma_fair_ready_same_queues(r0: Seq<RunQueue>, r1: Seq<RunQueue>, tasks: Seq<TaskStruct>)
    requires
        fair_ready(r0, tasks),
        r1.len() == r0.len(),
        forall|i: int| 0 <= i < r0.len() ==> (#[trigger] r1[i]).fair == r0[i].fair,
    ensures
        fair_ready(r1, tasks),
{
    assert forall|i: int, j: int, h: usize| 0 <= i < r1.len() && 0 <= j < r1.len() && i != j
        && #[trigger] r1[i].fair.queue@.contains(h) implies !(#[trigger] r1[j].fair.queue@.contains(h)) by {
        assert(r1[i].fair == r0[i].fair && r1[j].fair == r0[j].fair);
    }
    assert forall|i: int| 0 <= i < r1.len() implies {
        let f = #[trigger] r1[i].fair;
        &&& handles_valid(f.queue@, tasks)
        &&& f.queue@.no_duplicates()
        &&& key_sorted(f.queue@, tasks)
        &&& f.nr_running as int == f.queue@.len()
    } by {
        assert(r1[i].fair == r0[i].fair);
    }
}

/// Queues `a` and `b` agree on everything but the fair queue and the task count.
pub open spec fn same_outside_fair(a: RunQueue, b: RunQueue) -> bool {
    &&& a.lock == b.lock && a.cpu == b.cpu && a.online == b.online
    &&& a.clock == b.clock && a.clock_task == b.clock_task
    &&& a.rt == b.rt && a.dl == b.dl && a.curr == b.curr && a.idle == b.idle && a.stats == b.stats
    &&& a.fair.min_vruntime == b.fair.min_vruntime
}

/// `r1` is `r0` with entry `k` of queue `b`'s fair order moved to queue `d` with
/// virtual time `v`: out of `b`'s order, into `d`'s after every task of no greater
/// virtual time, the fair counts and weights adjusted (saturating), and nothing else
/// of the queues but their task counts changed.
pub open spec fn fair_moved(r0: Seq<RunQueue>, t0: Seq<TaskStruct>, r1: Seq<RunQueue>, b: int, d: int, k: int, v: u64) -> bool {
    let h = r0[b].fair.queue@[k];
    let t = task_at(t0, h);
    &&& r1.len() == r0.len()
    &&& forall|i: int| 0 <= i < r0.len() && i != b && i != d ==> r1[i] == r0[i]
    &&& same_outside_fair(r0[b], r1[b]) && same_outside_fair(r0[d], r1[d])
    &&& r1[b].fair.queue@ == r0[b].fair.queue@.remove(k)
    &&& r1[b].fair.nr_running == r0[b].fair.nr_running - 1
    &&& r1[b].fair.load_weight == r0[b].fair.load_weight.saturating_sub(t.se.weight)
    &&& exists|p: int| insert_point(r0[d].fair.queue@, t0, v, p) && r1[d].fair.queue@ == r0[d].fair.queue@.insert(p, h)
    &&& r1[d].fair.nr_running == r0[d].fair.nr_running + 1
    &&& r1[d].fair.load_weight == r0[d].fair.load_weight.saturating_add(t.se.weight)
}

/// Task `t` queued again with virtual time `v`.
pub open spec fn requeued_task(t: TaskStruct, v: u64) -> TaskStruct {
    TaskStruct { se: SchedEntity { vruntime: v, on_rq: true, ..t.se }, ..t }
}

/// Move entry `k` of queue `b`'s fair order to queue `d`'s, placing its virtual time
/// there when `place`.
#[verifier::rlimit(100)]
#[verifier::spinoff_prover]
pub(crate) fn move_fair(rqs: &mut Vec<RunQueue>, tasks: &mut Vec<TaskStruct>, b: usize, d: usize, k: usize, place: bool)
    requires
        fair_ready(old(rqs)@, old(tasks)@),
        b < old(rqs)@.len() && d < old(rqs)@.len() && b != d,
        k < old(rqs)@[b as int].fair.queue@.len(),
        old(rqs)@[d as int].fair.nr_running < u32::MAX,
    ensures
        fair_ready(final(rqs)@, final(tasks)@),
        ({
            let h = old(rqs)@[b as int].fair.queue@[k as int];
            let t = task_at(old(tasks)@, h);
            let v = placed_vruntime(t.se.vruntime, old(rqs)@[d as int].fair.min_vruntime, place);
            &&& fair_moved(old(rqs)@, old(tasks)@, final(rqs)@, b as int, d as int, k as int, v)
            &&& final(rqs)@[b as int].nr_running == old(rqs)@[b as int].nr_running
            &&& final(rqs)@[d as int].nr_running == old(rqs)@[d as int].nr_running
            &&& final(tasks)@ == old(tasks)@.update(h - 1, requeued_task(t, v))
        }),
{
    let h = rqs[b].fair.queue[k];
    let ghost r0 = rqs@;
    let ghost t0 = tasks@;
    proof {
        assert(handles_valid(r0[b as int].fair.queue@, t0));
        assert(valid_handle(t0, h));
        assert(r0[b as int].fair.queue@.contains(h));
        assert(r0[b as int].fair.queue@.no_duplicates());
    }
    rqs[b].fair.dequeue(tasks, h);
    let ghost t_mid = tasks@;
    proof {
        assert(rqs@[d as int] == r0[d as int]);
        assert(!r0[d as int].fair.queue@.contains(h));
        assert(handles_valid(r0[d as int].fair.queue@, t0));
    }
    rqs[d].fair.enqueue(tasks, h, place);
    proof {
        let ti = task_at(t0, h);
        let v = placed_vruntime(ti.se.vruntime, r0[d as int].fair.min_vruntime, place);
        assert(tasks@ =~= t0.update(h - 1, requeued_task(ti, v)));
        assert(fair_moved(r0, t0, rqs@, b as int, d as int, k as int, v));
        let r1 = rqs@;
        let qb0 = r0[b as int].fair.queue@;
        let qd0 = r0[d as int].fair.queue@;
        let qb1 = r1[b as int].fair.queue@;
        let qd1 = r1[d as int].fair.queue@;
        let p = choose|p: int| insert_point(qd0, t0, v, p) && qd1 == qd0.insert(p, h);
        assert forall|x: usize| #[trigger] qb1.contains(x) implies qb0.contains(x) && x != h by {
            let j = choose|j: int| 0 <= j < qb1.len() && qb1[j] == x;
            if j < k {
                assert(qb1[j] == qb0[j]);
            } else {
                assert(qb1[j] == qb0[j + 1]);
            }
        }
        assert forall|x: usize| #[trigger] qd1.contains(x) implies qd0.contains(x) || x == h by {
            let j = choose|j: int| 0 <= j < qd1.len() && qd1[j] == x;
            if j < p {
                assert(qd1[j] == qd0[j]);
            } else if j > p {
                assert(qd1[j] == qd0[j - 1]);
            }
        }
        assert(qb1.no_duplicates()) by {
            assert forall|i: int, j: int| 0 <= i < qb1.len() && 0 <= j < qb1.len() && i != j implies qb1[i] != qb1[j] by {
                let i0 = if i < k { i } else { i + 1 };
                let j0 = if j < k { j } else { j + 1 };
                assert(qb1[i] == qb0[i0] && qb1[j] == qb0[j0]);
            }
        }
        assert(qd1.no_duplicates()) by {
            assert forall|i: int, j: int| 0 <= i < qd1.len() && 0 <= j < qd1.len() && i != j implies qd1[i] != qd1[j] by {
                if i != p && j != p {
                    let i0 = if i < p { i } else { i - 1 };
                    let j0 = if j < p { j } else { j - 1 };
                    assert(qd1[i] == qd0[i0] && qd1[j] == qd0[j0]);
                } else if i == p {
                    let j0 = if j < p { j } else { j - 1 };
                    assert(qd1[j] == qd0[j0]);
                    assert(qd0.contains(qd0[j0]));
                } else {
                    let i0 = if i < p { i } else { i - 1 };
                    assert(qd1[i] == qd0[i0]);
                    assert(qd0.contains(qd0[i0]));
                }
            }
        }
        assert(key_sorted(qb1, t_mid));
        assert forall|j: int| 0 <= j < qb1.len() implies fair_key(tasks@, #[trigger] qb1[j]) == fair_key(t_mid, qb1[j])
            && valid_handle(tasks@, qb1[j]) by {
            assert(qb0.contains(qb1[j]) && qb1[j] != h);
        }
        assert(key_sorted(qb1, tasks@));
        assert forall|i: int| 0 <= i < r1.len() implies {
            let f = #[trigger] r1[i].fair;
            &&& handles_valid(f.queue@, tasks@)
            &&& f.queue@.no_duplicates()
            &&& key_sorted(f.queue@, tasks@)
            &&& f.nr_running as int == f.queue@.len()
        } by {
            if i != b && i != d {
                assert(r1[i] == r0[i]);
                let q = r0[i].fair.queue@;
                assert forall|j: int| 0 <= j < q.len() implies valid_handle(tasks@, #[trigger] q[j])
                    && fair_key(tasks@, q[j]) == fair_key(t0, q[j]) by {
                    assert(valid_handle(t0, q[j]));
                    assert(q.contains(q[j]));
                }
                assert(key_sorted(q, t0));
            }
        }
        assert forall|i: int, j: int, x: usize| 0 <= i < r1.len() && 0 <= j < r1.len() && i != j
            && #[trigger] r1[i].fair.queue@.contains(x) implies !(#[trigger] r1[j].fair.queue@.contains(x)) by {
            if r1[j].fair.queue@.contains(x) {
                if i != b && i != d {
                    assert(r1[i] == r0[i]);
                }
                if j != b && j != d {
                    assert(r1[j] == r0[j]);
                }
                if x == h {
                    assert(i == d as int || j == d as int);
                    if i != d as int {
                        assert(r0[i].fair.queue@.contains(h));
                    } else {
                        assert(r0[j].fair.queue@.contains(h));
                    }
                }
            }
        }
        assert forall|i: int| 0 <= i < tasks@.len() implies (#[trigger] tasks@[i]).se.cpus_allowed.wf() by {
            assert(t0[i].se.cpus_allowed.wf());
        }
    }
}

/// Entry `k` of queue `rq`'s fair order is the first task there, other than the
/// running one, whose CPU mask allows `cpu`.
pub open spec fn first_pullable(rq: RunQueue, tasks: Seq<TaskStruct>, cpu: u32, k: int) -> bool {
    let q = rq.fair.queue@;
    &&& 0 <= k < q.len()
    &&& q[k] != rq.curr && task_at(tasks, q[k]).se.cpus_allowed@.contains(cpu as int)
    &&& forall|j: int| 0 <= j < k ==> !(q[j] != rq.curr && (#[trigger] task_at(tasks, q[j])).se.cpus_allowed@.contains(
        cpu as int,
    ))
}

/// The position in `src`'s fair order of the first task, other than the running one,
/// allowed on `cpu`.
pub fn find_pullable(src: &RunQueue, tasks: &Vec<TaskStruct>, cpu: u32) -> (r: Option<usize>)
    requires
        handles_valid(src.fair.queue@, tasks@),
        forall|i: int| 0 <= i < tasks@.len() ==> (#[trigger] tasks@[i]).se.cpus_allowed.wf(),
    ensures
        match r {
            Some(k) => first_pullable(*src, tasks@, cpu, k as int),
            None => forall|k: int| !first_pullable(*src, tasks@, cpu, k),
        },
{
    let mut k: usize = 0;
    while k < src.fair.queue.len()
        invariant
            k <= src.fair.queue@.len(),
            handles_valid(src.fair.queue@, tasks@),
            forall|i: int| 0 <= i < tasks@.len() ==> (#[trigger] tasks@[i]).se.cpus_allowed.wf(),
            forall|j: int| 0 <= j < k ==> !(src.fair.queue@[j] != src.curr && (#[trigger] task_at(
                tasks@,
                src.fair.queue@[j],
            )).se.cpus_allowed@.contains(cpu as int)),
        decreases src.fair.queue@.len() - k,
    {
        let h = src.fair.queue[k];
        assert(valid_handle(tasks@, src.fair.queue@[k as int]));
        assert(tasks@[h - 1].se.cpus_allowed.wf());
        if h != src.curr && tasks[h - 1].se.cpus_allowed.test(cpu) {
            return Some(k);
        }
        k = k + 1;
    }
    None
}

/// At most one queue is the busiest.
pub proof fn lemma_busiest_unique(registry: Seq<Option<RqLoad>>, this: int, b1: usize, b2: usize)
    requires
        busiest_spec(registry, this, Some(b1)),
        busiest_spec(registry, this, Some(b2)),
    ensures
        b1 == b2,
{
}

/// Queue `this` (of CPU `this_cpu`) pulls entry `k` of queue `b`'s fair order: `b`
/// is the busiest other online queue with more than one task, it holds more than one
/// task beyond `this` (the sum saturating), and `k` is its first task, other than the
/// running one, allowed on `this_cpu`.
pub open spec fn pull_choice(rqs: Seq<RunQueue>, tasks: Seq<TaskStruct>, this_cpu: u32, b: int, k: int) -> bool {
    &&& 0 <= b < rqs.len()
    &&& busiest_spec(rq_loads(rqs), this_cpu as int, Some(b as usize))
    &&& rqs[b].nr_running > rqs[this_cpu as int].nr_running.saturating_add(1)
    &&& first_pullable(rqs[b], tasks, this_cpu, k)
}

/// Task `t` pulled to `this_cpu` and queued there with virtual time `v`: the CPU is
/// recorded as its last one and one more migration is counted (wrapping).
pub open spec fn pulled_task(t: TaskStruct, v: u64, this_cpu: u32) -> TaskStruct {
    TaskStruct {
        se: SchedEntity {
            vruntime: v,
            on_rq: true,
            last_cpu: this_cpu,
            nr_migrations: t.se.nr_migrations.wrapping_add(1),
            ..t.se
        },
        ..t
    }
}

/// `(r1, t1)` is `(r0, t0)` with entry `k` of queue `b`'s fair order pulled to queue
/// `this_cpu`, its virtual time brought up to that queue's minimum, marked as pulled
/// there, and the task counts of the queues kept.
pub open spec fn pulled_from(r0: Seq<RunQueue>, t0: Seq<TaskStruct>, r1: Seq<RunQueue>, t1: Seq<TaskStruct>, this_cpu: u32, b: int, k: int) -> bool {
    let h = r0[b].fair.queue@[k];
    let t = task_at(t0, h);
    let v = placed_vruntime(t.se.vruntime, r0[this_cpu as int].fair.min_vruntime, true);
    &&& fair_moved(r0, t0, r1, b, this_cpu as int, k, v)
    &&& r1[b].nr_running == r0[b].nr_running
    &&& r1[this_cpu as int].nr_running == r0[this_cpu as int].nr_running
    &&& t1 == t0.update(h - 1, pulled_task(t, v, this_cpu))
}

/// Balancing for the idle CPU `this_cpu`, whose queue is entry `this_cpu`: when the
/// busiest other online queue holds more than one task beyond this one, move its
/// first fair task, other than the running one, that is allowed here; it is queued
/// here (its virtual time brought up to this queue's minimum) with this CPU as its
/// last one and one more migration. The queues' task counts are left as they were.
/// Returns whether a task was pulled.
pub fn idle_balance(this_cpu: u32, rqs: &mut Vec<RunQueue>, tasks: &mut Vec<TaskStruct>) -> (pulled: bool)
    requires
        fair_ready(old(rqs)@, old(tasks)@),
        this_cpu < old(rqs)@.len(),
        old(rqs)@[this_cpu as int].fair.nr_running < u32::MAX,
    ensures
        fair_ready(final(rqs)@, final(tasks)@),
        pulled <==> exists|b: int, k: int| pull_choice(old(rqs)@, old(tasks)@, this_cpu, b, k),
        !pulled ==> final(rqs)@ == old(rqs)@ && final(tasks)@ == old(tasks)@,
        pulled ==> exists|b: int, k: int| pull_choice(old(rqs)@, old(tasks)@, this_cpu, b, k)
            && pulled_from(old(rqs)@, old(tasks)@, final(rqs)@, final(tasks)@, this_cpu, b, k),
{
    let this = this_cpu as usize;
    let loads = queue_loads(rqs);
    let b = match find_busiest(&loads, this) {
        None => {
            return false;
        },
        Some(b) => b,
    };
    proof {
        assert forall|x: int, y: int| #[trigger] pull_choice(old(rqs)@, old(tasks)@, this_cpu, x, y) implies x == b by {
            lemma_busiest_unique(rq_loads(old(rqs)@), this as int, b, x as usize);
        }
        assert(rq_loads(old(rqs)@)[b as int] == Some(RqLoad { online: old(rqs)@[b as int].online, nr_running: old(rqs)@[b as int].nr_running }));
    }
    if !should_pull(rqs[b].nr_running, rqs[this].nr_running) {
        return false;
    }
    assert(handles_valid(rqs@[b as int].fair.queue@, tasks@));
    let k = match find_pullable(&rqs[b], tasks, this_cpu) {
        None => {
            return false;
        },
        Some(k) => k,
    };
    proof {
        assert forall|x: int| #[trigger] first_pullable(old(rqs)@[b as int], old(tasks)@, this_cpu, x) implies x == k by {
            if x < k {
            } else if k < x {
            }
        }
    }
    assert(busiest_spec(rq_loads(old(rqs)@), this_cpu as int, Some(b)));
    assert(pull_choice(old(rqs)@, old(tasks)@, this_cpu, b as int, k as int));
    let h = rqs[b].fair.queue[k];
    move_fair(rqs, tasks, b, this, k, true);
    let ghost t1 = tasks@;
    assert(handles_valid(old(rqs)@[b as int].fair.queue@, old(tasks)@));
    assert(valid_handle(old(tasks)@, h));
    let mut t = tasks.remove(h - 1);
    t.se.last_cpu = this_cpu;
    t.se.nr_migrations = t.se.nr_migrations.wrapping_add(1);
    tasks.insert(h - 1, t);
    proof {
        let ti = task_at(old(tasks)@, h);
        let v = placed_vruntime(ti.se.vruntime, old(rqs)@[this as int].fair.min_vruntime, true);
        assert(tasks@ =~= old(tasks)@.update(h - 1, pulled_task(ti, v, this_cpu)));
        assert forall|i: int| 0 <= i < t1.len() implies (#[trigger] tasks@[i]).se.vruntime == t1[i].se.vruntime
            && tasks@[i].se.cpus_allowed == t1[i].se.cpus_allowed by {}
        lemma_fair_ready_retask(rqs@, t1, tasks@);
        assert(pulled_from(old(rqs)@, old(tasks)@, rqs@, tasks@, this_cpu, b as int, k as int));
    }
    true
}

} // verus!
