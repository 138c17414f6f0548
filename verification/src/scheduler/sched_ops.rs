//! Scheduler operations of a run queue over a task table: charging run time to the
//! running task, choosing the next task, switching the running task, and asking for
//! preemption. Tasks are named by handles into the table (`h` is entry `h - 1`, 0
//! is none).
use vstd::prelude::*;
use super::runqueue::{CfsRq, DlRq, RtRq, RunQueue, task_at, valid_handle, lowest_in, lemma_lowest_bounds, lemma_lowest_is,
    handles_valid, insert_point, placed_vruntime, dl_insert_point, dl_started, dl_first_period, dl_task_bw, queued, with_rt,
    with_on_rq, set_task_on_rq, pos_in};
use super::task::RtEntity;
use super::task::{TaskStruct, SchedEntity, DlEntity, SchedClass, accumulated, NEED_RESCHED, MAX_RT_PRIO};
use super::decide::{
    vruntime_delta, next_min_vruntime, fair_preempts, fair_vruntime_delta, fair_min_vruntime, should_preempt,
    dl_charged, dl_update_curr, DlBudget, PreemptView, preempts, check_preempt,
};

verus! {

/// A task with its fair-class entity replaced.
pub open spec fn with_se(t: TaskStruct, se: SchedEntity) -> TaskStruct {
    TaskStruct { se, ..t }
}

/// A task with its deadline entity replaced.
pub open spec fn with_dl(t: TaskStruct, dl: DlEntity) -> TaskStruct {
    TaskStruct { dl, ..t }
}

/// The fair entity after charging `delta_exec` at `now`.
pub open spec fn charged_se(se: SchedEntity, delta_exec: u64, now: u64) -> SchedEntity {
    SchedEntity {
        vruntime: se.vruntime.saturating_add(vruntime_delta(delta_exec, se.weight, se.inv_weight)),
        load: accumulated(se.load, now, delta_exec, se.weight, true),
        ..se
    }
}

/// The deadline entity after charging `delta_exec` at `now`.
pub open spec fn charged_dl(dl: DlEntity, delta_exec: u64, now: u64) -> DlEntity {
    let b = dl_charged(
        DlBudget { runtime: dl.runtime, deadline: dl.deadline, throttled: dl.throttled, replenish_at: dl.replenish_at },
        dl.dl_runtime,
        dl.dl_deadline,
        delta_exec,
        now,
    );
    DlEntity { runtime: b.runtime, deadline: b.deadline, throttled: b.throttled, replenish_at: b.replenish_at, ..dl }
}

/// The deadline budget arithmetic of a charge fits in 64 bits.
pub open spec fn dl_charge_fits(dl: DlEntity, delta_exec: u64) -> bool {
    i64::MIN <= dl.runtime - (delta_exec as i64) <= i64::MAX
}

/// Head of the best non-empty real-time list, or 0.
pub open spec fn rt_best_head(rt: RtRq) -> usize {
    let b = lowest_in(rt.queued_prios(), 0);
    if b < MAX_RT_PRIO {
        rt.head(b)
    } else {
        0
    }
}

/// The task a queue picks next: the first deadline task, else the best real-time
/// task, else the leftmost fair task, else the idle task.
pub open spec fn picked(rq: RunQueue) -> usize {
    if rq.dl.queue@.len() != 0 {
        rq.dl.leftmost_task()
    } else if rq.rt.nr_running != 0 {
        rt_best_head(rq.rt)
    } else if rq.fair.queue@.len() != 0 {
        rq.fair.leftmost_task()
    } else {
        rq.idle
    }
}

impl CfsRq {
    /// Charge `delta_exec` of running at `now` to `task`: advance its virtual time by
    /// its weighted run time, account its load, and move the queue's minimum virtual
    /// time (held near the leftmost task's).
    pub fn charge_exec(&mut self, tasks: &mut Vec<TaskStruct>, task: usize, delta_exec: u64, now: u64)
        requires
            valid_handle(old(tasks)@, task),
            old(self).leftmost_task() == 0 || valid_handle(old(tasks)@, old(self).leftmost_task()),
        ensures
            final(tasks)@ == old(tasks)@.update(
                task - 1,
                with_se(task_at(old(tasks)@, task), charged_se(task_at(old(tasks)@, task).se, delta_exec, now)),
            ),
            final(self).min_vruntime == next_min_vruntime(
                old(self).min_vruntime,
                task_at(final(tasks)@, task).se.vruntime,
                if old(self).leftmost_task() == 0 {
                    None::<u64>
                } else {
                    Some(task_at(final(tasks)@, old(self).leftmost_task()).se.vruntime)
                },
            ),
            final(self).queue@ == old(self).queue@,
            final(self).nr_running == old(self).nr_running,
            final(self).load_weight == old(self).load_weight,
    {
        let mut t = tasks.remove(task - 1);
        let delta_vrt = fair_vruntime_delta(delta_exec, t.se.weight, t.se.inv_weight);
        t.se.vruntime = t.se.vruntime.saturating_add(delta_vrt);
        let w = t.se.weight;
        t.se.load.accumulate(now, delta_exec, w, true);
        let v = t.se.vruntime;
        tasks.insert(task - 1, t);
        assert(tasks@ =~= old(tasks)@.update(
            task - 1,
            with_se(task_at(old(tasks)@, task), charged_se(task_at(old(tasks)@, task).se, delta_exec, now)),
        ));
        let first = self.pick_first();
        let key = if first == 0 {
            None
        } else {
            Some(tasks[first - 1].se.vruntime)
        };
        self.min_vruntime = fair_min_vruntime(self.min_vruntime, v, key);
    }

    /// Whether task `cand` should preempt the running fair task `curr`.
    pub fn should_preempt(&self, tasks: &Vec<TaskStruct>, curr: usize, cand: usize) -> (r: bool)
        requires
            valid_handle(tasks@, curr),
            valid_handle(tasks@, cand),
        ensures
            r == fair_preempts(
                task_at(tasks@, curr).se.vruntime,
                task_at(tasks@, curr).se.sum_exec_runtime,
                task_at(tasks@, curr).se.prev_sum_exec_runtime,
                task_at(tasks@, cand).se.vruntime,
            ),
    {
        let c = &tasks[curr - 1].se;
        should_preempt(c.vruntime, c.sum_exec_runtime, c.prev_sum_exec_runtime, tasks[cand - 1].se.vruntime)
    }
}

impl DlRq {
    /// Charge `delta_exec` at `now` to deadline task `task`: past its deadline it gets
    /// a new one and a full budget; with its budget spent it is throttled.
    pub fn update_curr(&mut self, tasks: &mut Vec<TaskStruct>, task: usize, delta_exec: u64, now: u64)
        requires
            valid_handle(old(tasks)@, task),
            dl_charge_fits(task_at(old(tasks)@, task).dl, delta_exec),
        ensures
            final(tasks)@ == old(tasks)@.update(
                task - 1,
                with_dl(task_at(old(tasks)@, task), charged_dl(task_at(old(tasks)@, task).dl, delta_exec, now)),
            ),
            *final(self) == *old(self),
    {
        let mut t = tasks.remove(task - 1);
        let b = dl_update_curr(
            DlBudget { runtime: t.dl.runtime, deadline: t.dl.deadline, throttled: t.dl.throttled, replenish_at: t.dl.replenish_at },
            t.dl.dl_runtime,
            t.dl.dl_deadline,
            delta_exec,
            now,
        );
        t.dl.runtime = b.runtime;
        t.dl.deadline = b.deadline;
        t.dl.throttled = b.throttled;
        t.dl.replenish_at = b.replenish_at;
        tasks.insert(task - 1, t);
        assert(tasks@ =~= old(tasks)@.update(
            task - 1,
            with_dl(task_at(old(tasks)@, task), charged_dl(task_at(old(tasks)@, task).dl, delta_exec, now)),
        ));
    }
}

/// The run time to charge to the running task: the task clock beyond its recorded
/// run time.
pub open spec fn curr_delta(rq: RunQueue, t: TaskStruct) -> u64 {
    rq.clock_task.saturating_sub(t.se.sum_exec_runtime)
}

/// The task with its run-time totals advanced by `delta`.
pub open spec fn with_runtime(t: TaskStruct, delta: u64) -> TaskStruct {
    with_se(t, SchedEntity { prev_sum_exec_runtime: t.se.sum_exec_runtime, sum_exec_runtime: t.se.sum_exec_runtime.saturating_add(delta), ..t.se })
}

impl RunQueue {
    /// The queue's handles name tasks of the table.
    pub open spec fn handles_ok(&self, tasks: Seq<TaskStruct>) -> bool {
        &&& self.curr == 0 || valid_handle(tasks, self.curr)
        &&& self.fair.leftmost_task() == 0 || valid_handle(tasks, self.fair.leftmost_task())
    }

    /// Charge the running task (unless it is the idle task) for the time since its
    /// last charge, by its class.
    pub fn update_curr(&mut self, tasks: &mut Vec<TaskStruct>)
        requires
            old(self).handles_ok(old(tasks)@),
            old(self).curr != 0 && old(self).curr != old(self).idle && task_at(old(tasks)@, old(self).curr).sched_class
                == SchedClass::Deadline ==> dl_charge_fits(
                task_at(old(tasks)@, old(self).curr).dl,
                curr_delta(*old(self), task_at(old(tasks)@, old(self).curr)),
            ),
        ensures
            final(self).curr == old(self).curr && final(self).idle == old(self).idle,
            final(self).clock_task == old(self).clock_task,
            final(self).fair.queue@ == old(self).fair.queue@,
            final(self).rt == old(self).rt && final(self).dl == old(self).dl && final(self).cpu == old(self).cpu,
            ({
                let c = old(self).curr;
                let t = task_at(old(tasks)@, c);
                let delta = curr_delta(*old(self), t);
                if c == 0 || c == old(self).idle || delta == 0 {
                    final(tasks)@ == old(tasks)@ && final(self).fair.min_vruntime == old(self).fair.min_vruntime
                } else {
                    let t1 = with_runtime(t, delta);
                    match t.sched_class {
                        SchedClass::Fair => final(tasks)@ == old(tasks)@.update(
                            c - 1,
                            with_se(t1, charged_se(t1.se, delta, old(self).clock_task)),
                        ),
                        SchedClass::Deadline => final(tasks)@ == old(tasks)@.update(
                            c - 1,
                            with_dl(t1, charged_dl(t1.dl, delta, old(self).clock_task)),
                        ) && final(self).fair.min_vruntime == old(self).fair.min_vruntime,
                        _ => final(tasks)@ == old(tasks)@.update(c - 1, t1) && final(self).fair.min_vruntime
                            == old(self).fair.min_vruntime,
                    }
                }
            }),
    {
        let curr = self.curr;
        if curr == 0 || curr == self.idle {
            return;
        }
        let now = self.clock_task;
        let delta = now.saturating_sub(tasks[curr - 1].se.sum_exec_runtime);
        if delta == 0 {
            return;
        }
        let mut t = tasks.remove(curr - 1);
        t.se.prev_sum_exec_runtime = t.se.sum_exec_runtime;
        t.se.sum_exec_runtime = t.se.sum_exec_runtime.saturating_add(delta);
        let class = t.sched_class;
        tasks.insert(curr - 1, t);
        assert(tasks@ =~= old(tasks)@.update(curr - 1, with_runtime(task_at(old(tasks)@, curr), delta)));
        match class {
            SchedClass::Fair => self.fair.charge_exec(tasks, curr, delta, now),
            SchedClass::Deadline => self.dl.update_curr(tasks, curr, delta, now),
            _ => {},
        }
    }

    /// The task to run next: the first deadline task, else the best real-time task,
    /// else the fair task with the least virtual time, else the idle task.
    pub fn pick_next_task(&self) -> (r: usize)
        requires
            self.rt.wf(),
        ensures
            r == picked(*self),
    {
        if !self.dl.is_empty() {
            return self.dl.pick_first();
        }
        if !self.rt.is_empty() {
            let r = self.rt.pick_first();
            proof {
                let q = self.rt.queued_prios();
                lemma_lowest_bounds(q, 0);
                if q == Set::<int>::empty() {
                    lemma_lowest_is(q, 0, MAX_RT_PRIO as int);
                } else {
                    let b = lowest_in(q, 0);
                    if b >= MAX_RT_PRIO {
                        let x = choose|x: int| q.contains(x);
                        assert(q.contains(x)) by {
                            assert(!(q =~= Set::<int>::empty()));
                        }
                    }
                }
            }
            return r;
        }
        if !self.fair.is_empty() {
            return self.fair.pick_first();
        }
        self.idle
    }

    /// Make `next` the running task: the previous one (if another task) leaves the CPU;
    /// `next` starts its slice now, loses any reschedule request, and runs on this CPU.
    /// Returns the previous task.
    pub fn set_curr_task(&mut self, tasks: &mut Vec<TaskStruct>, next: usize) -> (r: usize)
        requires
            old(self).curr == 0 || valid_handle(old(tasks)@, old(self).curr),
            valid_handle(old(tasks)@, next),
        ensures
            r == old(self).curr,
            final(self).curr == next,
            final(self).idle == old(self).idle && final(self).clock_task == old(self).clock_task,
            final(self).fair.queue@ == old(self).fair.queue@ && final(self).cpu == old(self).cpu,
            final(self).rt.wf() == old(self).rt.wf(),
            final(tasks)@.len() == old(tasks)@.len(),
            task_at(final(tasks)@, next).on_cpu && task_at(final(tasks)@, next).cpu == old(self).cpu,
            task_at(final(tasks)@, next).flags & NEED_RESCHED == 0,
            ({
                let prev = old(self).curr;
                let mid = if prev != 0 && prev != next {
                    old(tasks)@.update(prev - 1, TaskStruct { on_cpu: false, ..task_at(old(tasks)@, prev) })
                } else {
                    old(tasks)@
                };
                let n = task_at(mid, next);
                final(tasks)@ == mid.update(
                    next - 1,
                    TaskStruct {
                        se: SchedEntity { prev_sum_exec_runtime: old(self).clock_task, ..n.se },
                        flags: n.flags & !NEED_RESCHED,
                        on_cpu: true,
                        cpu: old(self).cpu,
                        ..n
                    },
                )
            }),
    {
        let prev = self.curr;
        if prev != 0 && prev != next {
            let mut p = tasks.remove(prev - 1);
            p.on_cpu = false;
            tasks.insert(prev - 1, p);
        }
        let ghost mid = tasks@;
        assert(mid =~= if prev != 0 && prev != next {
            old(tasks)@.update(prev - 1, TaskStruct { on_cpu: false, ..task_at(old(tasks)@, prev) })
        } else {
            old(tasks)@
        });
        let mut n = tasks.remove(next - 1);
        n.se.prev_sum_exec_runtime = self.clock_task;
        n.clear_need_resched();
        n.on_cpu = true;
        n.cpu = self.cpu;
        tasks.insert(next - 1, n);
        assert(tasks@ =~= mid.update(
            next - 1,
            TaskStruct {
                se: SchedEntity { prev_sum_exec_runtime: self.clock_task, ..task_at(mid, next).se },
                flags: task_at(mid, next).flags & !NEED_RESCHED,
                on_cpu: true,
                cpu: self.cpu,
                ..task_at(mid, next)
            },
        ));
        self.curr = next;
        prev
    }

    /// Charge the running task, pick the next one and switch to it; returns the
    /// previous and the next task.
    pub fn schedule(&mut self, tasks: &mut Vec<TaskStruct>) -> (r: (usize, usize))
        requires
            old(self).handles_ok(old(tasks)@),
            old(self).rt.wf(),
            old(self).curr != 0 && old(self).curr != old(self).idle && task_at(old(tasks)@, old(self).curr).sched_class
                == SchedClass::Deadline ==> dl_charge_fits(
                task_at(old(tasks)@, old(self).curr).dl,
                curr_delta(*old(self), task_at(old(tasks)@, old(self).curr)),
            ),
            valid_handle(old(tasks)@, picked(*old(self))),
        ensures
            r == (old(self).curr, picked(*old(self))),
            final(self).curr == picked(*old(self)),
            final(tasks)@.len() == old(tasks)@.len(),
            task_at(final(tasks)@, r.1).on_cpu,
            task_at(final(tasks)@, r.1).cpu == old(self).cpu,
            task_at(final(tasks)@, r.1).flags & NEED_RESCHED == 0,
    {
        self.update_curr(tasks);
        let next = self.pick_next_task();
        let prev = self.set_curr_task(tasks, next);
        (prev, next)
    }
}


/// What preemption looks at in a task.
pub open spec fn preempt_view(t: TaskStruct) -> PreemptView {
    PreemptView {
        class: t.sched_class,
        deadline: t.dl.deadline,
        prio: t.prio,
        vruntime: t.se.vruntime,
        sum_exec_runtime: t.se.sum_exec_runtime,
        prev_sum_exec_runtime: t.se.prev_sum_exec_runtime,
    }
}

fn view_of(t: &TaskStruct) -> (r: PreemptView)
    ensures
        r == preempt_view(*t),
{
    PreemptView {
        class: t.sched_class,
        deadline: t.dl.deadline,
        prio: t.prio,
        vruntime: t.se.vruntime,
        sum_exec_runtime: t.se.sum_exec_runtime,
        prev_sum_exec_runtime: t.se.prev_sum_exec_runtime,
    }
}

impl RunQueue {
    /// Ask the running task to reschedule when the woken task `cand` should preempt
    /// it.
    pub fn check_preempt(&self, tasks: &mut Vec<TaskStruct>, cand: usize)
        requires
            self.curr == 0 || valid_handle(old(tasks)@, self.curr),
            valid_handle(old(tasks)@, cand),
        ensures
            ({
                let c = self.curr;
                if c == 0 || c == cand || !preempts(preempt_view(task_at(old(tasks)@, c)), preempt_view(task_at(old(tasks)@, cand))) {
                    final(tasks)@ == old(tasks)@
                } else {
                    final(tasks)@ == old(tasks)@.update(
                        c - 1,
                        TaskStruct { flags: task_at(old(tasks)@, c).flags | NEED_RESCHED, ..task_at(old(tasks)@, c) },
                    )
                }
            }),
    {
        let curr = self.curr;
        if curr == 0 || curr == cand {
            return;
        }
        let cv = view_of(&tasks[curr - 1]);
        let nv = view_of(&tasks[cand - 1]);
        if check_preempt(&cv, &nv) {
            let mut t = tasks.remove(curr - 1);
            t.set_need_resched();
            tasks.insert(curr - 1, t);
            assert(tasks@ =~= old(tasks)@.update(
                curr - 1,
                TaskStruct { flags: task_at(old(tasks)@, curr).flags | NEED_RESCHED, ..task_at(old(tasks)@, curr) },
            ));
        }
    }
}

/// What queueing task `h` in the fair queue does, `f0`/`t0` before and `f1`/`t1`
/// after (as `CfsRq::enqueue` states it).
pub open spec fn fair_enqueued(f0: CfsRq, t0: Seq<TaskStruct>, f1: CfsRq, t1: Seq<TaskStruct>, h: usize, place: bool) -> bool {
    let t = task_at(t0, h);
    let v = placed_vruntime(t.se.vruntime, f0.min_vruntime, place);
    &&& t1 == t0.update(h - 1, TaskStruct { se: SchedEntity { vruntime: v, on_rq: true, ..t.se }, ..t })
    &&& exists|p: int| insert_point(f0.queue@, t0, v, p) && f1.queue@ == f0.queue@.insert(p, h)
    &&& f1.load_weight == f0.load_weight.saturating_add(t.se.weight)
    &&& f1.nr_running == f0.nr_running + 1
    &&& f1.min_vruntime == f0.min_vruntime
}

/// What queueing task `h` in the real-time queue does (as `RtRq::enqueue` states it).
pub open spec fn rt_enqueued(r0: RtRq, t0: Seq<TaskStruct>, r1: RtRq, t1: Seq<TaskStruct>, h: usize) -> bool {
    let p = task_at(t0, h).prio as int;
    let tail = r0.active_tail@[p];
    let t = task_at(t0, h);
    &&& r1.linked(t1)
    &&& t1.len() == t0.len()
    &&& r1.lists@ == r0.lists@.update(p, r0.lists@[p].push(h))
    &&& r1.nr_running == r0.nr_running + 1
    &&& task_at(t1, h) == with_on_rq(with_rt(t, RtEntity { list_prev: tail, list_next: 0, queued_prio: p as u32, ..t.rt }), true)
    &&& tail != 0 ==> task_at(t1, tail) == with_rt(task_at(t0, tail), RtEntity { list_next: h, ..task_at(t0, tail).rt })
    &&& forall|j: int| 0 <= j < t0.len() && j != h - 1 && (tail == 0 || j != tail - 1) ==> t1[j] == t0[j]
}

/// What queueing task `h` in the deadline queue at `now` does (as `DlRq::enqueue`
/// states it).
pub open spec fn dl_enqueued(d0: DlRq, t0: Seq<TaskStruct>, d1: DlRq, t1: Seq<TaskStruct>, h: usize, now: u64) -> bool {
    let t = task_at(t0, h);
    let dl = dl_started(t.dl, now);
    &&& t1 == t0.update(h - 1, TaskStruct { dl, se: SchedEntity { on_rq: true, ..t.se }, ..t })
    &&& exists|p: int| dl_insert_point(d0.queue@, t0, dl.deadline, p) && d1.queue@ == d0.queue@.insert(p, h)
    &&& d1.running_bw == if dl_first_period(t.dl) { d0.running_bw.saturating_add(dl_task_bw(t.dl)) } else { d0.running_bw }
    &&& d1.nr_running == d0.nr_running + 1
}

/// Task `h` may be queued on `rq` in its class: a deadline, real-time or fair task
/// that is not queued there yet, with room in the class's count.
pub open spec fn enqueue_ready(rq: RunQueue, tasks: Seq<TaskStruct>, h: usize) -> bool {
    &&& valid_handle(tasks, h)
    &&& match task_at(tasks, h).sched_class {
        SchedClass::Deadline => handles_valid(rq.dl.queue@, tasks) && !rq.dl.queue@.contains(h) && rq.dl.nr_running < u32::MAX,
        SchedClass::RealTime => rq.rt.linked(tasks) && 0 <= task_at(tasks, h).prio < MAX_RT_PRIO && !queued(rq.rt.lists@, h)
            && rq.rt.nr_running < u32::MAX,
        SchedClass::Fair => handles_valid(rq.fair.queue@, tasks) && !rq.fair.queue@.contains(h) && rq.fair.nr_running < u32::MAX,
        _ => true,
    }
}

/// `(q1, t1)` is `(q0, t0)` with task `h` queued in its class (fair tasks placed
/// against the queue's minimum, deadline tasks started at the queue's clock); a task
/// of another class is only marked queued.
pub open spec fn class_enqueued(q0: RunQueue, t0: Seq<TaskStruct>, q1: RunQueue, t1: Seq<TaskStruct>, h: usize) -> bool {
    match task_at(t0, h).sched_class {
        SchedClass::Deadline => dl_enqueued(q0.dl, t0, q1.dl, t1, h, q0.clock) && q1.rt == q0.rt && q1.fair == q0.fair,
        SchedClass::RealTime => rt_enqueued(q0.rt, t0, q1.rt, t1, h) && q1.dl == q0.dl && q1.fair == q0.fair,
        SchedClass::Fair => fair_enqueued(q0.fair, t0, q1.fair, t1, h, true) && q1.dl == q0.dl && q1.rt == q0.rt,
        _ => t1 == t0.update(h - 1, with_on_rq(task_at(t0, h), true)) && q1.dl == q0.dl && q1.rt == q0.rt
            && q1.fair == q0.fair,
    }
}

/// Queues `a` and `b` agree outside their class queues and task count.
pub open spec fn same_frame(a: RunQueue, b: RunQueue) -> bool {
    &&& a.lock == b.lock && a.cpu == b.cpu && a.online == b.online && a.clock == b.clock
    &&& a.clock_task == b.clock_task && a.curr == b.curr && a.idle == b.idle && a.stats == b.stats
}

impl RunQueue {
    /// Queue task `h` in its class, record `rq_addr` (this queue's address) as the
    /// task's queue, and count it (wrapping).
    pub fn enqueue_task(&mut self, tasks: &mut Vec<TaskStruct>, h: usize, rq_addr: usize)
        requires
            enqueue_ready(*old(self), old(tasks)@, h),
        ensures
            same_frame(*old(self), *final(self)),
            final(self).nr_running == old(self).nr_running.wrapping_add(1),
            exists|mid: Seq<TaskStruct>| #[trigger] class_enqueued(*old(self), old(tasks)@, *final(self), mid, h)
                && final(tasks)@ == mid.update(h - 1, TaskStruct { rq: rq_addr, ..mid[h - 1] }),
    {
        let class = tasks[h - 1].sched_class;
        let now = self.clock;
        match class {
            SchedClass::Deadline => self.dl.enqueue(tasks, h, now),
            SchedClass::RealTime => self.rt.enqueue(tasks, h),
            SchedClass::Fair => self.fair.enqueue(tasks, h, true),
            _ => set_task_on_rq(tasks, h, true),
        }
        let ghost mid = tasks@;
        assert(class_enqueued(*old(self), old(tasks)@, *self, mid, h));
        let mut t = tasks.remove(h - 1);
        t.set_rq_ptr(rq_addr);
        tasks.insert(h - 1, t);
        assert(tasks@ =~= mid.update(h - 1, TaskStruct { rq: rq_addr, ..mid[h - 1] }));
        self.nr_running = self.nr_running.wrapping_add(1);
        assert(class_enqueued(*old(self), old(tasks)@, *self, mid, h));
    }
}

/// What taking task `h` out of the fair queue does (as `CfsRq::dequeue` states it).
pub open spec fn fair_dequeued(f0: CfsRq, t0: Seq<TaskStruct>, f1: CfsRq, t1: Seq<TaskStruct>, h: usize) -> bool {
    &&& t1 == t0.update(h - 1, with_on_rq(task_at(t0, h), false))
    &&& exists|i: int| 0 <= i < f0.queue@.len() && f0.queue@[i] == h && (forall|j: int| 0 <= j < i ==> f0.queue@[j] != h)
        && f1.queue@ == f0.queue@.remove(i)
    &&& f1.load_weight == f0.load_weight.saturating_sub(task_at(t0, h).se.weight)
    &&& f1.nr_running == f0.nr_running.saturating_sub(1)
    &&& f1.min_vruntime == f0.min_vruntime
}

/// What taking task `h` out of the real-time queue does (as `RtRq::dequeue` states it).
pub open spec fn rt_dequeued(r0: RtRq, t0: Seq<TaskStruct>, r1: RtRq, t1: Seq<TaskStruct>, h: usize) -> bool {
    let t = task_at(t0, h);
    let p = t.rt.queued_prio as int;
    let i = pos_in(r0.lists@, p, h);
    let prev = t.rt.list_prev;
    let next = t.rt.list_next;
    &&& r1.linked(t1)
    &&& t1.len() == t0.len()
    &&& 0 <= p < MAX_RT_PRIO && 0 <= i < r0.lists@[p].len() && r0.lists@[p][i] == h
    &&& r1.lists@ == r0.lists@.update(p, r0.lists@[p].remove(i))
    &&& r1.nr_running == r0.nr_running.saturating_sub(1)
    &&& task_at(t1, h) == with_on_rq(with_rt(t, RtEntity { queued_prio: MAX_RT_PRIO as u32, ..t.rt }), false)
    &&& prev != 0 ==> task_at(t1, prev) == with_rt(task_at(t0, prev), RtEntity { list_next: next, ..task_at(t0, prev).rt })
    &&& next != 0 ==> task_at(t1, next) == with_rt(task_at(t0, next), RtEntity { list_prev: prev, ..task_at(t0, next).rt })
    &&& forall|j: int| 0 <= j < t0.len() && j != h - 1 && (prev == 0 || j != prev - 1) && (next == 0 || j != next - 1)
        ==> t1[j] == t0[j]
}

/// What taking task `h` out of the deadline queue for good does (as `DlRq::dequeue`
/// states it).
pub open spec fn dl_dequeued(d0: DlRq, t0: Seq<TaskStruct>, d1: DlRq, t1: Seq<TaskStruct>, h: usize) -> bool {
    &&& t1 == t0.update(h - 1, with_on_rq(task_at(t0, h), false))
    &&& exists|i: int| 0 <= i < d0.queue@.len() && d0.queue@[i] == h && (forall|j: int| 0 <= j < i ==> d0.queue@[j] != h)
        && d1.queue@ == d0.queue@.remove(i)
    &&& d1.nr_running == d0.nr_running.saturating_sub(1)
    &&& d1.running_bw == d0.running_bw.saturating_sub(dl_task_bw(task_at(t0, h).dl))
}

/// Task `h` is queued on `rq` in its class.
pub open spec fn dequeue_ready(rq: RunQueue, tasks: Seq<TaskStruct>, h: usize) -> bool {
    &&& valid_handle(tasks, h)
    &&& match task_at(tasks, h).sched_class {
        SchedClass::Deadline => rq.dl.queue@.contains(h),
        SchedClass::RealTime => rq.rt.linked(tasks) && queued(rq.rt.lists@, h),
        SchedClass::Fair => handles_valid(rq.fair.queue@, tasks) && rq.fair.queue@.contains(h),
        _ => true,
    }
}

/// `(q1, t1)` is `(q0, t0)` with task `h` taken out of its class's queue (a deadline
/// task's bandwidth released); a task of another class is only marked not queued.
pub open spec fn class_dequeued(q0: RunQueue, t0: Seq<TaskStruct>, q1: RunQueue, t1: Seq<TaskStruct>, h: usize) -> bool {
    match task_at(t0, h).sched_class {
        SchedClass::Deadline => dl_dequeued(q0.dl, t0, q1.dl, t1, h) && q1.rt == q0.rt && q1.fair == q0.fair,
        SchedClass::RealTime => rt_dequeued(q0.rt, t0, q1.rt, t1, h) && q1.dl == q0.dl && q1.fair == q0.fair,
        SchedClass::Fair => fair_dequeued(q0.fair, t0, q1.fair, t1, h) && q1.dl == q0.dl && q1.rt == q0.rt,
        _ => t1 == t0.update(h - 1, with_on_rq(task_at(t0, h), false)) && q1.dl == q0.dl && q1.rt == q0.rt
            && q1.fair == q0.fair,
    }
}

impl RunQueue {
    /// Take task `h` out of its class's queue (for good), clear its queue record,
    /// and count it off (wrapping).
    pub fn dequeue_task(&mut self, tasks: &mut Vec<TaskStruct>, h: usize)
        requires
            dequeue_ready(*old(self), old(tasks)@, h),
        ensures
            same_frame(*old(self), *final(self)),
            final(self).nr_running == old(self).nr_running.wrapping_sub(1),
            exists|mid: Seq<TaskStruct>| #[trigger] class_dequeued(*old(self), old(tasks)@, *final(self), mid, h)
                && final(tasks)@ == mid.update(h - 1, TaskStruct { rq: 0, ..mid[h - 1] }),
    {
        let class = tasks[h - 1].sched_class;
        match class {
            SchedClass::Deadline => self.dl.dequeue(tasks, h, true),
            SchedClass::RealTime => self.rt.dequeue(tasks, h),
            SchedClass::Fair => self.fair.dequeue(tasks, h),
            _ => set_task_on_rq(tasks, h, false),
        }
        let ghost mid = tasks@;
        assert(class_dequeued(*old(self), old(tasks)@, *self, mid, h));
        let mut t = tasks.remove(h - 1);
        t.set_rq_ptr(0);
        tasks.insert(h - 1, t);
        assert(tasks@ =~= mid.update(h - 1, TaskStruct { rq: 0, ..mid[h - 1] }));
        self.nr_running = self.nr_running.wrapping_sub(1);
        assert(class_dequeued(*old(self), old(tasks)@, *self, mid, h));
    }
}

} // verus!
