//! Per-CPU run queues: the fair, real-time and deadline queue heads, the clock, and
//! switch and time counters. Task links are task addresses held as integers, 0
//! standing for none.
use vstd::prelude::*;
use super::task::{SpinLock, MAX_RT_PRIO, TaskStruct, RtEntity, DlEntity};
use super::words::{word_bit, next_set_from, update_bit};

verus! {

/// Shortest slice a fair task runs before it can be preempted.
pub const MIN_GRANULARITY_NS: u64 = 750_000;

/// Period over which every fair task should run once.
pub const TARGET_LATENCY_NS: u64 = 6_000_000;

/// Words of the real-time priority bitmap.
pub const RT_BITMAP_WORDS: usize = 2;

/// Fair-class queue: the queued tasks in order of virtual run time, tasks of equal
/// virtual time in the order they were queued.
pub struct CfsRq {
    pub queue: Vec<usize>,
    pub nr_running: u32,
    pub load_weight: u64,
    pub min_vruntime: u64,
}

impl Default for CfsRq {
    fn default() -> (r: Self)
        ensures
            r.queue@ == Seq::<usize>::empty() && r.nr_running == 0 && r.load_weight == 0 && r.min_vruntime == 0,
    {
        CfsRq { queue: Vec::new(), nr_running: 0, load_weight: 0, min_vruntime: 0 }
    }
}

/// The key the fair queue orders task `h` by: its virtual run time.
pub open spec fn fair_key(tasks: Seq<TaskStruct>, h: usize) -> u64 {
    task_at(tasks, h).se.vruntime
}

/// Every entry of `q` names a task of the table.
pub open spec fn handles_valid(q: Seq<usize>, tasks: Seq<TaskStruct>) -> bool {
    forall|i: int| 0 <= i < q.len() ==> valid_handle(tasks, #[trigger] q[i])
}

/// `q` is in order of virtual run time.
pub open spec fn key_sorted(q: Seq<usize>, tasks: Seq<TaskStruct>) -> bool {
    forall|i: int, j: int| 0 <= i < j < q.len() ==> fair_key(tasks, #[trigger] q[i]) <= fair_key(tasks, #[trigger] q[j])
}

/// `p` is where a task of key `k` goes in `q`: the first position whose task has a
/// greater key (the end if none has), so that it follows every task of equal key.
pub open spec fn insert_point(q: Seq<usize>, tasks: Seq<TaskStruct>, k: u64, p: int) -> bool {
    &&& 0 <= p <= q.len()
    &&& forall|i: int| 0 <= i < p ==> fair_key(tasks, #[trigger] q[i]) <= k
    &&& p < q.len() ==> fair_key(tasks, q[p]) > k
}

/// The virtual run time a task is queued with: a new or waking task that has not
/// just migrated is brought up to the queue's minimum.
pub open spec fn placed_vruntime(v: u64, min_vruntime: u64, place: bool) -> u64 {
    if place && v < min_vruntime {
        min_vruntime
    } else {
        v
    }
}

impl CfsRq {
    /// The task with the least virtual run time, 0 when the queue is empty.
    pub open spec fn leftmost_task(&self) -> usize {
        if self.queue@.len() == 0 {
            0
        } else {
            self.queue@[0]
        }
    }

    /// The queue is empty.
    pub fn is_empty(&self) -> (r: bool)
        ensures
            r == (self.queue@.len() == 0),
    {
        self.queue.len() == 0
    }

    /// The task with the least virtual run time (0 when empty).
    pub fn pick_first(&self) -> (r: usize)
        ensures
            r == self.leftmost_task(),
    {
        if self.queue.len() == 0 {
            0
        } else {
            self.queue[0]
        }
    }

    /// Queue task `h`: place its virtual time (when `place`, not below the queue's
    /// minimum), put it after every queued task whose virtual time is not greater,
    /// mark it queued, and add its weight (saturating) and one to the count.
    pub fn enqueue(&mut self, tasks: &mut Vec<TaskStruct>, h: usize, place: bool)
        requires
            valid_handle(old(tasks)@, h),
            handles_valid(old(self).queue@, old(tasks)@),
            !old(self).queue@.contains(h),
            old(self).nr_running < u32::MAX,
        ensures
            ({
                let t = task_at(old(tasks)@, h);
                let v = placed_vruntime(t.se.vruntime, old(self).min_vruntime, place);
                &&& final(tasks)@ == old(tasks)@.update(
                    h - 1,
                    TaskStruct { se: super::task::SchedEntity { vruntime: v, on_rq: true, ..t.se }, ..t },
                )
                &&& exists|p: int| insert_point(old(self).queue@, old(tasks)@, v, p)
                    && final(self).queue@ == old(self).queue@.insert(p, h)
                &&& final(self).load_weight == old(self).load_weight.saturating_add(t.se.weight)
            }),
            final(self).nr_running == old(self).nr_running + 1,
            final(self).min_vruntime == old(self).min_vruntime,
            handles_valid(final(self).queue@, final(tasks)@),
            key_sorted(old(self).queue@, old(tasks)@) ==> key_sorted(final(self).queue@, final(tasks)@),
    {
        let ghost q0 = self.queue@;
        let mut t = tasks.remove(h - 1);
        if place && t.se.vruntime < self.min_vruntime {
            t.se.vruntime = self.min_vruntime;
        }
        t.se.on_rq = true;
        let v = t.se.vruntime;
        let w = t.se.weight;
        tasks.insert(h - 1, t);
        let ghost t0 = task_at(old(tasks)@, h);
        assert(tasks@ =~= old(tasks)@.update(
            h - 1,
            TaskStruct { se: super::task::SchedEntity { vruntime: v, on_rq: true, ..t0.se }, ..t0 },
        ));
        assert forall|i: int| 0 <= i < q0.len() implies fair_key(tasks@, #[trigger] q0[i]) == fair_key(old(tasks)@, q0[i]) by {
            assert(q0[i] != h);
        }
        let mut p: usize = 0;
        while p < self.queue.len() && tasks[self.queue[p] - 1].se.vruntime <= v
            invariant
                self.queue@ == q0,
                p <= q0.len(),
                handles_valid(q0, old(tasks)@),
                tasks@.len() == old(tasks)@.len(),
                forall|i: int| 0 <= i < q0.len() ==> fair_key(tasks@, #[trigger] q0[i]) == fair_key(old(tasks)@, q0[i]),
                forall|i: int| 0 <= i < p ==> fair_key(old(tasks)@, #[trigger] q0[i]) <= v,
            decreases q0.len() - p,
        {
            p = p + 1;
        }
        self.queue.insert(p, h);
        self.load_weight = self.load_weight.saturating_add(w);
        self.nr_running = self.nr_running + 1;
        assert(insert_point(q0, old(tasks)@, v, p as int));
        let ghost q1 = self.queue@;
        assert(q1 =~= q0.insert(p as int, h));
        assert forall|i: int| 0 <= i < q1.len() implies valid_handle(tasks@, #[trigger] q1[i]) by {
            if i < p {
                assert(q1[i] == q0[i]);
            } else if i > p {
                assert(q1[i] == q0[i - 1]);
            }
        }
        proof {
        if key_sorted(q0, old(tasks)@) {
            assert forall|i: int, j: int| 0 <= i < j < q1.len() implies fair_key(tasks@, #[trigger] q1[i]) <= fair_key(
                tasks@,
                #[trigger] q1[j],
            ) by {
                if j < p {
                    assert(q1[i] == q0[i] && q1[j] == q0[j]);
                } else if j == p {
                    assert(q1[i] == q0[i]);
                } else if i < p {
                    assert(q1[i] == q0[i] && q1[j] == q0[j - 1]);
                } else if i == p {
                    assert(q1[j] == q0[j - 1]);
                    assert(fair_key(old(tasks)@, q0[p as int]) <= fair_key(old(tasks)@, q0[j - 1]));
                } else {
                    assert(q1[i] == q0[i - 1] && q1[j] == q0[j - 1]);
                }
            }
        }
        }
    }
}

impl CfsRq {
    /// Take task `h` out of the queue (its first place there), mark it not queued,
    /// and take its weight and one from the totals (saturating).
    pub fn dequeue(&mut self, tasks: &mut Vec<TaskStruct>, h: usize)
        requires
            valid_handle(old(tasks)@, h),
            old(self).queue@.contains(h),
            handles_valid(old(self).queue@, old(tasks)@),
        ensures
            final(tasks)@ == old(tasks)@.update(h - 1, with_on_rq(task_at(old(tasks)@, h), false)),
            exists|i: int| 0 <= i < old(self).queue@.len() && old(self).queue@[i] == h
                && (forall|j: int| 0 <= j < i ==> old(self).queue@[j] != h)
                && final(self).queue@ == old(self).queue@.remove(i),
            final(self).load_weight == old(self).load_weight.saturating_sub(task_at(old(tasks)@, h).se.weight),
            final(self).nr_running == old(self).nr_running.saturating_sub(1),
            final(self).min_vruntime == old(self).min_vruntime,
            handles_valid(final(self).queue@, final(tasks)@),
            key_sorted(old(self).queue@, old(tasks)@) ==> key_sorted(final(self).queue@, final(tasks)@),
    {
        let ghost q0 = self.queue@;
        let mut i: usize = 0;
        while i < self.queue.len() && self.queue[i] != h
            invariant
                self.queue@ == q0,
                q0.contains(h),
                i <= q0.len(),
                forall|j: int| 0 <= j < i ==> q0[j] != h,
            decreases q0.len() - i,
        {
            i = i + 1;
        }
        if i == self.queue.len() {
            assert(false);
        }
        let w = tasks[h - 1].se.weight;
        self.queue.remove(i);
        set_task_on_rq(tasks, h, false);
        self.load_weight = self.load_weight.saturating_sub(w);
        self.nr_running = self.nr_running.saturating_sub(1);
        let ghost q1 = self.queue@;
        assert(q1 =~= q0.remove(i as int));
        assert forall|k: int| 0 <= k < q1.len() implies fair_key(tasks@, #[trigger] q1[k]) == fair_key(old(tasks)@, q1[k])
            && q1[k] == (if k < i { q0[k] } else { q0[k + 1] }) by {
            if k < i {
                assert(q1[k] == q0[k]);
            } else {
                assert(q1[k] == q0[k + 1]);
            }
            assert(valid_handle(old(tasks)@, q1[k]));
            if q1[k] != h {
                assert(tasks@[q1[k] - 1] == old(tasks)@[q1[k] - 1]);
            }
        }
        proof {
            if key_sorted(q0, old(tasks)@) {
                assert forall|a: int, b: int| 0 <= a < b < q1.len() implies fair_key(tasks@, #[trigger] q1[a]) <= fair_key(
                    tasks@,
                    #[trigger] q1[b],
                ) by {
                    let a0 = if a < i { a } else { a + 1 };
                    let b0 = if b < i { b } else { b + 1 };
                    assert(q1[a] == q0[a0] && q1[b] == q0[b0]);
                }
            }
        }
    }
}

/// Real-time queue: one list per priority and a bitmap of the non-empty ones.
pub struct RtRq {
    pub active_head: Vec<usize>,
    pub active_tail: Vec<usize>,
    pub bitmap: Vec<u64>,
    pub nr_running: u32,
    pub highest_prio: i32,
    /// The queued tasks of each priority, head first.
    pub lists: Ghost<Seq<Seq<usize>>>,
}

/// The task a handle names: handle `h` is entry `h - 1` of the task table, 0 is none.
pub open spec fn task_at(tasks: Seq<TaskStruct>, h: usize) -> TaskStruct {
    tasks[h - 1]
}

/// `h` names an entry of the task table.
pub open spec fn valid_handle(tasks: Seq<TaskStruct>, h: usize) -> bool {
    1 <= h <= tasks.len()
}

/// `h` is queued at some priority.
pub open spec fn queued(lists: Seq<Seq<usize>>, h: usize) -> bool {
    exists|p: int, i: int| 0 <= p < lists.len() && 0 <= i < lists[p].len() && lists[p][i] == h
}

/// The lowest priority of `s` from `k` on, or `MAX_RT_PRIO`.
pub open spec fn lowest_in(s: Set<int>, k: int) -> int
    decreases MAX_RT_PRIO - k,
{
    if k >= MAX_RT_PRIO {
        MAX_RT_PRIO as int
    } else if s.contains(k) {
        k
    } else {
        lowest_in(s, k + 1)
    }
}

pub proof fn lemma_lowest_is(s: Set<int>, k: int, r: int)
    requires
        0 <= k <= r <= MAX_RT_PRIO,
        r < MAX_RT_PRIO ==> s.contains(r),
        forall|q: int| k <= q < r ==> !s.contains(q),
    ensures
        lowest_in(s, k) == r,
    decreases r - k,
{
    if k < r {
        lemma_lowest_is(s, k + 1, r);
    }
}

pub proof fn lemma_lowest_bounds(s: Set<int>, k: int)
    requires
        0 <= k <= MAX_RT_PRIO,
    ensures
        k <= lowest_in(s, k) <= MAX_RT_PRIO,
        lowest_in(s, k) < MAX_RT_PRIO ==> s.contains(lowest_in(s, k)),
        forall|q: int| k <= q < lowest_in(s, k) ==> !s.contains(q),
    decreases MAX_RT_PRIO - k,
{
    if k < MAX_RT_PRIO && !s.contains(k) {
        lemma_lowest_bounds(s, k + 1);
    }
}

/// Each queued task is a valid handle whose links name its neighbours in its list
/// (0 at the ends) and whose queued priority is its list's.
#[verifier::opaque]
pub open spec fn links_ok(lists: Seq<Seq<usize>>, tasks: Seq<TaskStruct>) -> bool {
    forall|p: int, i: int|
        #![trigger lists[p][i]]
        0 <= p < MAX_RT_PRIO && 0 <= i < lists[p].len() ==> {
            let h = lists[p][i];
            &&& valid_handle(tasks, h)
            &&& task_at(tasks, h).rt.list_prev == (if i == 0 { 0 } else { lists[p][i - 1] })
            &&& task_at(tasks, h).rt.list_next == (if i == lists[p].len() - 1 { 0 } else { lists[p][i + 1] })
            &&& task_at(tasks, h).rt.queued_prio == p
        }
}

/// No task is queued twice.
#[verifier::opaque]
pub open spec fn distinct(lists: Seq<Seq<usize>>) -> bool {
    forall|p: int, i: int, q: int, j: int|
        0 <= p < MAX_RT_PRIO && 0 <= i < lists[p].len() && 0 <= q < MAX_RT_PRIO && 0 <= j < lists[q].len()
            && #[trigger] lists[p][i] == #[trigger] lists[q][j] ==> p == q && i == j
}

/// The links of the task at position `i` of list `p`.
pub proof fn lemma_link_facts(lists: Seq<Seq<usize>>, tasks: Seq<TaskStruct>, p: int, i: int)
    requires
        links_ok(lists, tasks),
        0 <= p < MAX_RT_PRIO,
        0 <= i < lists[p].len(),
    ensures
        valid_handle(tasks, lists[p][i]),
        task_at(tasks, lists[p][i]).rt.list_prev == (if i == 0 { 0 } else { lists[p][i - 1] }),
        task_at(tasks, lists[p][i]).rt.list_next == (if i == lists[p].len() - 1 { 0 } else { lists[p][i + 1] }),
        task_at(tasks, lists[p][i]).rt.queued_prio == p,
{
    reveal(links_ok);
    assert(lists[p][i] == lists[p][i]);
}

/// Equal entries of the lists are the same entry.
pub proof fn lemma_distinct_facts(lists: Seq<Seq<usize>>, p: int, i: int, q: int, j: int)
    requires
        distinct(lists),
        0 <= p < MAX_RT_PRIO && 0 <= i < lists[p].len(),
        0 <= q < MAX_RT_PRIO && 0 <= j < lists[q].len(),
        lists[p][i] == lists[q][j],
    ensures
        p == q && i == j,
{
    reveal(distinct);
}

/// A task with its real-time links and queued priority replaced.
pub open spec fn with_rt(t: TaskStruct, rt: RtEntity) -> TaskStruct {
    TaskStruct { rt, ..t }
}

impl RtRq {
    /// One head and tail per priority, two bitmap words.
    pub open spec fn wf(&self) -> bool {
        &&& self.active_head.len() == MAX_RT_PRIO
        &&& self.active_tail.len() == MAX_RT_PRIO
        &&& self.bitmap.len() == RT_BITMAP_WORDS
    }

    /// The non-empty priorities.
    pub open spec fn queued_prios(&self) -> Set<int> {
        Set::new(|p: int| 0 <= p < MAX_RT_PRIO && word_bit(self.bitmap@, p))
    }

    /// Head of the list of priority `p`.
    pub open spec fn head(&self, p: int) -> usize {
        self.active_head@[p]
    }

    /// Best priority queued, `MAX_RT_PRIO` when none.
    pub open spec fn highest(&self) -> int {
        self.highest_prio as int
    }

    /// An empty queue.
    pub fn new() -> (r: Self)
        ensures
            r.wf(),
            r.nr_running == 0,
            r.queued_prios() == Set::<int>::empty(),
            r.highest() == MAX_RT_PRIO,
            forall|p: int| 0 <= p < MAX_RT_PRIO ==> r.head(p) == 0,
            forall|tasks: Seq<TaskStruct>| #[trigger] r.linked(tasks),
    {
        let mut active_head: Vec<usize> = Vec::new();
        let mut active_tail: Vec<usize> = Vec::new();
        let mut i: usize = 0;
        while i < 100
            invariant
                i <= MAX_RT_PRIO,
                active_head.len() == i,
                active_tail.len() == i,
                forall|p: int| 0 <= p < i ==> active_head@[p] == 0 && active_tail@[p] == 0,
            decreases 100 - i,
        {
            active_head.push(0);
            active_tail.push(0);
            i = i + 1;
        }
        let bitmap: Vec<u64> = vec![0u64, 0u64];
        let r = RtRq {
            active_head,
            active_tail,
            bitmap,
            nr_running: 0,
            highest_prio: MAX_RT_PRIO,
            lists: Ghost(Seq::new(100, |p: int| Seq::<usize>::empty())),
        };
        assert forall|p: int| !(0 <= p < MAX_RT_PRIO && #[trigger] word_bit(r.bitmap@, p)) by {
            if 0 <= p < MAX_RT_PRIO {
                assert(r.bitmap@[p / 64] == 0);
                assert(0u64 & (1u64 << ((p % 64) as u64)) == 0) by (bit_vector);
                crate::bits::lemma64_test(0u64, (p % 64) as u64);
            }
        }
        assert(r.queued_prios() =~= Set::<int>::empty());
        assert forall|tasks: Seq<TaskStruct>| #[trigger] r.linked(tasks) by {
            assert forall|p: int| 0 <= p < MAX_RT_PRIO implies r.lists@[p].len() == 0 by {
                assert(r.lists@[p] == Seq::<usize>::empty());
            }
            assert(r.queued_prios() =~= Set::new(|p: int| 0 <= p < MAX_RT_PRIO && r.lists@[p].len() > 0));
            lemma_lowest_is(r.queued_prios(), 0, MAX_RT_PRIO as int);
            reveal(links_ok);
            reveal(distinct);
        }
        r
    }

    /// The lists agree with the heads, tails, links, bitmap and best priority, and
    /// each task is queued at most once.
    pub open spec fn linked(&self, tasks: Seq<TaskStruct>) -> bool {
        let lists = self.lists@;
        &&& self.wf()
        &&& lists.len() == MAX_RT_PRIO
        &&& forall|p: int|
            0 <= p < MAX_RT_PRIO ==> (if lists[p].len() == 0 {
                self.active_head@[p] == 0 && self.active_tail@[p] == 0
            } else {
                self.active_head@[p] == lists[p][0] && self.active_tail@[p] == lists[p].last()
            })
        &&& links_ok(lists, tasks)
        &&& distinct(lists)
        &&& self.queued_prios() == Set::new(|p: int| 0 <= p < MAX_RT_PRIO && lists[p].len() > 0)
        &&& self.highest_prio == lowest_in(self.queued_prios(), 0)
    }

    /// Nothing is queued.
    pub fn is_empty(&self) -> (r: bool)
        ensures
            r == (self.nr_running == 0),
    {
        self.nr_running == 0
    }

    /// The best queued priority.
    fn find_first_bit(&self) -> (r: Option<usize>)
        requires
            self.wf(),
        ensures
            match r {
                Some(p) => p < MAX_RT_PRIO && self.queued_prios().contains(p as int) && forall|q: int|
                    0 <= q < p ==> !self.queued_prios().contains(q),
                None => self.queued_prios() == Set::<int>::empty(),
            },
    {
        match next_set_from(&self.bitmap, 0) {
            Some(p) => {
                if p < 100 {
                    Some(p)
                } else {
                    assert(self.queued_prios() =~= Set::<int>::empty());
                    None
                }
            },
            None => {
                assert(self.queued_prios() =~= Set::<int>::empty());
                None
            },
        }
    }

    /// Head of the best non-empty priority list (0 when none).
    pub fn pick_first(&self) -> (r: usize)
        requires
            self.wf(),
        ensures
            self.queued_prios() == Set::<int>::empty() ==> r == 0,
            forall|p: int|
                #![trigger self.queued_prios().contains(p)]
                self.queued_prios().contains(p) && (forall|q: int| 0 <= q < p ==> !self.queued_prios().contains(q))
                    ==> r == self.head(p),
    {
        match self.find_first_bit() {
            Some(prio) => {
                assert forall|p: int|
                    #![trigger self.queued_prios().contains(p)]
                    self.queued_prios().contains(p) && (forall|q: int|
                        0 <= q < p ==> !self.queued_prios().contains(q)) implies p == prio by {
                    if p < prio {
                    } else if p > prio {
                        assert(!self.queued_prios().contains(prio as int));
                    }
                }
                self.active_head[prio]
            },
            None => 0,
        }
    }
}


/// Replace the real-time part of task `h`.
fn set_task_rt(tasks: &mut Vec<TaskStruct>, h: usize, rt: RtEntity)
    requires
        valid_handle(old(tasks)@, h),
    ensures
        final(tasks)@ == old(tasks)@.update(h - 1, with_rt(task_at(old(tasks)@, h), rt)),
{
    let mut t = tasks.remove(h - 1);
    t.rt = rt;
    tasks.insert(h - 1, t);
    assert(tasks@ =~= old(tasks)@.update(h - 1, with_rt(task_at(old(tasks)@, h), rt)));
}

/// A task marked as queued or not.
pub open spec fn with_on_rq(t: TaskStruct, on_rq: bool) -> TaskStruct {
    TaskStruct { se: super::task::SchedEntity { on_rq, ..t.se }, ..t }
}

/// Mark task `h` as queued or not.
pub(crate) fn set_task_on_rq(tasks: &mut Vec<TaskStruct>, h: usize, on_rq: bool)
    requires
        valid_handle(old(tasks)@, h),
    ensures
        final(tasks)@ == old(tasks)@.update(h - 1, with_on_rq(task_at(old(tasks)@, h), on_rq)),
{
    let mut t = tasks.remove(h - 1);
    t.se.on_rq = on_rq;
    tasks.insert(h - 1, t);
    assert(tasks@ =~= old(tasks)@.update(h - 1, with_on_rq(task_at(old(tasks)@, h), on_rq)));
}

proof fn lemma_lowest_insert(s: Set<int>, p: int, k: int)
    requires
        0 <= k <= MAX_RT_PRIO,
        0 <= p < MAX_RT_PRIO,
    ensures
        lowest_in(s.insert(p), k) == if k <= p && p < lowest_in(s, k) {
            p
        } else {
            lowest_in(s, k)
        },
    decreases MAX_RT_PRIO - k,
{
    lemma_lowest_bounds(s, k);
    if k < MAX_RT_PRIO && !s.contains(k) && k != p {
        lemma_lowest_insert(s, p, k + 1);
    }
}

impl RtRq {
    /// Queue task `h` at the tail of its priority's list, mark the priority, and
    /// lower the best priority to it if needed.
    #[verifier::rlimit(100)]
    pub fn enqueue(&mut self, tasks: &mut Vec<TaskStruct>, h: usize)
        requires
            old(self).linked(old(tasks)@),
            valid_handle(old(tasks)@, h),
            0 <= task_at(old(tasks)@, h).prio < MAX_RT_PRIO,
            !queued(old(self).lists@, h),
            old(self).nr_running < u32::MAX,
        ensures
            final(self).linked(final(tasks)@),
            final(tasks)@.len() == old(tasks)@.len(),
            ({
                let p = task_at(old(tasks)@, h).prio as int;
                let tail = old(self).active_tail@[p];
                let t = task_at(old(tasks)@, h);
                &&& final(self).lists@ == old(self).lists@.update(p, old(self).lists@[p].push(h))
                &&& final(self).nr_running == old(self).nr_running + 1
                &&& task_at(final(tasks)@, h) == with_on_rq(
                    with_rt(t, RtEntity { list_prev: tail, list_next: 0, queued_prio: p as u32, ..t.rt }),
                    true,
                )
                &&& tail != 0 ==> task_at(final(tasks)@, tail) == with_rt(
                    task_at(old(tasks)@, tail),
                    RtEntity { list_next: h, ..task_at(old(tasks)@, tail).rt },
                )
                &&& forall|j: int|
                    0 <= j < old(tasks)@.len() && j != h - 1 && (tail == 0 || j != tail - 1) ==> final(tasks)@[j]
                        == old(tasks)@[j]
            }),
    {
        let ghost lists0 = self.lists@;
        let ghost tasks0 = tasks@;
        let prio = tasks[h - 1].prio as usize;
        let ghost p = prio as int;
        let tail = self.active_tail[prio];
        let t_rt = tasks[h - 1].rt;
        if self.active_head[prio] == 0 {
            assert(lists0[p].len() == 0) by {
                if lists0[p].len() > 0 {
                    lemma_link_facts(lists0, tasks0, p, 0);
                }
            }
            self.active_head.set(prio, h);
            self.active_tail.set(prio, h);
            set_task_rt(tasks, h, RtEntity { list_prev: 0, list_next: 0, queued_prio: prio as u32, ..t_rt });
        } else {
            assert(lists0[p].len() > 0);
            proof {
                lemma_link_facts(lists0, tasks0, p, lists0[p].len() - 1);
            }
            let tail_rt = tasks[tail - 1].rt;
            set_task_rt(tasks, tail, RtEntity { list_next: h, ..tail_rt });
            assert(tail != h) by {
                assert(lists0[p][lists0[p].len() - 1] == tail);
            }
            set_task_rt(tasks, h, RtEntity { list_prev: tail, list_next: 0, queued_prio: prio as u32, ..t_rt });
            self.active_tail.set(prio, h);
        }
        set_task_on_rq(tasks, h, true);
        let ghost q0 = self.queued_prios();
        update_bit(&mut self.bitmap, prio, 0);
        self.lists = Ghost(lists0.update(p, lists0[p].push(h)));
        proof {
            assert(self.queued_prios() =~= q0.insert(p));
            assert(self.queued_prios() =~= Set::new(|q: int| 0 <= q < MAX_RT_PRIO && self.lists@[q].len() > 0));
            lemma_lowest_insert(q0, p, 0);
            lemma_lowest_bounds(q0, 0);
        }
        if (prio as i32) < self.highest_prio {
            self.highest_prio = prio as i32;
        }
        self.nr_running = self.nr_running + 1;
        proof {
            lemma_links_after_push(lists0, tasks0, tasks@, p, h, tail);
        }
    }
}



proof fn lemma_links_after_push(lists0: Seq<Seq<usize>>, tasks0: Seq<TaskStruct>, tasks: Seq<TaskStruct>, p: int, h: usize, tail: usize)
    requires
        lists0.len() == MAX_RT_PRIO,
        links_ok(lists0, tasks0),
        distinct(lists0),
        0 <= p < MAX_RT_PRIO,
        valid_handle(tasks0, h),
        !queued(lists0, h),
        tail == (if lists0[p].len() == 0 { 0 } else { lists0[p].last() }),
        tasks.len() == tasks0.len(),
        task_at(tasks, h).rt.list_prev == tail,
        task_at(tasks, h).rt.list_next == 0,
        task_at(tasks, h).rt.queued_prio == p,
        tail != 0 ==> task_at(tasks, tail).rt == (RtEntity { list_next: h, ..task_at(tasks0, tail).rt }),
        forall|j: int| 0 <= j < tasks0.len() && j != h - 1 && (tail == 0 || j != tail - 1) ==> tasks[j] == tasks0[j],
    ensures
        links_ok(lists0.update(p, lists0[p].push(h)), tasks),
        distinct(lists0.update(p, lists0[p].push(h))),
{
    reveal(links_ok);
    reveal(distinct);
    let lists = lists0.update(p, lists0[p].push(h));
    assert forall|q: int, i: int|
        #![trigger lists[q][i]]
        0 <= q < MAX_RT_PRIO && 0 <= i < lists[q].len() implies {
            let g = lists[q][i];
            &&& valid_handle(tasks, g)
            &&& task_at(tasks, g).rt.list_prev == (if i == 0 { 0 } else { lists[q][i - 1] })
            &&& task_at(tasks, g).rt.list_next == (if i == lists[q].len() - 1 { 0 } else { lists[q][i + 1] })
            &&& task_at(tasks, g).rt.queued_prio == q
        } by {
        if q == p && i == lists0[p].len() {
        } else {
            let g = lists0[q][i];
            assert(lists0[q][i] == g);
            assert(g != h);
            if q == p && i == lists0[p].len() - 1 {
                assert(g == tail);
            } else {
                assert(tail == 0 || g != tail) by {
                    if tail != 0 && g == tail {
                        assert(lists0[p][lists0[p].len() - 1] == tail);
                    }
                }
            }
        }
    }
    assert forall|q1: int, i1: int, q2: int, j2: int|
        0 <= q1 < MAX_RT_PRIO && 0 <= i1 < lists[q1].len() && 0 <= q2 < MAX_RT_PRIO && 0 <= j2 < lists[q2].len()
            && #[trigger] lists[q1][i1] == #[trigger] lists[q2][j2] implies q1 == q2 && i1 == j2 by {
        if q1 == p && i1 == lists0[p].len() {
            if !(q2 == p && j2 == lists0[p].len()) {
                assert(lists0[q2][j2] == h);
            }
        } else if q2 == p && j2 == lists0[p].len() {
            assert(lists0[q1][i1] == h);
        } else {
            assert(lists0[q1][i1] == lists0[q2][j2]);
        }
    }
}

#[verifier::rlimit(100)]
#[verifier::spinoff_prover]
proof fn lemma_links_after_remove(lists0: Seq<Seq<usize>>, tasks0: Seq<TaskStruct>, tasks: Seq<TaskStruct>, p: int, i: int, h: usize, prev: usize, next: usize)
    requires
        lists0.len() == MAX_RT_PRIO,
        links_ok(lists0, tasks0),
        distinct(lists0),
        0 <= p < MAX_RT_PRIO,
        0 <= i < lists0[p].len(),
        lists0[p][i] == h,
        prev == (if i == 0 { 0 } else { lists0[p][i - 1] }),
        next == (if i == lists0[p].len() - 1 { 0 } else { lists0[p][i + 1] }),
        tasks.len() == tasks0.len(),
        prev != 0 ==> task_at(tasks, prev).rt == (RtEntity { list_next: next, ..task_at(tasks0, prev).rt }),
        next != 0 ==> task_at(tasks, next).rt == (RtEntity { list_prev: prev, ..task_at(tasks0, next).rt }),
        forall|j: int|
            0 <= j < tasks0.len() && j != h - 1 && (prev == 0 || j != prev - 1) && (next == 0 || j != next - 1)
                ==> tasks[j] == tasks0[j],
    ensures
        links_ok(lists0.update(p, lists0[p].remove(i)), tasks),
        distinct(lists0.update(p, lists0[p].remove(i))),
{
    reveal(links_ok);
    reveal(distinct);
    let lists = lists0.update(p, lists0[p].remove(i));
    assert forall|q: int, k: int|
        #![trigger lists[q][k]]
        0 <= q < MAX_RT_PRIO && 0 <= k < lists[q].len() implies {
            let g = lists[q][k];
            &&& valid_handle(tasks, g)
            &&& task_at(tasks, g).rt.list_prev == (if k == 0 { 0 } else { lists[q][k - 1] })
            &&& task_at(tasks, g).rt.list_next == (if k == lists[q].len() - 1 { 0 } else { lists[q][k + 1] })
            &&& task_at(tasks, g).rt.queued_prio == q
        } by {
        let k0 = if q == p && k >= i { k + 1 } else { k };
        let g = lists0[q][k0];
        assert(lists[q][k] == g);
        assert(g != h);
        if q == p && k0 == i - 1 {
            assert(g == prev);
        } else if q == p && k0 == i + 1 {
            assert(g == next);
        } else {
            assert(prev == 0 || g != prev) by {
                if prev != 0 && g == prev {
                    assert(lists0[q][k0] == lists0[p][i - 1]);
                }
            }
            assert(next == 0 || g != next) by {
                if next != 0 && g == next {
                    assert(lists0[q][k0] == lists0[p][i + 1]);
                }
            }
        }
    }
    assert forall|q1: int, i1: int, q2: int, j2: int|
        0 <= q1 < MAX_RT_PRIO && 0 <= i1 < lists[q1].len() && 0 <= q2 < MAX_RT_PRIO && 0 <= j2 < lists[q2].len()
            && #[trigger] lists[q1][i1] == #[trigger] lists[q2][j2] implies q1 == q2 && i1 == j2 by {
        let a = if q1 == p && i1 >= i { i1 + 1 } else { i1 };
        let b = if q2 == p && j2 >= i { j2 + 1 } else { j2 };
        assert(lists0[q1][a] == lists[q1][i1]);
        assert(lists0[q2][b] == lists[q2][j2]);
    }
}

/// Position of `h` in list `p`.
pub open spec fn pos_in(lists: Seq<Seq<usize>>, p: int, h: usize) -> int {
    choose|i: int| 0 <= i < lists[p].len() && lists[p][i] == h
}

impl RtRq {
    /// Take task `h` out of its priority's list; when the list empties, unmark the
    /// priority and, if it was the best one, find the next best.
    #[verifier::rlimit(100)]
    #[verifier::spinoff_prover]
    pub fn dequeue(&mut self, tasks: &mut Vec<TaskStruct>, h: usize)
        requires
            old(self).linked(old(tasks)@),
            valid_handle(old(tasks)@, h),
            queued(old(self).lists@, h),
        ensures
            final(self).linked(final(tasks)@),
            final(tasks)@.len() == old(tasks)@.len(),
            ({
                let t = task_at(old(tasks)@, h);
                let p = t.rt.queued_prio as int;
                let i = pos_in(old(self).lists@, p, h);
                let prev = t.rt.list_prev;
                let next = t.rt.list_next;
                &&& 0 <= p < MAX_RT_PRIO && 0 <= i < old(self).lists@[p].len() && old(self).lists@[p][i] == h
                &&& final(self).lists@ == old(self).lists@.update(p, old(self).lists@[p].remove(i))
                &&& final(self).nr_running == old(self).nr_running.saturating_sub(1)
                &&& task_at(final(tasks)@, h) == with_on_rq(
                    with_rt(t, RtEntity { queued_prio: MAX_RT_PRIO as u32, ..t.rt }),
                    false,
                )
                &&& prev != 0 ==> task_at(final(tasks)@, prev) == with_rt(
                    task_at(old(tasks)@, prev),
                    RtEntity { list_next: next, ..task_at(old(tasks)@, prev).rt },
                )
                &&& next != 0 ==> task_at(final(tasks)@, next) == with_rt(
                    task_at(old(tasks)@, next),
                    RtEntity { list_prev: prev, ..task_at(old(tasks)@, next).rt },
                )
                &&& forall|j: int|
                    0 <= j < old(tasks)@.len() && j != h - 1 && (prev == 0 || j != prev - 1) && (next == 0 || j
                        != next - 1) ==> final(tasks)@[j] == old(tasks)@[j]
            }),
    {
        let ghost lists0 = self.lists@;
        let ghost tasks0 = tasks@;
        let ghost (p0, i0) = choose|p: int, i: int| 0 <= p < lists0.len() && 0 <= i < lists0[p].len() && lists0[p][i] == h;
        proof {
            lemma_link_facts(lists0, tasks0, p0, i0);
        }
        let prio = tasks[h - 1].rt.queued_prio as usize;
        let ghost p = p0;
        let ghost i = i0;
        let ghost n = lists0[p].len();
        proof {
            let k = pos_in(lists0, p, h);
            assert(0 <= k < lists0[p].len() && lists0[p][k] == h);
            lemma_distinct_facts(lists0, p, k, p, i);
            if i > 0 {
                lemma_link_facts(lists0, tasks0, p, i - 1);
                if lists0[p][i - 1] == h {
                    lemma_distinct_facts(lists0, p, i - 1, p, i);
                }
            }
            if i < n - 1 {
                lemma_link_facts(lists0, tasks0, p, i + 1);
                if lists0[p][i + 1] == h {
                    lemma_distinct_facts(lists0, p, i + 1, p, i);
                }
                if i > 0 && lists0[p][i + 1] == lists0[p][i - 1] {
                    lemma_distinct_facts(lists0, p, i + 1, p, i - 1);
                }
            }
            lemma_link_facts(lists0, tasks0, p, 0);
        }
        let rt = tasks[h - 1].rt;
        let prev = rt.list_prev;
        let next = rt.list_next;
        if prev != 0 {
            let prev_rt = tasks[prev - 1].rt;
            set_task_rt(tasks, prev, RtEntity { list_next: next, ..prev_rt });
        } else {
            assert(i == 0);
            self.active_head.set(prio, next);
        }
        if next != 0 {
            let next_rt = tasks[next - 1].rt;
            set_task_rt(tasks, next, RtEntity { list_prev: prev, ..next_rt });
        } else {
            assert(i == n - 1);
            self.active_tail.set(prio, prev);
        }
        let h_rt = tasks[h - 1].rt;
        set_task_rt(tasks, h, RtEntity { queued_prio: 100, ..h_rt });
        set_task_on_rq(tasks, h, false);
        self.lists = Ghost(lists0.update(p, lists0[p].remove(i)));
        let ghost q0 = self.queued_prios();
        proof {
            lemma_lowest_bounds(q0, 0);
            assert(q0 == old(self).queued_prios());
            assert(q0.contains(p));
            assert(self.highest_prio == lowest_in(q0, 0));
        }
        if self.active_head[prio] == 0 {
            assert(self.lists@[p].len() == 0);
            update_bit(&mut self.bitmap, prio, 1);
            assert(self.queued_prios() =~= q0.remove(p));
            if self.highest_prio == prio as i32 {
                self.highest_prio = match self.find_first_bit() {
                    Some(b) => b as i32,
                    None => 100,
                };
                proof {
                    lemma_lowest_bounds(self.queued_prios(), 0);
                    if self.highest_prio < 100 {
                        lemma_lowest_is(self.queued_prios(), 0, self.highest_prio as int);
                    } else {
                        lemma_lowest_is(self.queued_prios(), 0, 100);
                    }
                }
            } else {
                proof {
                    let l = lowest_in(q0, 0);
                    assert(l < p);
                    lemma_lowest_is(self.queued_prios(), 0, l);
                }
            }
        } else {
            assert(self.lists@[p].len() > 0);
            assert(self.queued_prios() =~= q0);
        }
        self.nr_running = self.nr_running.saturating_sub(1);
        proof {
            let lists = self.lists@;
            assert(self.queued_prios() =~= Set::new(|q: int| 0 <= q < MAX_RT_PRIO && lists[q].len() > 0));
            lemma_links_after_remove(lists0, tasks0, tasks@, p, i, h, prev, next);
        }
    }

    /// Move task `h` to the tail of the list of its current priority.
    pub fn requeue(&mut self, tasks: &mut Vec<TaskStruct>, h: usize)
        requires
            old(self).linked(old(tasks)@),
            valid_handle(old(tasks)@, h),
            queued(old(self).lists@, h),
            0 <= task_at(old(tasks)@, h).prio < MAX_RT_PRIO,
            old(self).nr_running.saturating_sub(1) < u32::MAX,
        ensures
            final(self).linked(final(tasks)@),
            final(tasks)@.len() == old(tasks)@.len(),
            ({
                let t = task_at(old(tasks)@, h);
                let p = t.rt.queued_prio as int;
                let removed = old(self).lists@.update(p, old(self).lists@[p].remove(pos_in(old(self).lists@, p, h)));
                final(self).lists@ == removed.update(t.prio as int, removed[t.prio as int].push(h))
            }),
            final(self).nr_running == old(self).nr_running.saturating_sub(1) + 1,
    {
        self.dequeue(tasks, h);
        proof {
            let lists = self.lists@;
            assert(!queued(lists, h)) by {
                if queued(lists, h) {
                    let (q, k) = choose|q: int, k: int| 0 <= q < lists.len() && 0 <= k < lists[q].len() && lists[q][k] == h;
                    lemma_link_facts(lists, tasks@, q, k);
                }
            }
        }
        self.enqueue(tasks, h);
    }
}

/// Deadline queue: the queued tasks in order of absolute deadline, tasks of equal
/// deadline in the order they were queued, with the bandwidth booked by its tasks.
pub struct DlRq {
    pub queue: Vec<usize>,
    pub nr_running: u32,
    pub running_bw: u64,
}

impl Default for DlRq {
    fn default() -> (r: Self)
        ensures
            r.queue@ == Seq::<usize>::empty() && r.nr_running == 0 && r.running_bw == 0,
    {
        DlRq { queue: Vec::new(), nr_running: 0, running_bw: 0 }
    }
}

/// The key the deadline queue orders task `h` by: its absolute deadline.
pub open spec fn dl_key(tasks: Seq<TaskStruct>, h: usize) -> u64 {
    task_at(tasks, h).dl.deadline
}

/// `p` is where a task of deadline `k` goes in `q`: the first position whose task
/// has a later deadline (the end if none has).
pub open spec fn dl_insert_point(q: Seq<usize>, tasks: Seq<TaskStruct>, k: u64, p: int) -> bool {
    &&& 0 <= p <= q.len()
    &&& forall|i: int| 0 <= i < p ==> dl_key(tasks, #[trigger] q[i]) <= k
    &&& p < q.len() ==> dl_key(tasks, q[p]) > k
}

/// Bandwidth a deadline task books: its runtime over its period, in units of
/// 2^-20 (the shifted runtime keeping 64 bits); none without a period.
pub open spec fn dl_task_bw(dl: DlEntity) -> u64 {
    if dl.dl_period > 0 {
        ((dl.dl_runtime << 20u64) / dl.dl_period) as u64
    } else {
        0
    }
}

/// A deadline task that has a period and has never had a deadline starts its first
/// period at `now`, with its full runtime.
pub open spec fn dl_first_period(dl: DlEntity) -> bool {
    dl.dl_period > 0 && dl.deadline == 0
}

/// The task's deadline entity as queueing at `now` leaves it.
pub open spec fn dl_started(dl: DlEntity, now: u64) -> DlEntity {
    if dl_first_period(dl) {
        DlEntity {
            runtime: dl.dl_runtime as i64,
            deadline: now.saturating_add(dl.dl_deadline),
            replenish_at: now.saturating_add(dl.dl_period),
            ..dl
        }
    } else {
        dl
    }
}

impl DlRq {
    /// The task with the earliest deadline, 0 when the queue is empty.
    pub open spec fn leftmost_task(&self) -> usize {
        if self.queue@.len() == 0 {
            0
        } else {
            self.queue@[0]
        }
    }

    /// The queue is empty.
    pub fn is_empty(&self) -> (r: bool)
        ensures
            r == (self.queue@.len() == 0),
    {
        self.queue.len() == 0
    }

    /// The task with the earliest deadline (0 when empty).
    pub fn pick_first(&self) -> (r: usize)
        ensures
            r == self.leftmost_task(),
    {
        if self.queue.len() == 0 {
            0
        } else {
            self.queue[0]
        }
    }

    /// Queue deadline task `h` at `now`: on its first period it gets its full
    /// runtime, a deadline and a replenish time, and its bandwidth is booked
    /// (saturating); it goes after every queued task whose deadline is not later, is
    /// marked queued, and the count grows by one.
    pub fn enqueue(&mut self, tasks: &mut Vec<TaskStruct>, h: usize, now: u64)
        requires
            valid_handle(old(tasks)@, h),
            forall|i: int| 0 <= i < old(self).queue@.len() ==> valid_handle(old(tasks)@, #[trigger] old(self).queue@[i]),
            !old(self).queue@.contains(h),
            old(self).nr_running < u32::MAX,
        ensures
            ({
                let t = task_at(old(tasks)@, h);
                let dl = dl_started(t.dl, now);
                &&& final(tasks)@ == old(tasks)@.update(
                    h - 1,
                    TaskStruct { dl, se: super::task::SchedEntity { on_rq: true, ..t.se }, ..t },
                )
                &&& exists|p: int| dl_insert_point(old(self).queue@, old(tasks)@, dl.deadline, p)
                    && final(self).queue@ == old(self).queue@.insert(p, h)
                &&& final(self).running_bw == if dl_first_period(t.dl) {
                    old(self).running_bw.saturating_add(dl_task_bw(t.dl))
                } else {
                    old(self).running_bw
                }
            }),
            final(self).nr_running == old(self).nr_running + 1,
    {
        let ghost q0 = self.queue@;
        let mut t = tasks.remove(h - 1);
        if t.dl.dl_period > 0 && t.dl.deadline == 0 {
            t.dl.runtime = t.dl.dl_runtime as i64;
            t.dl.deadline = now.saturating_add(t.dl.dl_deadline);
            t.dl.replenish_at = now.saturating_add(t.dl.dl_period);
            let bw = (t.dl.dl_runtime << 20u64) / t.dl.dl_period;
            self.running_bw = self.running_bw.saturating_add(bw);
        }
        t.se.on_rq = true;
        let k = t.dl.deadline;
        tasks.insert(h - 1, t);
        let ghost t0 = task_at(old(tasks)@, h);
        assert(tasks@ =~= old(tasks)@.update(
            h - 1,
            TaskStruct { dl: dl_started(t0.dl, now), se: super::task::SchedEntity { on_rq: true, ..t0.se }, ..t0 },
        ));
        assert forall|i: int| 0 <= i < q0.len() implies dl_key(tasks@, #[trigger] q0[i]) == dl_key(old(tasks)@, q0[i]) by {
            assert(q0[i] != h);
        }
        let mut p: usize = 0;
        while p < self.queue.len() && tasks[self.queue[p] - 1].dl.deadline <= k
            invariant
                self.queue@ == q0,
                p <= q0.len(),
                forall|i: int| 0 <= i < q0.len() ==> valid_handle(old(tasks)@, #[trigger] q0[i]),
                tasks@.len() == old(tasks)@.len(),
                forall|i: int| 0 <= i < q0.len() ==> dl_key(tasks@, #[trigger] q0[i]) == dl_key(old(tasks)@, q0[i]),
                forall|i: int| 0 <= i < p ==> dl_key(old(tasks)@, #[trigger] q0[i]) <= k,
            decreases q0.len() - p,
        {
            p = p + 1;
        }
        self.queue.insert(p, h);
        self.nr_running = self.nr_running + 1;
        assert(dl_insert_point(q0, old(tasks)@, k, p as int));
    }

    /// Take task `h` out of the queue (its first place there), mark it not queued,
    /// take one from the count (saturating), and, when it leaves for good, release
    /// its bandwidth (saturating).
    pub fn dequeue(&mut self, tasks: &mut Vec<TaskStruct>, h: usize, permanent: bool)
        requires
            valid_handle(old(tasks)@, h),
            old(self).queue@.contains(h),
        ensures
            final(tasks)@ == old(tasks)@.update(h - 1, with_on_rq(task_at(old(tasks)@, h), false)),
            exists|i: int| 0 <= i < old(self).queue@.len() && old(self).queue@[i] == h
                && (forall|j: int| 0 <= j < i ==> old(self).queue@[j] != h)
                && final(self).queue@ == old(self).queue@.remove(i),
            final(self).nr_running == old(self).nr_running.saturating_sub(1),
            final(self).running_bw == if permanent {
                old(self).running_bw.saturating_sub(dl_task_bw(task_at(old(tasks)@, h).dl))
            } else {
                old(self).running_bw
            },
    {
        let ghost q0 = self.queue@;
        let mut i: usize = 0;
        while i < self.queue.len() && self.queue[i] != h
            invariant
                self.queue@ == q0,
                q0.contains(h),
                i <= q0.len(),
                forall|j: int| 0 <= j < i ==> q0[j] != h,
            decreases q0.len() - i,
        {
            i = i + 1;
        }
        if i == self.queue.len() {
            assert(false);
        }
        self.queue.remove(i);
        set_task_on_rq(tasks, h, false);
        self.nr_running = self.nr_running.saturating_sub(1);
        if permanent {
            let dl = &tasks[h - 1].dl;
            if dl.dl_period > 0 {
                let bw = (dl.dl_runtime << 20u64) / dl.dl_period;
                self.running_bw = self.running_bw.saturating_sub(bw);
            }
        }
        assert(self.queue@ =~= q0.remove(i as int));
    }
}

/// Switch and time counters of one CPU; each counter wraps around.
#[derive(Debug, Clone, Copy)]
pub struct PerCpuStats {
    pub switches: u64,
    pub voluntary: u64,
    pub involuntary: u64,
    pub migrations: u64,
    pub user_time: u64,
    pub sys_time: u64,
    pub idle_time: u64,
    pub io_wait: u64,
}

/// All counters zero.
pub open spec fn zero_stats() -> PerCpuStats {
    PerCpuStats {
        switches: 0,
        voluntary: 0,
        involuntary: 0,
        migrations: 0,
        user_time: 0,
        sys_time: 0,
        idle_time: 0,
        io_wait: 0,
    }
}

impl PerCpuStats {
    /// All counters zero.
    pub fn new() -> (r: Self)
        ensures
            r == zero_stats(),
    {
        PerCpuStats {
            switches: 0,
            voluntary: 0,
            involuntary: 0,
            migrations: 0,
            user_time: 0,
            sys_time: 0,
            idle_time: 0,
            io_wait: 0,
        }
    }

    /// Count a context switch, voluntary or not.
    pub fn record_switch(&mut self, vol: bool)
        ensures
            *final(self) == (PerCpuStats {
                switches: vstd::wrapping::u64_specs::wrapping_add(old(self).switches, 1),
                voluntary: if vol {
                    vstd::wrapping::u64_specs::wrapping_add(old(self).voluntary, 1)
                } else {
                    old(self).voluntary
                },
                involuntary: if vol {
                    old(self).involuntary
                } else {
                    vstd::wrapping::u64_specs::wrapping_add(old(self).involuntary, 1)
                },
                ..*old(self)
            }),
    {
        self.switches = self.switches.wrapping_add(1);
        if vol {
            self.voluntary = self.voluntary.wrapping_add(1);
        } else {
            self.involuntary = self.involuntary.wrapping_add(1);
        }
    }

    /// Count a migration.
    pub fn record_migration(&mut self)
        ensures
            *final(self) == (PerCpuStats {
                migrations: vstd::wrapping::u64_specs::wrapping_add(old(self).migrations, 1),
                ..*old(self)
            }),
    {
        self.migrations = self.migrations.wrapping_add(1);
    }

    /// Add user time.
    pub fn add_user(&mut self, ns: u64)
        ensures
            *final(self) == (PerCpuStats {
                user_time: vstd::wrapping::u64_specs::wrapping_add(old(self).user_time, ns),
                ..*old(self)
            }),
    {
        self.user_time = self.user_time.wrapping_add(ns);
    }

    /// Add system time.
    pub fn add_sys(&mut self, ns: u64)
        ensures
            *final(self) == (PerCpuStats {
                sys_time: vstd::wrapping::u64_specs::wrapping_add(old(self).sys_time, ns),
                ..*old(self)
            }),
    {
        self.sys_time = self.sys_time.wrapping_add(ns);
    }

    /// Add idle time.
    pub fn add_idle(&mut self, ns: u64)
        ensures
            *final(self) == (PerCpuStats {
                idle_time: vstd::wrapping::u64_specs::wrapping_add(old(self).idle_time, ns),
                ..*old(self)
            }),
    {
        self.idle_time = self.idle_time.wrapping_add(ns);
    }
}

/// Per-CPU scheduling state.
pub struct RunQueue {
    pub lock: SpinLock,
    pub cpu: u32,
    pub online: bool,
    pub clock: u64,
    pub clock_task: u64,
    pub fair: CfsRq,
    pub rt: RtRq,
    pub dl: DlRq,
    pub curr: usize,
    pub idle: usize,
    pub nr_running: u32,
    pub stats: PerCpuStats,
}

impl RunQueue {
    /// The queues are well-formed.
    pub open spec fn wf(&self) -> bool {
        self.rt.wf()
    }

    /// An empty, online queue of `cpu` running its idle task.
    pub fn new(cpu: u32, idle: usize) -> (r: Self)
        ensures
            r.wf(),
            !r.lock.held(),
            r.cpu == cpu && r.online && r.clock == 0 && r.clock_task == 0,
            r.fair.queue@ == Seq::<usize>::empty() && r.fair.nr_running == 0 && r.fair.load_weight == 0
                && r.fair.min_vruntime == 0,
            r.rt.nr_running == 0 && r.rt.queued_prios() == Set::<int>::empty(),
            r.dl.queue@ == Seq::<usize>::empty() && r.dl.nr_running == 0 && r.dl.running_bw == 0,
            r.curr == idle && r.idle == idle && r.nr_running == 0,
            r.stats == zero_stats(),
    {
        RunQueue {
            lock: SpinLock::new(),
            cpu,
            online: true,
            clock: 0,
            clock_task: 0,
            fair: CfsRq::default(),
            rt: RtRq::new(),
            dl: DlRq::default(),
            curr: idle,
            idle,
            nr_running: 0,
            stats: PerCpuStats::new(),
        }
    }

    /// The queue's clock.
    pub fn now(&self) -> (r: u64)
        ensures
            r == self.clock,
    {
        self.clock
    }

    /// Move both clocks forward by `delta` (wrapping).
    pub fn advance_clock(&mut self, delta: u64)
        ensures
            final(self).clock == vstd::wrapping::u64_specs::wrapping_add(old(self).clock, delta),
            final(self).clock_task == vstd::wrapping::u64_specs::wrapping_add(old(self).clock_task, delta),
            final(self).curr == old(self).curr,
            final(self).nr_running == old(self).nr_running,
    {
        self.clock = self.clock.wrapping_add(delta);
        self.clock_task = self.clock_task.wrapping_add(delta);
    }

    /// The running task.
    pub fn current(&self) -> (r: usize)
        ensures
            r == self.curr,
    {
        self.curr
    }
}

/// Counters summed over all CPUs.
#[derive(Debug, Clone, Copy, PartialEq, Eq, Structural)]
pub struct GlobalStatsSnapshot {
    pub total_switches: u64,
    pub total_voluntary: u64,
    pub total_involuntary: u64,
    pub total_migrations: u64,
    pub total_user: u64,
    pub total_sys: u64,
    pub total_idle: u64,
}

impl Default for GlobalStatsSnapshot {
    fn default() -> (r: Self)
        ensures
            r == (GlobalStatsSnapshot {
                total_switches: 0,
                total_voluntary: 0,
                total_involuntary: 0,
                total_migrations: 0,
                total_user: 0,
                total_sys: 0,
                total_idle: 0,
            }),
    {
        GlobalStatsSnapshot {
            total_switches: 0,
            total_voluntary: 0,
            total_involuntary: 0,
            total_migrations: 0,
            total_user: 0,
            total_sys: 0,
            total_idle: 0,
        }
    }
}

/// Counter `k` of a CPU's statistics: switches, voluntary, involuntary, migrations,
/// user, system and idle time for `k` from 0 to 6.
pub open spec fn stat_counter(s: PerCpuStats, k: int) -> int {
    if k == 0 {
        s.switches as int
    } else if k == 1 {
        s.voluntary as int
    } else if k == 2 {
        s.involuntary as int
    } else if k == 3 {
        s.migrations as int
    } else if k == 4 {
        s.user_time as int
    } else if k == 5 {
        s.sys_time as int
    } else {
        s.idle_time as int
    }
}

/// Sum of counter `k` over the first `n` queues.
pub open spec fn stat_sum(rqs: Seq<RunQueue>, k: int, n: int) -> int
    decreases n,
{
    if n <= 0 {
        0
    } else {
        stat_sum(rqs, k, n - 1) + stat_counter(rqs[n - 1].stats, k)
    }
}

/// Counter `k` of a snapshot, in the order of `stat_counter`.
pub open spec fn snapshot_counter(g: GlobalStatsSnapshot, k: int) -> int {
    if k == 0 {
        g.total_switches as int
    } else if k == 1 {
        g.total_voluntary as int
    } else if k == 2 {
        g.total_involuntary as int
    } else if k == 3 {
        g.total_migrations as int
    } else if k == 4 {
        g.total_user as int
    } else if k == 5 {
        g.total_sys as int
    } else {
        g.total_idle as int
    }
}

proof fn lemma_stat_sum_mono(rqs: Seq<RunQueue>, k: int, i: int, n: int)
    requires
        0 <= i <= n,
    ensures
        stat_sum(rqs, k, i) <= stat_sum(rqs, k, n),
    decreases n - i,
{
    if i < n {
        lemma_stat_sum_mono(rqs, k, i, n - 1);
    }
}

/// Sum each counter over all run queues; the sums must fit in 64 bits.
pub fn collect_global(registry: &[RunQueue]) -> (r: GlobalStatsSnapshot)
    requires
        forall|k: int| 0 <= k < 7 ==> stat_sum(registry@, k, registry@.len() as int) <= u64::MAX,
    ensures
        forall|k: int| 0 <= k < 7 ==> snapshot_counter(r, k) == stat_sum(registry@, k, registry@.len() as int),
{
    let mut snap = GlobalStatsSnapshot::default();
    let n = registry.len();
    let mut i: usize = 0;
    while i < n
        invariant
            i <= n,
            n == registry@.len(),
            forall|k: int| 0 <= k < 7 ==> stat_sum(registry@, k, n as int) <= u64::MAX,
            forall|k: int| 0 <= k < 7 ==> snapshot_counter(snap, k) == stat_sum(registry@, k, i as int),
        decreases n - i,
    {
        proof {
            lemma_stat_sum_mono(registry@, 0, i + 1, n as int);
            lemma_stat_sum_mono(registry@, 1, i + 1, n as int);
            lemma_stat_sum_mono(registry@, 2, i + 1, n as int);
            lemma_stat_sum_mono(registry@, 3, i + 1, n as int);
            lemma_stat_sum_mono(registry@, 4, i + 1, n as int);
            lemma_stat_sum_mono(registry@, 5, i + 1, n as int);
            lemma_stat_sum_mono(registry@, 6, i + 1, n as int);
            assert(stat_sum(registry@, 0, i + 1) <= u64::MAX);
            assert(stat_sum(registry@, 1, i + 1) <= u64::MAX);
            assert(stat_sum(registry@, 2, i + 1) <= u64::MAX);
            assert(stat_sum(registry@, 3, i + 1) <= u64::MAX);
            assert(stat_sum(registry@, 4, i + 1) <= u64::MAX);
            assert(stat_sum(registry@, 5, i + 1) <= u64::MAX);
            assert(stat_sum(registry@, 6, i + 1) <= u64::MAX);
            assert(snapshot_counter(snap, 0) == stat_sum(registry@, 0, i as int));
            assert(snapshot_counter(snap, 1) == stat_sum(registry@, 1, i as int));
            assert(snapshot_counter(snap, 2) == stat_sum(registry@, 2, i as int));
            assert(snapshot_counter(snap, 3) == stat_sum(registry@, 3, i as int));
            assert(snapshot_counter(snap, 4) == stat_sum(registry@, 4, i as int));
            assert(snapshot_counter(snap, 5) == stat_sum(registry@, 5, i as int));
            assert(snapshot_counter(snap, 6) == stat_sum(registry@, 6, i as int));
        }
        let s = &registry[i].stats;
        snap.total_switches = snap.total_switches + s.switches;
        snap.total_voluntary = snap.total_voluntary + s.voluntary;
        snap.total_involuntary = snap.total_involuntary + s.involuntary;
        snap.total_migrations = snap.total_migrations + s.migrations;
        snap.total_user = snap.total_user + s.user_time;
        snap.total_sys = snap.total_sys + s.sys_time;
        snap.total_idle = snap.total_idle + s.idle_time;
        i = i + 1;
    }
    snap
}

} // verus!
