//! A run queue with one FIFO lane per priority and a list of scheduling keys that
//! decides which task runs next.
use vstd::prelude::*;
use std::collections::VecDeque;
use super::policy::{Policy, Priority, SchedulingKey, key_before, policy_rank};
use super::types::{Deadline, TaskId};

verus! {

/// Lanes of a run queue, one per priority.
pub const LANES: usize = 32;

/// Queue counters.
#[derive(Clone, Copy, Debug, PartialEq, Eq, Structural)]
pub struct QueueSnapshot {
    pub ready: usize,
    pub pushes: u64,
    pub pops: u64,
    pub steals: u64,
    pub aged: u64,
}

impl Default for QueueSnapshot {
    fn default() -> (r: Self)
        ensures
            r == (QueueSnapshot { ready: 0, pushes: 0, pops: 0, steals: 0, aged: 0 }),
    {
        QueueSnapshot { ready: 0, pushes: 0, pops: 0, steals: 0, aged: 0 }
    }
}

/// A key with its virtual run time brought down to `now` when it is later.
pub open spec fn adjusted(k: SchedulingKey, now: u64) -> SchedulingKey {
    SchedulingKey { virtual_runtime: if k.virtual_runtime < now { k.virtual_runtime } else { now }, ..k }
}

/// The entry chosen among the first `n` keys: scanning in order, an entry replaces the
/// current choice when its key, adjusted to `now`, runs before the choice's stored key.
pub open spec fn best_index(keys: Seq<(TaskId, SchedulingKey)>, now: u64, n: int) -> Option<int>
    decreases n,
{
    if n <= 0 {
        None
    } else {
        match best_index(keys, now, n - 1) {
            None => Some(n - 1),
            Some(j) => if key_before(adjusted(keys[n - 1].1, now), keys[j].1) {
                Some(n - 1)
            } else {
                Some(j)
            },
        }
    }
}

proof fn lemma_best_index_range(keys: Seq<(TaskId, SchedulingKey)>, now: u64, n: int)
    requires
        n >= 0,
    ensures
        match best_index(keys, now, n) {
            None => n == 0,
            Some(j) => 0 <= j < n,
        },
    decreases n,
{
    if n > 0 {
        lemma_best_index_range(keys, now, n - 1);
    }
}

/// Number of tasks in the first `n` lanes.
pub open spec fn lanes_len(lanes: Seq<Seq<TaskId>>, n: int) -> int
    decreases n,
{
    if n <= 0 {
        0
    } else {
        lanes_len(lanes, n - 1) + lanes[n - 1].len()
    }
}

/// The first lane that holds `id`, among the first `n`.
pub open spec fn lane_of(lanes: Seq<Seq<TaskId>>, id: TaskId, n: int) -> Option<int>
    decreases n,
{
    if n <= 0 {
        None
    } else {
        match lane_of(lanes, id, n - 1) {
            Some(l) => Some(l),
            None => if lanes[n - 1].contains(id) {
                Some(n - 1)
            } else {
                None
            },
        }
    }
}

/// The first position of `id` in a lane.
pub open spec fn first_pos(lane: Seq<TaskId>, id: TaskId) -> int {
    choose|p: int| 0 <= p < lane.len() && lane[p] == id && forall|q: int| 0 <= q < p ==> lane[q] != id
}

/// The lanes with the first occurrence of `id`, in the first lane that has it,
/// taken out.
pub open spec fn lanes_without(lanes: Seq<Seq<TaskId>>, id: TaskId) -> Seq<Seq<TaskId>> {
    match lane_of(lanes, id, lanes.len() as int) {
        None => lanes,
        Some(l) => lanes.update(l, lanes[l].remove(first_pos(lanes[l], id))),
    }
}

/// The last non-empty lane among the first `n`.
pub open spec fn last_busy_lane(lanes: Seq<Seq<TaskId>>, n: int) -> Option<int>
    decreases n,
{
    if n <= 0 {
        None
    } else if lanes[n - 1].len() > 0 {
        Some(n - 1)
    } else {
        last_busy_lane(lanes, n - 1)
    }
}

/// The first entry of `keys` for `id`.
pub open spec fn key_pos(keys: Seq<(TaskId, SchedulingKey)>, id: TaskId) -> Option<int> {
    if exists|p: int| 0 <= p < keys.len() && keys[p].0 == id {
        Some(
            choose|p: int| 0 <= p < keys.len() && keys[p].0 == id && forall|q: int| 0 <= q < p ==> keys[q].0 != id,
        )
    } else {
        None
    }
}

/// `keys` with entry `i` replaced by the last and the last dropped.
pub open spec fn swap_removed(keys: Seq<(TaskId, SchedulingKey)>, i: int) -> Seq<(TaskId, SchedulingKey)> {
    keys.update(i, keys.last()).drop_last()
}

/// A run queue of one CPU.
pub struct RunQueue {
    cpu: usize,
    lanes: Vec<VecDeque<TaskId>>,
    keys: Vec<(TaskId, SchedulingKey)>,
    sequence: u64,
    snapshot: QueueSnapshot,
}

impl RunQueue {
    /// The lanes' contents, front first.
    pub closed spec fn lanes_spec(&self) -> Seq<Seq<TaskId>> {
        self.lanes@.map_values(|d: VecDeque<TaskId>| d@)
    }

    /// The scheduling keys of the queued tasks.
    pub closed spec fn keys_spec(&self) -> Seq<(TaskId, SchedulingKey)> {
        self.keys@
    }

    /// Sequence number of the next push.
    pub closed spec fn sequence_spec(&self) -> u64 {
        self.sequence
    }

    /// The counters.
    pub closed spec fn snapshot_spec(&self) -> QueueSnapshot {
        self.snapshot
    }

    /// The CPU of the queue.
    pub closed spec fn cpu_spec(&self) -> usize {
        self.cpu
    }

    /// One lane per priority.
    pub closed spec fn wf(&self) -> bool {
        self.lanes@.len() == LANES
    }

    /// An empty queue of `cpu`.
    pub fn new(cpu: usize) -> (r: Self)
        ensures
            r.wf(),
            r.cpu_spec() == cpu,
            r.lanes_spec() == Seq::new(LANES as nat, |i: int| Seq::<TaskId>::empty()),
            r.keys_spec() == Seq::<(TaskId, SchedulingKey)>::empty(),
            r.sequence_spec() == 0,
            r.snapshot_spec() == (QueueSnapshot { ready: 0, pushes: 0, pops: 0, steals: 0, aged: 0 }),
    {
        let mut lanes: Vec<VecDeque<TaskId>> = Vec::new();
        let mut i: usize = 0;
        while i < LANES
            invariant
                i <= LANES,
                lanes.len() == i,
                forall|j: int| 0 <= j < i ==> lanes@[j]@ == Seq::<TaskId>::empty(),
            decreases LANES - i,
        {
            lanes.push(VecDeque::new());
            i = i + 1;
        }
        let r = RunQueue { cpu, lanes, keys: Vec::new(), sequence: 0, snapshot: QueueSnapshot::default() };
        assert(r.lanes_spec() =~= Seq::new(LANES as nat, |i: int| Seq::<TaskId>::empty()));
        r
    }

    /// Number of tasks in the lanes.
    pub fn len(&self) -> (r: usize)
        requires
            self.wf(),
            lanes_len(self.lanes_spec(), LANES as int) <= usize::MAX,
        ensures
            r == lanes_len(self.lanes_spec(), LANES as int),
    {
        let mut total: usize = 0;
        let mut i: usize = 0;
        while i < LANES
            invariant
                self.wf(),
                i <= LANES,
                lanes_len(self.lanes_spec(), LANES as int) <= usize::MAX,
                total == lanes_len(self.lanes_spec(), i as int),
            decreases LANES - i,
        {
            proof {
                lemma_lanes_len_mono(self.lanes_spec(), i as int + 1, LANES as int);
            }
            total = total + self.lanes[i].len();
            i = i + 1;
        }
        total
    }

    /// No task is in the lanes.
    pub fn is_empty(&self) -> (r: bool)
        requires
            self.wf(),
            lanes_len(self.lanes_spec(), LANES as int) <= usize::MAX,
        ensures
            r == (lanes_len(self.lanes_spec(), LANES as int) == 0),
    {
        self.len() == 0
    }

    /// Queue `id` at the back of its priority's lane, with a key for its policy,
    /// deadline and `now`, under the next sequence number.
    pub fn push(&mut self, id: TaskId, p: Priority, policy: Policy, deadline: Option<Deadline>, now: u64)
        requires
            old(self).wf(),
            p.0 < LANES,
            old(self).snapshot_spec().pushes < u64::MAX,
        ensures
            final(self).wf(),
            final(self).cpu_spec() == old(self).cpu_spec(),
            final(self).lanes_spec() == old(self).lanes_spec().update(
                p.0 as int,
                old(self).lanes_spec()[p.0 as int].push(id),
            ),
            final(self).keys_spec() == old(self).keys_spec().push(
                (
                    id,
                    SchedulingKey {
                        class_rank: policy_rank(policy),
                        priority: p.0,
                        deadline: match deadline {
                            Some(d) => d.deadline_ns,
                            None => u64::MAX,
                        },
                        virtual_runtime: now,
                        sequence: old(self).sequence_spec(),
                    },
                ),
            ),
            final(self).sequence_spec() == vstd::wrapping::u64_specs::wrapping_add(old(self).sequence_spec(), 1),
            final(self).snapshot_spec() == (QueueSnapshot {
                pushes: (old(self).snapshot_spec().pushes + 1) as u64,
                ..old(self).snapshot_spec()
            }),
    {
        let d = match deadline {
            Some(d) => Some(d.deadline_ns),
            None => None,
        };
        let k = SchedulingKey::for_task(p, policy, d, now, self.sequence);
        self.sequence = self.sequence.wrapping_add(1);
        let idx = p.value() as usize;
        let ghost before = self.lanes@;
        let mut lane = self.lanes.remove(idx);
        lane.push_back(id);
        self.lanes.insert(idx, lane);
        assert(self.lanes@ =~= before.update(idx as int, lane));
        assert(self.lanes_spec() =~= old(self).lanes_spec().update(
            p.0 as int,
            old(self).lanes_spec()[p.0 as int].push(id),
        ));
        self.keys.push((id, k));
        self.snapshot.pushes = self.snapshot.pushes + 1;
    }

    /// Take out the first occurrence of `id` from the first lane that holds it.
    fn remove_from_lanes(&mut self, id: TaskId)
        requires
            old(self).wf(),
        ensures
            final(self).wf(),
            final(self).lanes_spec() == lanes_without(old(self).lanes_spec(), id),
            final(self).keys_spec() == old(self).keys_spec(),
            final(self).sequence_spec() == old(self).sequence_spec(),
            final(self).snapshot_spec() == old(self).snapshot_spec(),
            final(self).cpu_spec() == old(self).cpu_spec(),
    {
        let ghost ls = self.lanes_spec();
        let mut l: usize = 0;
        while l < LANES
            invariant
                self.wf(),
                *self == *old(self),
                ls == self.lanes_spec(),
                ls.len() == LANES,
                l <= LANES,
                lane_of(ls, id, l as int).is_none(),
            decreases LANES - l,
        {
            assert(ls[l as int] == self.lanes@[l as int]@);
            let n = self.lanes[l].len();
            let mut pos: usize = 0;
            while pos < n
                invariant
                    self.wf(),
                    *self == *old(self),
                    ls == self.lanes_spec(),
                    l < LANES,
                    lane_of(ls, id, l as int).is_none(),
                    ls[l as int] == self.lanes@[l as int]@,
                    n == ls[l as int].len(),
                    pos <= n,
                    forall|q: int| 0 <= q < pos ==> ls[l as int][q] != id,
                decreases n - pos,
            {
                if self.lanes[l][pos] == id {
                    proof {
                        assert(ls[l as int][pos as int] == id);
                        assert(ls[l as int].contains(id));
                        assert(lane_of(ls, id, l as int + 1) == Some(l as int));
                        lemma_lane_of_stable(ls, id, l as int + 1, LANES as int);
                        let fp = first_pos(ls[l as int], id);
                        assert(0 <= fp < ls[l as int].len() && ls[l as int][fp] == id && forall|q: int|
                            0 <= q < fp ==> ls[l as int][q] != id);
                        if fp < pos {
                        } else if fp > pos {
                        }
                        assert(fp == pos);
                    }
                    let ghost before = self.lanes@;
                    let mut lane = self.lanes.remove(l);
                    lane.remove(pos);
                    self.lanes.insert(l, lane);
                    assert(self.lanes@ =~= before.update(l as int, lane));
                    assert(self.lanes_spec() =~= lanes_without(ls, id));
                    return;
                }
                pos = pos + 1;
            }
            proof {
                assert(!ls[l as int].contains(id));
            }
            l = l + 1;
        }
        proof {
            assert(ls.len() == LANES);
        }
    }

    /// Take the task whose key runs first, its virtual run time brought down to
    /// `now`; none when no key is queued.
    pub fn pop(&mut self, now: u64) -> (r: Option<TaskId>)
        requires
            old(self).wf(),
            old(self).keys_spec().len() > 0 ==> old(self).snapshot_spec().pops < u64::MAX,
        ensures
            final(self).wf(),
            final(self).cpu_spec() == old(self).cpu_spec(),
            final(self).sequence_spec() == old(self).sequence_spec(),
            match best_index(old(self).keys_spec(), now, old(self).keys_spec().len() as int) {
                None => r.is_none() && *final(self) == *old(self),
                Some(i) => {
                    &&& r == Some(old(self).keys_spec()[i].0)
                    &&& final(self).keys_spec() == swap_removed(old(self).keys_spec(), i)
                    &&& final(self).lanes_spec() == lanes_without(old(self).lanes_spec(), old(self).keys_spec()[i].0)
                    &&& final(self).snapshot_spec() == (QueueSnapshot {
                        pops: (old(self).snapshot_spec().pops + 1) as u64,
                        ..old(self).snapshot_spec()
                    })
                },
            },
    {
        let mut best: Option<usize> = None;
        let n = self.keys.len();
        let mut i: usize = 0;
        while i < n
            invariant
                n == self.keys@.len(),
                i <= n,
                best == match best_index(self.keys@, now, i as int) {
                    None => None::<usize>,
                    Some(j) => Some(j as usize),
                },
                forall|j: usize| best == Some(j) ==> j < i,
            decreases n - i,
        {
            proof {
                lemma_best_index_range(self.keys@, now, i as int);
            }
            let (_, k) = self.keys[i];
            let mut key = k;
            if now < key.virtual_runtime {
                key.virtual_runtime = now;
            }
            let replace = match best {
                None => true,
                Some(b) => key.better_than(self.keys[b].1),
            };
            if replace {
                best = Some(i);
            }
            i = i + 1;
        }
        proof {
            lemma_best_index_range(self.keys@, now, n as int);
        }
        let i = match best {
            None => return None,
            Some(i) => i,
        };
        let (id, _) = self.keys.swap_remove(i);
        self.remove_from_lanes(id);
        self.snapshot.pops = self.snapshot.pops + 1;
        Some(id)
    }

    /// Take the task at the back of the highest non-empty lane and drop its first
    /// key; none when every lane is empty.
    pub fn steal_one(&mut self, _now: u64) -> (r: Option<TaskId>)
        requires
            old(self).wf(),
            old(self).snapshot_spec().steals < u64::MAX,
        ensures
            final(self).wf(),
            final(self).cpu_spec() == old(self).cpu_spec(),
            final(self).sequence_spec() == old(self).sequence_spec(),
            match last_busy_lane(old(self).lanes_spec(), LANES as int) {
                None => r.is_none() && *final(self) == *old(self),
                Some(l) => {
                    let lane = old(self).lanes_spec()[l];
                    let id = lane.last();
                    &&& r == Some(id)
                    &&& final(self).lanes_spec() == old(self).lanes_spec().update(l, lane.drop_last())
                    &&& final(self).keys_spec() == match key_pos(old(self).keys_spec(), id) {
                        None => old(self).keys_spec(),
                        Some(p) => swap_removed(old(self).keys_spec(), p),
                    }
                    &&& final(self).snapshot_spec() == (QueueSnapshot {
                        steals: (old(self).snapshot_spec().steals + 1) as u64,
                        ..old(self).snapshot_spec()
                    })
                },
            },
    {
        let ghost ls = self.lanes_spec();
        let mut l: usize = LANES;
        while l > 0
            invariant
                self.wf(),
                *self == *old(self),
                ls == self.lanes_spec(),
                ls.len() == LANES,
                l <= LANES,
                last_busy_lane(ls, LANES as int) == last_busy_lane(ls, l as int),
            ensures
                last_busy_lane(ls, LANES as int) == last_busy_lane(ls, l as int),
                l <= LANES,
                l > 0 ==> ls[l - 1].len() > 0,
            decreases l,
        {
            assert(ls[l - 1] == self.lanes@[l - 1]@);
            if self.lanes[l - 1].len() > 0 {
                break;
            }
            l = l - 1;
        }
        if l == 0 {
            return None;
        }
        let li = l - 1;
        assert(last_busy_lane(ls, LANES as int) == Some(li as int));
        let ghost before = self.lanes@;
        assert(ls[li as int] == before[li as int]@);
        let mut lane = self.lanes.remove(li);
        let popped = lane.pop_back();
        assert(lane@ =~= ls[li as int].drop_last());
        self.lanes.insert(li, lane);
        assert(self.lanes@ =~= before.update(li as int, lane));
        assert(self.lanes_spec() =~= ls.update(li as int, ls[li as int].drop_last()));
        let id = match popped {
            Some(id) => id,
            None => {
                return None;
            },
        };
        let n = self.keys.len();
        let mut p: usize = 0;
        let mut found = false;
        while p < n && !found
            invariant
                n == self.keys@.len(),
                self.keys@ == old(self).keys@,
                p <= n,
                found ==> p < n && self.keys@[p as int].0 == id,
                forall|q: int| 0 <= q < p ==> self.keys@[q].0 != id,
            decreases n - p + (if found { 0int } else { 1int }),
        {
            if self.keys[p].0 == id {
                found = true;
            } else {
                p = p + 1;
            }
        }
        if found {
            proof {
                let kp = key_pos(self.keys@, id);
                assert(exists|x: int| 0 <= x < self.keys@.len() && self.keys@[x].0 == id);
                let c = kp.unwrap();
                assert(0 <= c < self.keys@.len() && self.keys@[c].0 == id && forall|q: int|
                    0 <= q < c ==> self.keys@[q].0 != id);
                if c < p {
                } else if c > p {
                }
            }
            self.keys.swap_remove(p);
        }
        self.snapshot.steals = self.snapshot.steals + 1;
        Some(id)
    }

    /// Count an ageing pass (saturating).
    pub fn promote_aged(&mut self, _now: u64)
        ensures
            final(self).lanes_spec() == old(self).lanes_spec(),
            final(self).keys_spec() == old(self).keys_spec(),
            final(self).sequence_spec() == old(self).sequence_spec(),
            final(self).cpu_spec() == old(self).cpu_spec(),
            final(self).wf() == old(self).wf(),
            final(self).snapshot_spec() == (QueueSnapshot {
                aged: old(self).snapshot_spec().aged.saturating_add(1),
                ..old(self).snapshot_spec()
            }),
    {
        self.snapshot.aged = self.snapshot.aged.saturating_add(1);
    }

    /// Load of the queue: 1024 per queued task plus pushes not yet popped.
    pub fn load_score(&self) -> (r: u64)
        requires
            self.wf(),
            lanes_len(self.lanes_spec(), LANES as int) <= usize::MAX,
            lanes_len(self.lanes_spec(), LANES as int) * 1024 + self.snapshot_spec().pushes.saturating_sub(
                self.snapshot_spec().pops,
            ) <= u64::MAX,
        ensures
            r == lanes_len(self.lanes_spec(), LANES as int) * 1024 + self.snapshot_spec().pushes.saturating_sub(
                self.snapshot_spec().pops,
            ),
    {
        let n = self.len();
        n as u64 * 1024 + self.snapshot.pushes.saturating_sub(self.snapshot.pops)
    }

    /// The counters.
    pub fn snapshot(&self) -> (r: QueueSnapshot)
        ensures
            r == self.snapshot_spec(),
    {
        self.snapshot
    }
}

proof fn lemma_lanes_len_mono(lanes: Seq<Seq<TaskId>>, i: int, n: int)
    requires
        0 <= i <= n,
    ensures
        lanes_len(lanes, i) <= lanes_len(lanes, n),
    decreases n - i,
{
    if i < n {
        lemma_lanes_len_mono(lanes, i, n - 1);
    }
}

proof fn lemma_lane_of_stable(lanes: Seq<Seq<TaskId>>, id: TaskId, i: int, n: int)
    requires
        0 <= i <= n,
        lane_of(lanes, id, i).is_some(),
    ensures
        lane_of(lanes, id, n) == lane_of(lanes, id, i),
    decreases n - i,
{
    if i < n {
        lemma_lane_of_stable(lanes, id, i, n - 1);
    }
}


/// With a single queued key, that key's task is the one popped.
pub proof fn law_single_key_is_popped(id: TaskId, k: SchedulingKey, now: u64)
    ensures
        best_index(seq![(id, k)], now, 1) == Some(0int),
{
    assert(best_index(seq![(id, k)], now, 0) == None::<int>);
}

} // verus!
