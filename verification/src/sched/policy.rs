//! Task classes, scheduling policies, bounded priorities with ageing, and the key
//! that orders runnable tasks.
use vstd::prelude::*;

verus! {

/// Behavioural class of a task.
#[derive(Clone, Copy, Debug, PartialEq, Eq, Structural)]
pub enum Class {
    Idle,
    RealTime,
    Interactive,
    Normal,
    Background,
}

/// Policy a task is scheduled under.
#[derive(Clone, Copy, Debug, PartialEq, Eq, Structural)]
pub enum Policy {
    Idle,
    Fifo,
    Edf,
    Fair,
    Batch,
}

/// Highest priority value.
pub const MAX_PRIORITY: u8 = 31;

/// A priority from 0 (lowest) to 31 (highest).
#[derive(Clone, Copy, Debug, PartialEq, Eq, PartialOrd, Ord, Structural)]
pub struct Priority(pub u8);

/// Ageing bonus of a class.
pub open spec fn class_bonus(class: Class) -> int {
    match class {
        Class::RealTime => 8,
        Class::Interactive => 4,
        Class::Normal => 2,
        Class::Background => 0,
        Class::Idle => 0,
    }
}

/// `v` capped at the highest priority.
pub open spec fn capped(v: int) -> u8 {
    if v > 31 {
        31
    } else {
        v as u8
    }
}

impl Priority {
    /// `v`, capped at 31.
    pub fn new(v: u8) -> (r: Self)
        ensures
            r.0 == capped(v as int),
    {
        Priority(if v > 31 { 31 } else { v })
    }

    /// Priority 0.
    pub fn lowest() -> (r: Self)
        ensures
            r.0 == 0,
    {
        Priority(0)
    }

    /// Priority 31.
    pub fn highest() -> (r: Self)
        ensures
            r.0 == 31,
    {
        Priority(31)
    }

    /// The numeric priority.
    pub fn value(self) -> (r: u8)
        ensures
            r == self.0,
    {
        self.0
    }

    /// The priority raised for waiting `wait_ns`: one step per 2 ms of waiting, at
    /// most 15, plus the class's bonus, capped at 31.
    pub fn aged(self, wait_ns: u64, class: Class) -> (r: Self)
        ensures
            r.0 == capped(
                self.0 + (if wait_ns / 2_000_000 < 15 {
                    wait_ns / 2_000_000
                } else {
                    15
                }) + class_bonus(class),
            ),
    {
        let q = wait_ns / 2_000_000;
        let step: u8 = if q < 15 { q as u8 } else { 15 };
        let bonus: u8 = match class {
            Class::RealTime => 8,
            Class::Interactive => 4,
            Class::Background => 0,
            Class::Idle => 0,
            Class::Normal => 2,
        };
        Self::new(self.0.saturating_add(step).saturating_add(bonus))
    }
}

/// Key by which runnable tasks are ordered.
#[derive(Clone, Copy, Debug, PartialEq, Eq, Structural)]
pub struct SchedulingKey {
    pub class_rank: u8,
    pub priority: u8,
    pub deadline: u64,
    pub virtual_runtime: u64,
    pub sequence: u64,
}

/// Rank of a policy: deadline tasks first, then FIFO, fair, batch, idle.
pub open spec fn policy_rank(policy: Policy) -> u8 {
    match policy {
        Policy::Edf => 5,
        Policy::Fifo => 4,
        Policy::Fair => 3,
        Policy::Batch => 2,
        Policy::Idle => 0,
    }
}

/// `a` runs before `b`: higher rank; then, among deadline tasks, the earlier deadline;
/// then the higher priority, the smaller virtual run time, the earlier sequence number.
pub open spec fn key_before(a: SchedulingKey, b: SchedulingKey) -> bool {
    if a.class_rank != b.class_rank {
        a.class_rank > b.class_rank
    } else if a.class_rank == 5 && a.deadline != b.deadline {
        a.deadline < b.deadline
    } else if a.priority != b.priority {
        a.priority > b.priority
    } else if a.virtual_runtime != b.virtual_runtime {
        a.virtual_runtime < b.virtual_runtime
    } else {
        a.sequence < b.sequence
    }
}

impl SchedulingKey {
    /// The key of a task: its policy's rank, its priority, its deadline (latest when
    /// it has none), `now` as its virtual run time, and its sequence number.
    pub fn for_task(priority: Priority, policy: Policy, deadline: Option<u64>, now: u64, sequence: u64) -> (r: Self)
        ensures
            r == (SchedulingKey {
                class_rank: policy_rank(policy),
                priority: priority.0,
                deadline: match deadline {
                    Some(d) => d,
                    None => u64::MAX,
                },
                virtual_runtime: now,
                sequence,
            }),
    {
        let class_rank: u8 = match policy {
            Policy::Edf => 5,
            Policy::Fifo => 4,
            Policy::Fair => 3,
            Policy::Batch => 2,
            Policy::Idle => 0,
        };
        SchedulingKey {
            class_rank,
            priority: priority.value(),
            deadline: match deadline {
                Some(d) => d,
                None => u64::MAX,
            },
            virtual_runtime: now,
            sequence,
        }
    }

    /// This key runs before `other`.
    pub fn better_than(self, other: Self) -> (r: bool)
        ensures
            r == key_before(self, other),
    {
        if self.class_rank != other.class_rank {
            return self.class_rank > other.class_rank;
        }
        if self.class_rank == 5 && self.deadline != other.deadline {
            return self.deadline < other.deadline;
        }
        if self.priority != other.priority {
            return self.priority > other.priority;
        }
        if self.virtual_runtime != other.virtual_runtime {
            return self.virtual_runtime < other.virtual_runtime;
        }
        self.sequence < other.sequence
    }
}

/// No key runs before itself.
pub proof fn law_better_than_irreflexive(a: SchedulingKey)
    ensures
        !key_before(a, a),
{
}

/// Of two keys with different sequence numbers, exactly one runs first.
pub proof fn law_better_than_total(a: SchedulingKey, b: SchedulingKey)
    requires
        a.sequence != b.sequence,
    ensures
        key_before(a, b) != key_before(b, a),
{
}

/// Running first is transitive.
pub proof fn law_better_than_transitive(a: SchedulingKey, b: SchedulingKey, c: SchedulingKey)
    requires
        key_before(a, b),
        key_before(b, c),
    ensures
        key_before(a, c),
{
}

/// Ageing never lowers a priority and never exceeds the highest one.
pub proof fn law_aged_bounded(p: Priority, wait_ns: u64, class: Class)
    requires
        p.0 <= 31,
    ensures
        ({
            let step = if wait_ns / 2_000_000 < 15 { wait_ns / 2_000_000 } else { 15 };
            let a = capped(p.0 + step + class_bonus(class));
            p.0 <= a <= 31
        }),
{
}

/// Of two keys of one class (and, for deadline tasks, one deadline) with different
/// priorities, the numerically larger priority runs first.
pub proof fn law_higher_priority_runs_first(a: SchedulingKey, b: SchedulingKey)
    requires
        a.class_rank == b.class_rank,
        a.class_rank == 5 ==> a.deadline == b.deadline,
        a.priority != b.priority,
    ensures
        key_before(a, b) <==> a.priority > b.priority,
        key_before(a, b) <==> !key_before(b, a),
{
}

/// A higher class rank runs first, whatever the rest of the keys; among deadline
/// keys of one rank, the earlier deadline runs first.
pub proof fn law_rank_and_deadline_first(a: SchedulingKey, b: SchedulingKey)
    ensures
        a.class_rank > b.class_rank ==> key_before(a, b) && !key_before(b, a),
        a.class_rank == 5 && b.class_rank == 5 && a.deadline < b.deadline ==> key_before(a, b) && !key_before(b, a),
{
}

/// With class, deadline and priority equal, the smaller virtual run time runs first,
/// and with that equal too, the earlier sequence number.
pub proof fn law_tie_breaks(a: SchedulingKey, b: SchedulingKey)
    requires
        a.class_rank == b.class_rank,
        a.class_rank == 5 ==> a.deadline == b.deadline,
        a.priority == b.priority,
    ensures
        a.virtual_runtime != b.virtual_runtime ==> (key_before(a, b) <==> a.virtual_runtime < b.virtual_runtime),
        a.virtual_runtime == b.virtual_runtime ==> (key_before(a, b) <==> a.sequence < b.sequence),
{
}

} // verus!
