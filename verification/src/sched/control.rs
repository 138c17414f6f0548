//! Scheduler configuration and its validation, task policy updates and snapshots,
//! scheduler events and their counters, load windows and placement scores. No
//! hardware is touched here.
use vstd::prelude::*;
use super::policy::{Class, Policy, Priority};
use super::types::{CpuMask, Deadline, TaskBudget, TaskConfig, TaskId, TaskState};

verus! {

/// How the scheduler runs.
#[derive(Clone, Copy, Debug, PartialEq, Eq, Structural)]
pub enum SchedulerMode {
    Disabled,
    Cooperative,
    Preemptive,
    Deterministic,
}

/// When tasks move between CPUs.
#[derive(Clone, Copy, Debug, PartialEq, Eq, Structural)]
pub enum MigrationPolicy {
    Disabled,
    Periodic,
    Pressure,
    Aggressive,
}

/// Where a waking task is placed.
#[derive(Clone, Copy, Debug, PartialEq, Eq, Structural)]
pub enum WakePolicy {
    PreserveCpu,
    Pack,
    Spread,
    PreferIdle,
}

/// Why a configuration is refused.
#[derive(Clone, Copy, Debug, PartialEq, Eq, Structural)]
pub enum ConfigError {
    ZeroQuantum,
    QuantumTooSmall,
    QuantumTooLarge,
    InvalidAgingPeriod,
    InvalidCpuMask,
    DeadlineWithoutRealtimeClass,
    RuntimeExceedsDeadline,
    BudgetWindowTooSmall,
    AffinityHasNoOnlineCpu,
}

/// Scheduler-wide settings; `online_cpus` has bit `i` set for online CPU `i`.
#[derive(Clone, Copy, Debug, PartialEq, Eq, Structural)]
pub struct SchedulerConfig {
    pub mode: SchedulerMode,
    pub quantum_ns: u64,
    pub min_quantum_ns: u64,
    pub max_quantum_ns: u64,
    pub aging_period_ns: u64,
    pub load_balance_period_ns: u64,
    pub migration: MigrationPolicy,
    pub wake_policy: WakePolicy,
    pub max_latency_ns: u64,
    pub watchdog_ns: u64,
    pub online_cpus: u64,
}

/// The default settings: cooperative, 4 ms quanta within 0.5 to 50 ms, one CPU.
pub open spec fn default_config() -> SchedulerConfig {
    SchedulerConfig {
        mode: SchedulerMode::Cooperative,
        quantum_ns: 4_000_000,
        min_quantum_ns: 500_000,
        max_quantum_ns: 50_000_000,
        aging_period_ns: 2_000_000,
        load_balance_period_ns: 10_000_000,
        migration: MigrationPolicy::Pressure,
        wake_policy: WakePolicy::PreferIdle,
        max_latency_ns: 20_000_000,
        watchdog_ns: 500_000_000,
        online_cpus: 1,
    }
}

impl Default for SchedulerConfig {
    fn default() -> (r: Self)
        ensures
            r == default_config(),
    {
        SchedulerConfig {
            mode: SchedulerMode::Cooperative,
            quantum_ns: 4_000_000,
            min_quantum_ns: 500_000,
            max_quantum_ns: 50_000_000,
            aging_period_ns: 2_000_000,
            load_balance_period_ns: 10_000_000,
            migration: MigrationPolicy::Pressure,
            wake_policy: WakePolicy::PreferIdle,
            max_latency_ns: 20_000_000,
            watchdog_ns: 500_000_000,
            online_cpus: 1,
        }
    }
}

/// The first rule a configuration breaks, in order: a zero quantum; no minimum or
/// a quantum below it; a quantum above the maximum; no ageing period; no online CPU;
/// a watchdog shorter than the latency bound (reported as an ageing-period error).
pub open spec fn config_check(c: SchedulerConfig) -> Result<(), ConfigError> {
    if c.quantum_ns == 0 {
        Err(ConfigError::ZeroQuantum)
    } else if c.min_quantum_ns == 0 || c.quantum_ns < c.min_quantum_ns {
        Err(ConfigError::QuantumTooSmall)
    } else if c.max_quantum_ns < c.quantum_ns {
        Err(ConfigError::QuantumTooLarge)
    } else if c.aging_period_ns == 0 {
        Err(ConfigError::InvalidAgingPeriod)
    } else if c.online_cpus == 0 {
        Err(ConfigError::InvalidCpuMask)
    } else if c.watchdog_ns < c.max_latency_ns {
        Err(ConfigError::InvalidAgingPeriod)
    } else {
        Ok(())
    }
}

/// Bit `i` of a word.
pub open spec fn bit_of(w: u64, i: int) -> bool {
    0 <= i < 64 && (w >> (i as u64)) & 1 == 1
}

/// The low `n` bits set, `1 <= n <= 64`.
pub open spec fn low_bits(n: int) -> u64 {
    if n >= 64 {
        u64::MAX
    } else {
        ((1u64 << (n as u64)) - 1) as u64
    }
}

proof fn lemma_low_bits(n: u64, i: u64)
    by (bit_vector)
    requires
        1 <= n < 64,
        i < 64,
    ensures
        ((((1u64 << n) - 1) as u64 >> i) & 1 == 1) == (i < n),
{
}

proof fn lemma_shift_positive(n: u64)
    by (bit_vector)
    requires
        n < 64,
    ensures
        (1u64 << n) >= 1,
{
}

proof fn lemma_all_ones(i: u64)
    by (bit_vector)
    requires
        i < 64,
    ensures
        (0xffff_ffff_ffff_ffffu64 >> i) & 1 == 1,
{
}

proof fn lemma_single_bit(w: u64, i: u64)
    by (bit_vector)
    requires
        i < 64,
    ensures
        ((w & (1u64 << i)) != 0) == ((w >> i) & 1 == 1),
{
}

impl SchedulerConfig {
    /// Check the settings.
    pub fn validate(&self) -> (r: Result<(), ConfigError>)
        ensures
            r == config_check(*self),
    {
        if self.quantum_ns == 0 {
            return Err(ConfigError::ZeroQuantum);
        }
        if self.min_quantum_ns == 0 || self.quantum_ns < self.min_quantum_ns {
            return Err(ConfigError::QuantumTooSmall);
        }
        if self.max_quantum_ns < self.quantum_ns {
            return Err(ConfigError::QuantumTooLarge);
        }
        if self.aging_period_ns == 0 {
            return Err(ConfigError::InvalidAgingPeriod);
        }
        if self.online_cpus == 0 {
            return Err(ConfigError::InvalidCpuMask);
        }
        if self.watchdog_ns < self.max_latency_ns {
            return Err(ConfigError::InvalidAgingPeriod);
        }
        Ok(())
    }

    /// CPU `cpu` is online.
    pub fn cpu_is_online(&self, cpu: usize) -> (r: bool)
        ensures
            r == bit_of(self.online_cpus, cpu as int),
    {
        if cpu < 64 {
            proof {
                lemma_single_bit(self.online_cpus, cpu as u64);
            }
            (self.online_cpus & (1u64 << (cpu as u64))) != 0
        } else {
            false
        }
    }

    /// The same settings with CPUs `0..count` online, `count` taken between 1 and 64.
    pub fn with_cpu_count(self, count: usize) -> (r: Self)
        ensures
            r == (SchedulerConfig {
                online_cpus: low_bits(if count < 1 { 1 } else if count > 64 { 64 } else { count as int }),
                ..self
            }),
            forall|i: int|
                0 <= i < 64 ==> (bit_of(r.online_cpus, i) <==> i < (if count < 1 { 1 } else if count > 64 { 64 } else {
                    count as int
                })),
    {
        let bounded: usize = if count < 1 { 1 } else if count > 64 { 64 } else { count };
        let mut out = self;
        proof {
            if bounded < 64 {
                lemma_shift_positive(bounded as u64);
            }
        }
        out.online_cpus = if bounded == 64 { u64::MAX } else { (1u64 << (bounded as u64)) - 1 };
        proof {
            assert forall|i: int| 0 <= i < 64 implies (bit_of(out.online_cpus, i) <==> i < bounded) by {
                if bounded < 64 {
                    lemma_low_bits(bounded as u64, i as u64);
                } else {
                    lemma_all_ones(i as u64);
                }
            }
        }
        out
    }

    /// Switch the mode.
    pub fn set_mode(&mut self, mode: SchedulerMode)
        ensures
            *final(self) == (SchedulerConfig { mode, ..*old(self) }),
    {
        self.mode = mode;
    }

    /// Running tasks can be preempted.
    pub fn allows_preemption(&self) -> (r: bool)
        ensures
            r == (self.mode == SchedulerMode::Preemptive || self.mode == SchedulerMode::Deterministic),
    {
        match self.mode {
            SchedulerMode::Preemptive | SchedulerMode::Deterministic => true,
            _ => false,
        }
    }

    /// A balancing pass is due after `elapsed_ns`.
    pub fn should_balance(&self, elapsed_ns: u64) -> (r: bool)
        ensures
            r == (elapsed_ns >= self.load_balance_period_ns && self.migration != MigrationPolicy::Disabled),
    {
        elapsed_ns >= self.load_balance_period_ns && match self.migration {
            MigrationPolicy::Disabled => false,
            _ => true,
        }
    }
}

/// A change to a task's scheduling parameters; absent fields stay as they are.
#[derive(Clone, Copy, Debug, PartialEq, Eq, Structural)]
pub struct TaskPolicyUpdate {
    pub priority: Option<Priority>,
    pub class: Option<Class>,
    pub policy: Option<Policy>,
    pub affinity: Option<CpuMask>,
    pub deadline: Option<Option<Deadline>>,
    pub budget: Option<TaskBudget>,
}

/// The value in `o`, or `d` when there is none.
pub open spec fn or_keep<T>(o: Option<T>, d: T) -> T {
    match o {
        Some(v) => v,
        None => d,
    }
}

impl TaskPolicyUpdate {
    /// A change of nothing.
    pub fn empty() -> (r: Self)
        ensures
            r == (TaskPolicyUpdate {
                priority: None,
                class: None,
                policy: None,
                affinity: None,
                deadline: None,
                budget: None,
            }),
    {
        TaskPolicyUpdate { priority: None, class: None, policy: None, affinity: None, deadline: None, budget: None }
    }

    /// The update changes nothing.
    pub fn is_empty(&self) -> (r: bool)
        ensures
            r == (self.priority.is_none() && self.class.is_none() && self.policy.is_none()
                && self.affinity.is_none() && self.deadline.is_none() && self.budget.is_none()),
    {
        self.priority.is_none() && self.class.is_none() && self.policy.is_none() && self.affinity.is_none()
            && self.deadline.is_none() && self.budget.is_none()
    }

    /// Write the present fields into `config`.
    pub fn apply_to(&self, config: &mut TaskConfig)
        ensures
            *final(config) == (TaskConfig {
                priority: or_keep(self.priority, old(config).priority),
                class: or_keep(self.class, old(config).class),
                policy: or_keep(self.policy, old(config).policy),
                affinity: or_keep(self.affinity, old(config).affinity),
                deadline: or_keep(self.deadline, old(config).deadline),
                budget: or_keep(self.budget, old(config).budget),
                ..*old(config)
            }),
    {
        if let Some(value) = self.priority {
            config.priority = value;
        }
        if let Some(value) = self.class {
            config.class = value;
        }
        if let Some(value) = self.policy {
            config.policy = value;
        }
        if let Some(value) = self.affinity {
            config.affinity = value;
        }
        if let Some(value) = self.deadline {
            config.deadline = value;
        }
        if let Some(value) = self.budget {
            config.budget = value;
        }
    }
}

/// An empty update leaves a configuration as it was.
pub proof fn law_empty_update_is_identity(config: TaskConfig)
    ensures
        ({
            let u = TaskPolicyUpdate {
                priority: None,
                class: None,
                policy: None,
                affinity: None,
                deadline: None,
                budget: None,
            };
            (TaskConfig {
                priority: or_keep(u.priority, config.priority),
                class: or_keep(u.class, config.class),
                policy: or_keep(u.policy, config.policy),
                affinity: or_keep(u.affinity, config.affinity),
                deadline: or_keep(u.deadline, config.deadline),
                budget: or_keep(u.budget, config.budget),
                ..config
            }) == config
        }),
{
}

/// What the control plane reports of a task.
#[derive(Clone, Copy, Debug, PartialEq, Eq, Structural)]
pub struct TaskPolicySnapshot {
    pub id: TaskId,
    pub state: TaskState,
    pub class: Class,
    pub policy: Policy,
    pub priority: Priority,
    pub affinity: CpuMask,
    pub cpu: usize,
    pub runtime_ns: u64,
    pub wait_ns: u64,
    pub switches: u64,
    pub migrations: u64,
    pub deadline_ns: Option<u64>,
    pub budget_remaining_ns: u64,
}

impl TaskPolicySnapshot {
    /// Time since the task last woke (0 if the clock is behind).
    pub fn latency_score(&self, now_ns: u64, last_wake_ns: u64) -> (r: u64)
        ensures
            r == now_ns.saturating_sub(last_wake_ns),
    {
        now_ns.saturating_sub(last_wake_ns)
    }

    /// The task has a deadline.
    pub fn is_deadline_task(&self) -> (r: bool)
        ensures
            r == self.deadline_ns.is_some(),
    {
        self.deadline_ns.is_some()
    }

    /// The task is ready or running.
    pub fn is_runnable(&self) -> (r: bool)
        ensures
            r == (self.state == TaskState::Ready || self.state == TaskState::Running),
    {
        match self.state {
            TaskState::Ready | TaskState::Running => true,
            _ => false,
        }
    }
}

/// Something that happened in the scheduler.
#[derive(Clone, Copy, Debug, PartialEq, Eq, Structural)]
pub enum SchedulerEvent {
    Initialized { cpus: usize },
    TaskCreated { id: TaskId },
    TaskReady { id: TaskId, cpu: usize },
    TaskRunning { id: TaskId, cpu: usize },
    TaskBlocked { id: TaskId },
    TaskSleeping { id: TaskId, until_ns: u64 },
    TaskFinished { id: TaskId },
    TaskMigrated { id: TaskId, from: usize, to: usize },
    DeadlineMissed { id: TaskId, deadline_ns: u64, now_ns: u64 },
    WatchdogWarning { id: TaskId, runtime_ns: u64 },
    RescheduleRequested { cpu: usize },
}

/// The task an event is about, if any.
pub open spec fn event_task(e: SchedulerEvent) -> Option<TaskId> {
    match e {
        SchedulerEvent::Initialized { .. } => None,
        SchedulerEvent::TaskCreated { id } => Some(id),
        SchedulerEvent::TaskReady { id, .. } => Some(id),
        SchedulerEvent::TaskRunning { id, .. } => Some(id),
        SchedulerEvent::TaskBlocked { id } => Some(id),
        SchedulerEvent::TaskSleeping { id, .. } => Some(id),
        SchedulerEvent::TaskFinished { id } => Some(id),
        SchedulerEvent::TaskMigrated { id, .. } => Some(id),
        SchedulerEvent::DeadlineMissed { id, .. } => Some(id),
        SchedulerEvent::WatchdogWarning { id, .. } => Some(id),
        SchedulerEvent::RescheduleRequested { .. } => None,
    }
}

impl SchedulerEvent {
    /// The task the event is about, if any.
    pub fn task_id(&self) -> (r: Option<TaskId>)
        ensures
            r == event_task(*self),
    {
        match *self {
            SchedulerEvent::Initialized { .. } => None,
            SchedulerEvent::TaskCreated { id } => Some(id),
            SchedulerEvent::TaskReady { id, .. } => Some(id),
            SchedulerEvent::TaskRunning { id, .. } => Some(id),
            SchedulerEvent::TaskBlocked { id } => Some(id),
            SchedulerEvent::TaskSleeping { id, .. } => Some(id),
            SchedulerEvent::TaskFinished { id } => Some(id),
            SchedulerEvent::TaskMigrated { id, .. } => Some(id),
            SchedulerEvent::DeadlineMissed { id, .. } => Some(id),
            SchedulerEvent::WatchdogWarning { id, .. } => Some(id),
            SchedulerEvent::RescheduleRequested { .. } => None,
        }
    }

    /// The event reports a fault: a missed deadline or a watchdog warning.
    pub fn is_fault_like(&self) -> (r: bool)
        ensures
            r == (self is DeadlineMissed || self is WatchdogWarning),
    {
        match self {
            SchedulerEvent::DeadlineMissed { .. } | SchedulerEvent::WatchdogWarning { .. } => true,
            _ => false,
        }
    }
}

/// How many events of each kind were seen.
#[derive(Clone, Copy, Debug, PartialEq, Eq, Structural)]
pub struct EventCounters {
    pub created: u64,
    pub ready: u64,
    pub running: u64,
    pub blocked: u64,
    pub sleeping: u64,
    pub finished: u64,
    pub migrated: u64,
    pub deadline_misses: u64,
    pub watchdog_warnings: u64,
    pub reschedule_requests: u64,
}

impl Default for EventCounters {
    fn default() -> (r: Self)
        ensures
            r == (EventCounters {
                created: 0,
                ready: 0,
                running: 0,
                blocked: 0,
                sleeping: 0,
                finished: 0,
                migrated: 0,
                deadline_misses: 0,
                watchdog_warnings: 0,
                reschedule_requests: 0,
            }),
    {
        EventCounters {
            created: 0,
            ready: 0,
            running: 0,
            blocked: 0,
            sleeping: 0,
            finished: 0,
            migrated: 0,
            deadline_misses: 0,
            watchdog_warnings: 0,
            reschedule_requests: 0,
        }
    }
}

/// The counter that an event of this kind increments (0 to 9), or none.
pub open spec fn event_slot(e: SchedulerEvent) -> Option<int> {
    match e {
        SchedulerEvent::Initialized { .. } => None,
        SchedulerEvent::TaskCreated { .. } => Some(0),
        SchedulerEvent::TaskReady { .. } => Some(1),
        SchedulerEvent::TaskRunning { .. } => Some(2),
        SchedulerEvent::TaskBlocked { .. } => Some(3),
        SchedulerEvent::TaskSleeping { .. } => Some(4),
        SchedulerEvent::TaskFinished { .. } => Some(5),
        SchedulerEvent::TaskMigrated { .. } => Some(6),
        SchedulerEvent::DeadlineMissed { .. } => Some(7),
        SchedulerEvent::WatchdogWarning { .. } => Some(8),
        SchedulerEvent::RescheduleRequested { .. } => Some(9),
    }
}

/// Counter `k` (in the order of `event_slot`).
pub open spec fn counter(c: EventCounters, k: int) -> int {
    if k == 0 {
        c.created as int
    } else if k == 1 {
        c.ready as int
    } else if k == 2 {
        c.running as int
    } else if k == 3 {
        c.blocked as int
    } else if k == 4 {
        c.sleeping as int
    } else if k == 5 {
        c.finished as int
    } else if k == 6 {
        c.migrated as int
    } else if k == 7 {
        c.deadline_misses as int
    } else if k == 8 {
        c.watchdog_warnings as int
    } else {
        c.reschedule_requests as int
    }
}

/// Sum of all counters.
pub open spec fn counters_total(c: EventCounters) -> int {
    c.created + c.ready + c.running + c.blocked + c.sleeping + c.finished + c.migrated + c.deadline_misses
        + c.watchdog_warnings + c.reschedule_requests
}

impl EventCounters {
    /// Count `event` under its kind.
    pub fn observe(&mut self, event: SchedulerEvent)
        requires
            match event_slot(event) {
                Some(k) => counter(*old(self), k) < u64::MAX,
                None => true,
            },
        ensures
            forall|k: int|
                0 <= k < 10 ==> counter(*final(self), k) == counter(*old(self), k) + (if event_slot(event) == Some(k) {
                    1int
                } else {
                    0int
                }),
    {
        match event {
            SchedulerEvent::Initialized { .. } => {},
            SchedulerEvent::TaskCreated { .. } => self.created = self.created + 1,
            SchedulerEvent::TaskReady { .. } => self.ready = self.ready + 1,
            SchedulerEvent::TaskRunning { .. } => self.running = self.running + 1,
            SchedulerEvent::TaskBlocked { .. } => self.blocked = self.blocked + 1,
            SchedulerEvent::TaskSleeping { .. } => self.sleeping = self.sleeping + 1,
            SchedulerEvent::TaskFinished { .. } => self.finished = self.finished + 1,
            SchedulerEvent::TaskMigrated { .. } => self.migrated = self.migrated + 1,
            SchedulerEvent::DeadlineMissed { .. } => self.deadline_misses = self.deadline_misses + 1,
            SchedulerEvent::WatchdogWarning { .. } => self.watchdog_warnings = self.watchdog_warnings + 1,
            SchedulerEvent::RescheduleRequested { .. } => self.reschedule_requests = self.reschedule_requests + 1,
        }
    }

    /// All events counted.
    pub fn total(&self) -> (r: u64)
        requires
            counters_total(*self) <= u64::MAX,
        ensures
            r == counters_total(*self),
    {
        self.created + self.ready + self.running + self.blocked + self.sleeping + self.finished + self.migrated
            + self.deadline_misses + self.watchdog_warnings + self.reschedule_requests
    }
}

/// Each observed event, except initialisation, raises the total by one.
pub proof fn law_observe_counts_once(before: EventCounters, after: EventCounters, event: SchedulerEvent)
    requires
        forall|k: int|
            0 <= k < 10 ==> counter(after, k) == counter(before, k) + (if event_slot(event) == Some(k) {
                1int
            } else {
                0int
            }),
    ensures
        counters_total(after) == counters_total(before) + (if event is Initialized {
            0int
        } else {
            1int
        }),
{
    assert(counter(after, 0) == counter(before, 0) + (if event_slot(event) == Some(0int) { 1int } else { 0int }));
    assert(counter(after, 1) == counter(before, 1) + (if event_slot(event) == Some(1int) { 1int } else { 0int }));
    assert(counter(after, 2) == counter(before, 2) + (if event_slot(event) == Some(2int) { 1int } else { 0int }));
    assert(counter(after, 3) == counter(before, 3) + (if event_slot(event) == Some(3int) { 1int } else { 0int }));
    assert(counter(after, 4) == counter(before, 4) + (if event_slot(event) == Some(4int) { 1int } else { 0int }));
    assert(counter(after, 5) == counter(before, 5) + (if event_slot(event) == Some(5int) { 1int } else { 0int }));
    assert(counter(after, 6) == counter(before, 6) + (if event_slot(event) == Some(6int) { 1int } else { 0int }));
    assert(counter(after, 7) == counter(before, 7) + (if event_slot(event) == Some(7int) { 1int } else { 0int }));
    assert(counter(after, 8) == counter(before, 8) + (if event_slot(event) == Some(8int) { 1int } else { 0int }));
    assert(counter(after, 9) == counter(before, 9) + (if event_slot(event) == Some(9int) { 1int } else { 0int }));
}

/// Busy and idle time accumulated over a window.
#[derive(Clone, Copy, Debug, PartialEq, Eq, Structural)]
pub struct LoadWindow {
    pub samples: u32,
    pub busy_ns: u64,
    pub idle_ns: u64,
    pub last_update_ns: u64,
}

impl Default for LoadWindow {
    fn default() -> (r: Self)
        ensures
            r == (LoadWindow { samples: 0, busy_ns: 0, idle_ns: 0, last_update_ns: 0 }),
    {
        LoadWindow { samples: 0, busy_ns: 0, idle_ns: 0, last_update_ns: 0 }
    }
}

impl LoadWindow {
    /// Add a sample of busy and idle time taken at `now_ns` (all sums saturating).
    pub fn update(&mut self, busy_ns: u64, idle_ns: u64, now_ns: u64)
        ensures
            *final(self) == (LoadWindow {
                samples: old(self).samples.saturating_add(1),
                busy_ns: old(self).busy_ns.saturating_add(busy_ns),
                idle_ns: old(self).idle_ns.saturating_add(idle_ns),
                last_update_ns: now_ns,
            }),
    {
        self.samples = self.samples.saturating_add(1);
        self.busy_ns = self.busy_ns.saturating_add(busy_ns);
        self.idle_ns = self.idle_ns.saturating_add(idle_ns);
        self.last_update_ns = now_ns;
    }

    /// Busy plus idle time (saturating).
    pub fn total_ns(&self) -> (r: u64)
        ensures
            r == self.busy_ns.saturating_add(self.idle_ns),
    {
        self.busy_ns.saturating_add(self.idle_ns)
    }

    /// Busy share of the window in parts per million of the total (the busy time
    /// scaled with saturation); 0 for an empty window.
    pub fn busy_ppm(&self) -> (r: u64)
        ensures
            r == if self.busy_ns.saturating_add(self.idle_ns) == 0 {
                0
            } else {
                ((if self.busy_ns * 1_000_000 > u64::MAX { u64::MAX as int } else { self.busy_ns * 1_000_000 })
                    / (self.busy_ns.saturating_add(self.idle_ns) as int)) as u64
            },
    {
        let total = self.total_ns();
        if total == 0 {
            0
        } else {
            let scaled: u64 = if self.busy_ns > u64::MAX / 1_000_000 {
                u64::MAX
            } else {
                self.busy_ns * 1_000_000
            };
            scaled / total
        }
    }

    /// Start a new window at `now_ns`.
    pub fn reset(&mut self, now_ns: u64)
        ensures
            *final(self) == (LoadWindow { samples: 0, busy_ns: 0, idle_ns: 0, last_update_ns: now_ns }),
    {
        self.samples = 0;
        self.busy_ns = 0;
        self.idle_ns = 0;
        self.last_update_ns = now_ns;
    }
}

/// How attractive a CPU is for a task.
#[derive(Clone, Copy, Debug, PartialEq, Eq, Structural)]
pub struct PlacementScore {
    pub cpu: usize,
    pub load: u64,
    pub cache_affinity: u16,
    pub migration_cost: u16,
    pub allowed: bool,
}

/// Cost of a placement: the load plus 256 per unit of migration cost, less 64 per
/// unit of cache affinity (both saturating); the most for a CPU the task may not use.
pub open spec fn placement_cost(s: PlacementScore) -> u64 {
    if !s.allowed {
        u64::MAX
    } else {
        s.load.saturating_add((s.migration_cost * 256) as u64).saturating_sub((s.cache_affinity * 64) as u64)
    }
}

impl PlacementScore {
    /// The cost of this placement.
    pub fn total_cost(&self) -> (r: u64)
        ensures
            r == placement_cost(*self),
    {
        if !self.allowed {
            return u64::MAX;
        }
        self.load.saturating_add(self.migration_cost as u64 * 256).saturating_sub(self.cache_affinity as u64 * 64)
    }

    /// This placement costs less than `other`.
    pub fn better_than(&self, other: &Self) -> (r: bool)
        ensures
            r == (placement_cost(*self) < placement_cost(*other)),
    {
        self.total_cost() < other.total_cost()
    }
}

/// The first rule a task configuration breaks, in order: a stack under 4 KiB
/// (reported as a too-small quantum); an affinity with no online CPU; a deadline on a
/// class other than real-time; a deadline's run time above its period; a budget
/// window shorter than its quota.
pub open spec fn task_config_check(config: TaskConfig, online: CpuMask) -> Result<(), ConfigError> {
    if config.stack_size < 4096 {
        Err(ConfigError::QuantumTooSmall)
    } else if config.affinity.0 & online.0 == 0 {
        Err(ConfigError::AffinityHasNoOnlineCpu)
    } else if config.deadline.is_some() && config.class != Class::RealTime {
        Err(ConfigError::DeadlineWithoutRealtimeClass)
    } else if config.deadline.is_some() && config.deadline.unwrap().runtime_ns > config.deadline.unwrap().deadline_ns {
        Err(ConfigError::RuntimeExceedsDeadline)
    } else if config.budget.quota_ns != 0 && config.budget.window_ns < config.budget.quota_ns {
        Err(ConfigError::BudgetWindowTooSmall)
    } else {
        Ok(())
    }
}

/// Check a task's configuration against the online CPUs.
pub fn validate_task_config(config: &TaskConfig, online: CpuMask) -> (r: Result<(), ConfigError>)
    ensures
        r == task_config_check(*config, online),
{
    if config.stack_size < 4096 {
        return Err(ConfigError::QuantumTooSmall);
    }
    if config.affinity.0 & online.0 == 0 {
        return Err(ConfigError::AffinityHasNoOnlineCpu);
    }
    if config.deadline.is_some() && !(match config.class {
        Class::RealTime => true,
        _ => false,
    }) {
        return Err(ConfigError::DeadlineWithoutRealtimeClass);
    }
    if let Some(deadline) = config.deadline {
        if deadline.runtime_ns > deadline.deadline_ns {
            return Err(ConfigError::RuntimeExceedsDeadline);
        }
    }
    if config.budget.quota_ns != 0 && config.budget.window_ns < config.budget.quota_ns {
        return Err(ConfigError::BudgetWindowTooSmall);
    }
    Ok(())
}

} // verus!
