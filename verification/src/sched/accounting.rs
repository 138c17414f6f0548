//! Scheduler accounting: system-wide counters, per-CPU run-queue statistics, the
//! per-task counters they feed, and a logarithmic histogram of run times.
use vstd::prelude::*;

verus! {

/// System-wide counters; each wraps around.
#[derive(Debug, Clone, Copy, PartialEq, Eq, Structural)]
pub struct GlobalCounters {
    pub switches: u64,
    pub voluntary_switches: u64,
    pub involuntary_switches: u64,
    pub migrations: u64,
    pub user_time_ns: u64,
    pub system_time_ns: u64,
    pub idle_time_ns: u64,
    pub iowait_time_ns: u64,
    pub running_time_ns: u64,
}

/// Wrapping addition.
pub open spec fn wadd(a: u64, b: u64) -> u64 {
    vstd::wrapping::u64_specs::wrapping_add(a, b)
}

impl GlobalCounters {
    /// All zero.
    pub fn new() -> (r: Self)
        ensures
            r == (GlobalCounters {
                switches: 0,
                voluntary_switches: 0,
                involuntary_switches: 0,
                migrations: 0,
                user_time_ns: 0,
                system_time_ns: 0,
                idle_time_ns: 0,
                iowait_time_ns: 0,
                running_time_ns: 0,
            }),
    {
        GlobalCounters {
            switches: 0,
            voluntary_switches: 0,
            involuntary_switches: 0,
            migrations: 0,
            user_time_ns: 0,
            system_time_ns: 0,
            idle_time_ns: 0,
            iowait_time_ns: 0,
            running_time_ns: 0,
        }
    }
}

/// The counters a task keeps of itself.
#[derive(Debug, Clone, Copy, PartialEq, Eq, Structural)]
pub struct TaskCounters {
    pub nr_voluntary_switches: u64,
    pub nr_involuntary_switches: u64,
    pub nr_migrations: u64,
    pub utime: u64,
    pub stime: u64,
    pub se_nr_migrations: u64,
    pub sum_exec_runtime: u64,
}

/// Count a context switch.
pub fn account_switch(g: &mut GlobalCounters)
    ensures
        *final(g) == (GlobalCounters { switches: wadd(old(g).switches, 1), ..*old(g) }),
{
    g.switches = g.switches.wrapping_add(1);
}

/// Count a voluntary switch of `task`.
pub fn account_voluntary_switch(g: &mut GlobalCounters, task: &mut TaskCounters)
    ensures
        *final(g) == (GlobalCounters { voluntary_switches: wadd(old(g).voluntary_switches, 1), ..*old(g) }),
        *final(task) == (TaskCounters {
            nr_voluntary_switches: old(task).nr_voluntary_switches.saturating_add(1),
            ..*old(task)
        }),
{
    g.voluntary_switches = g.voluntary_switches.wrapping_add(1);
    task.nr_voluntary_switches = task.nr_voluntary_switches.saturating_add(1);
}

/// Count an involuntary switch of `task`.
pub fn account_involuntary_switch(g: &mut GlobalCounters, task: &mut TaskCounters)
    ensures
        *final(g) == (GlobalCounters { involuntary_switches: wadd(old(g).involuntary_switches, 1), ..*old(g) }),
        *final(task) == (TaskCounters {
            nr_involuntary_switches: old(task).nr_involuntary_switches.saturating_add(1),
            ..*old(task)
        }),
{
    g.involuntary_switches = g.involuntary_switches.wrapping_add(1);
    task.nr_involuntary_switches = task.nr_involuntary_switches.saturating_add(1);
}

/// Count a migration of `task`.
pub fn account_migration(g: &mut GlobalCounters, task: &mut TaskCounters)
    ensures
        *final(g) == (GlobalCounters { migrations: wadd(old(g).migrations, 1), ..*old(g) }),
        *final(task) == (TaskCounters {
            nr_migrations: old(task).nr_migrations.saturating_add(1),
            se_nr_migrations: old(task).se_nr_migrations.saturating_add(1),
            ..*old(task)
        }),
{
    g.migrations = g.migrations.wrapping_add(1);
    task.nr_migrations = task.nr_migrations.saturating_add(1);
    task.se_nr_migrations = task.se_nr_migrations.saturating_add(1);
}

/// Charge `delta_ns` of user time to `task`.
pub fn account_user_time(g: &mut GlobalCounters, task: &mut TaskCounters, delta_ns: u64)
    ensures
        *final(g) == (GlobalCounters {
            user_time_ns: wadd(old(g).user_time_ns, delta_ns),
            running_time_ns: wadd(old(g).running_time_ns, delta_ns),
            ..*old(g)
        }),
        *final(task) == (TaskCounters {
            utime: old(task).utime.saturating_add(delta_ns),
            sum_exec_runtime: old(task).sum_exec_runtime.saturating_add(delta_ns),
            ..*old(task)
        }),
{
    g.user_time_ns = g.user_time_ns.wrapping_add(delta_ns);
    g.running_time_ns = g.running_time_ns.wrapping_add(delta_ns);
    task.utime = task.utime.saturating_add(delta_ns);
    task.sum_exec_runtime = task.sum_exec_runtime.saturating_add(delta_ns);
}

/// Charge `delta_ns` of system time to `task`.
pub fn account_system_time(g: &mut GlobalCounters, task: &mut TaskCounters, delta_ns: u64)
    ensures
        *final(g) == (GlobalCounters {
            system_time_ns: wadd(old(g).system_time_ns, delta_ns),
            running_time_ns: wadd(old(g).running_time_ns, delta_ns),
            ..*old(g)
        }),
        *final(task) == (TaskCounters {
            stime: old(task).stime.saturating_add(delta_ns),
            sum_exec_runtime: old(task).sum_exec_runtime.saturating_add(delta_ns),
            ..*old(task)
        }),
{
    g.system_time_ns = g.system_time_ns.wrapping_add(delta_ns);
    g.running_time_ns = g.running_time_ns.wrapping_add(delta_ns);
    task.stime = task.stime.saturating_add(delta_ns);
    task.sum_exec_runtime = task.sum_exec_runtime.saturating_add(delta_ns);
}

/// Count idle time.
pub fn account_idle_time(g: &mut GlobalCounters, delta_ns: u64)
    ensures
        *final(g) == (GlobalCounters { idle_time_ns: wadd(old(g).idle_time_ns, delta_ns), ..*old(g) }),
{
    g.idle_time_ns = g.idle_time_ns.wrapping_add(delta_ns);
}

/// Count time waiting for I/O.
pub fn account_iowait_time(g: &mut GlobalCounters, delta_ns: u64)
    ensures
        *final(g) == (GlobalCounters { iowait_time_ns: wadd(old(g).iowait_time_ns, delta_ns), ..*old(g) }),
{
    g.iowait_time_ns = g.iowait_time_ns.wrapping_add(delta_ns);
}

/// Switches so far.
pub fn total_switches(g: &GlobalCounters) -> (r: u64)
    ensures
        r == g.switches,
{
    g.switches
}

/// Voluntary switches so far.
pub fn total_voluntary_switches(g: &GlobalCounters) -> (r: u64)
    ensures
        r == g.voluntary_switches,
{
    g.voluntary_switches
}

/// Involuntary switches so far.
pub fn total_involuntary_switches(g: &GlobalCounters) -> (r: u64)
    ensures
        r == g.involuntary_switches,
{
    g.involuntary_switches
}

/// Migrations so far.
pub fn total_migrations(g: &GlobalCounters) -> (r: u64)
    ensures
        r == g.migrations,
{
    g.migrations
}

/// User time so far.
pub fn total_user_time_ns(g: &GlobalCounters) -> (r: u64)
    ensures
        r == g.user_time_ns,
{
    g.user_time_ns
}

/// System time so far.
pub fn total_system_time_ns(g: &GlobalCounters) -> (r: u64)
    ensures
        r == g.system_time_ns,
{
    g.system_time_ns
}

/// Idle time so far.
pub fn total_idle_time_ns(g: &GlobalCounters) -> (r: u64)
    ensures
        r == g.idle_time_ns,
{
    g.idle_time_ns
}

/// I/O wait so far.
pub fn total_iowait_time_ns(g: &GlobalCounters) -> (r: u64)
    ensures
        r == g.iowait_time_ns,
{
    g.iowait_time_ns
}

/// Run time (user plus system) so far.
pub fn total_running_time_ns(g: &GlobalCounters) -> (r: u64)
    ensures
        r == g.running_time_ns,
{
    g.running_time_ns
}

/// Statistics of one CPU's run queue.
#[derive(Debug, Clone, Copy, PartialEq, Eq, Structural)]
pub struct RqStats {
    pub nr_switches: u64,
    pub nr_voluntary_switches: u64,
    pub nr_involuntary_switches: u64,
    pub nr_migrations: u64,
    pub user_time_ns: u64,
    pub system_time_ns: u64,
    pub idle_time_ns: u64,
    pub iowait_time_ns: u64,
    pub running_time_ns: u64,
    pub sum_vruntime: u64,
    pub sum_weight: u64,
    pub nr_running: u32,
    pub nr_uninterruptible: u32,
}

impl RqStats {
    /// All zero.
    pub fn new() -> (r: Self)
        ensures
            r == (RqStats {
                nr_switches: 0,
                nr_voluntary_switches: 0,
                nr_involuntary_switches: 0,
                nr_migrations: 0,
                user_time_ns: 0,
                system_time_ns: 0,
                idle_time_ns: 0,
                iowait_time_ns: 0,
                running_time_ns: 0,
                sum_vruntime: 0,
                sum_weight: 0,
                nr_running: 0,
                nr_uninterruptible: 0,
            }),
    {
        RqStats {
            nr_switches: 0,
            nr_voluntary_switches: 0,
            nr_involuntary_switches: 0,
            nr_migrations: 0,
            user_time_ns: 0,
            system_time_ns: 0,
            idle_time_ns: 0,
            iowait_time_ns: 0,
            running_time_ns: 0,
            sum_vruntime: 0,
            sum_weight: 0,
            nr_running: 0,
            nr_uninterruptible: 0,
        }
    }

    /// Count a switch on this CPU and in the system totals.
    pub fn record_switch(&mut self, g: &mut GlobalCounters, voluntary: bool)
        requires
            old(self).nr_switches < u64::MAX,
            voluntary ==> old(self).nr_voluntary_switches < u64::MAX,
            !voluntary ==> old(self).nr_involuntary_switches < u64::MAX,
        ensures
            *final(self) == (RqStats {
                nr_switches: (old(self).nr_switches + 1) as u64,
                nr_voluntary_switches: if voluntary {
                    (old(self).nr_voluntary_switches + 1) as u64
                } else {
                    old(self).nr_voluntary_switches
                },
                nr_involuntary_switches: if voluntary {
                    old(self).nr_involuntary_switches
                } else {
                    (old(self).nr_involuntary_switches + 1) as u64
                },
                ..*old(self)
            }),
            *final(g) == (GlobalCounters {
                switches: wadd(old(g).switches, 1),
                voluntary_switches: if voluntary {
                    wadd(old(g).voluntary_switches, 1)
                } else {
                    old(g).voluntary_switches
                },
                involuntary_switches: if voluntary {
                    old(g).involuntary_switches
                } else {
                    wadd(old(g).involuntary_switches, 1)
                },
                ..*old(g)
            }),
    {
        self.nr_switches = self.nr_switches + 1;
        if voluntary {
            self.nr_voluntary_switches = self.nr_voluntary_switches + 1;
        } else {
            self.nr_involuntary_switches = self.nr_involuntary_switches + 1;
        }
        g.switches = g.switches.wrapping_add(1);
        if voluntary {
            g.voluntary_switches = g.voluntary_switches.wrapping_add(1);
        } else {
            g.involuntary_switches = g.involuntary_switches.wrapping_add(1);
        }
    }

    /// Count a migration on this CPU and in the system totals.
    pub fn record_migration(&mut self, g: &mut GlobalCounters)
        requires
            old(self).nr_migrations < u64::MAX,
        ensures
            *final(self) == (RqStats { nr_migrations: (old(self).nr_migrations + 1) as u64, ..*old(self) }),
            *final(g) == (GlobalCounters { migrations: wadd(old(g).migrations, 1), ..*old(g) }),
    {
        self.nr_migrations = self.nr_migrations + 1;
        g.migrations = g.migrations.wrapping_add(1);
    }

    /// Add user time on this CPU and in the system totals.
    pub fn add_user_time(&mut self, g: &mut GlobalCounters, delta_ns: u64)
        requires
            old(self).user_time_ns + delta_ns <= u64::MAX,
            old(self).running_time_ns + delta_ns <= u64::MAX,
        ensures
            *final(self) == (RqStats {
                user_time_ns: (old(self).user_time_ns + delta_ns) as u64,
                running_time_ns: (old(self).running_time_ns + delta_ns) as u64,
                ..*old(self)
            }),
            *final(g) == (GlobalCounters {
                user_time_ns: wadd(old(g).user_time_ns, delta_ns),
                running_time_ns: wadd(old(g).running_time_ns, delta_ns),
                ..*old(g)
            }),
    {
        self.user_time_ns = self.user_time_ns + delta_ns;
        self.running_time_ns = self.running_time_ns + delta_ns;
        g.user_time_ns = g.user_time_ns.wrapping_add(delta_ns);
        g.running_time_ns = g.running_time_ns.wrapping_add(delta_ns);
    }

    /// Add system time on this CPU and in the system totals.
    pub fn add_system_time(&mut self, g: &mut GlobalCounters, delta_ns: u64)
        requires
            old(self).system_time_ns + delta_ns <= u64::MAX,
            old(self).running_time_ns + delta_ns <= u64::MAX,
        ensures
            *final(self) == (RqStats {
                system_time_ns: (old(self).system_time_ns + delta_ns) as u64,
                running_time_ns: (old(self).running_time_ns + delta_ns) as u64,
                ..*old(self)
            }),
            *final(g) == (GlobalCounters {
                system_time_ns: wadd(old(g).system_time_ns, delta_ns),
                running_time_ns: wadd(old(g).running_time_ns, delta_ns),
                ..*old(g)
            }),
    {
        self.system_time_ns = self.system_time_ns + delta_ns;
        self.running_time_ns = self.running_time_ns + delta_ns;
        g.system_time_ns = g.system_time_ns.wrapping_add(delta_ns);
        g.running_time_ns = g.running_time_ns.wrapping_add(delta_ns);
    }

    /// Add idle time on this CPU and in the system totals.
    pub fn add_idle_time(&mut self, g: &mut GlobalCounters, delta_ns: u64)
        requires
            old(self).idle_time_ns + delta_ns <= u64::MAX,
        ensures
            *final(self) == (RqStats { idle_time_ns: (old(self).idle_time_ns + delta_ns) as u64, ..*old(self) }),
            *final(g) == (GlobalCounters { idle_time_ns: wadd(old(g).idle_time_ns, delta_ns), ..*old(g) }),
    {
        self.idle_time_ns = self.idle_time_ns + delta_ns;
        g.idle_time_ns = g.idle_time_ns.wrapping_add(delta_ns);
    }

    /// Add I/O wait on this CPU and in the system totals.
    pub fn add_iowait_time(&mut self, g: &mut GlobalCounters, delta_ns: u64)
        requires
            old(self).iowait_time_ns + delta_ns <= u64::MAX,
        ensures
            *final(self) == (RqStats { iowait_time_ns: (old(self).iowait_time_ns + delta_ns) as u64, ..*old(self) }),
            *final(g) == (GlobalCounters { iowait_time_ns: wadd(old(g).iowait_time_ns, delta_ns), ..*old(g) }),
    {
        self.iowait_time_ns = self.iowait_time_ns + delta_ns;
        g.iowait_time_ns = g.iowait_time_ns.wrapping_add(delta_ns);
    }

    /// Record the number of queued tasks.
    pub fn set_nr_running(&mut self, nr: u32)
        ensures
            *final(self) == (RqStats { nr_running: nr, ..*old(self) }),
    {
        self.nr_running = nr;
    }

    /// Record the number of tasks in uninterruptible sleep.
    pub fn set_nr_uninterruptible(&mut self, nr: u32)
        ensures
            *final(self) == (RqStats { nr_uninterruptible: nr, ..*old(self) }),
    {
        self.nr_uninterruptible = nr;
    }

    /// Record the fair-class virtual run time and weight sums.
    pub fn update_load_stats(&mut self, sum_vruntime: u64, sum_weight: u64)
        ensures
            *final(self) == (RqStats { sum_vruntime, sum_weight, ..*old(self) }),
    {
        self.sum_vruntime = sum_vruntime;
        self.sum_weight = sum_weight;
    }

    /// Share of run time in run plus idle time, in percent, rounded down.
    pub fn load_percent(&self) -> (r: u32)
        requires
            self.running_time_ns == 0 || (self.running_time_ns + self.idle_time_ns <= u64::MAX
                && self.running_time_ns * 100 <= u64::MAX),
        ensures
            r == if self.running_time_ns == 0 {
                0
            } else {
                self.running_time_ns * 100 / (self.running_time_ns + self.idle_time_ns)
            },
            r <= 100,
    {
        if self.running_time_ns == 0 {
            return 0;
        }
        let total = self.running_time_ns + self.idle_time_ns;
        proof {
            assert(self.running_time_ns * 100 <= total * 100) by (nonlinear_arith)
                requires
                    self.running_time_ns <= total,
            ;
            vstd::arithmetic::div_mod::lemma_div_is_ordered(self.running_time_ns * 100, total * 100, total as int);
            vstd::arithmetic::div_mod::lemma_div_multiples_vanish(100, total as int);
        }
        ((self.running_time_ns * 100) / total) as u32
    }
}

/// Run-time buckets of a histogram.
pub const HISTOGRAM_BUCKETS: usize = 16;

/// Bucket of a run time, searching from bucket `i` whose upper bound is `upper`:
/// the first bucket whose bound exceeds it among the first fifteen; past those, the
/// last bucket when it reaches the doubled bound, else the first.
pub open spec fn bucket_from(e: u64, i: int, upper: int) -> int
    decreases 15 - i,
{
    if i >= 15 {
        if e >= upper {
            15
        } else {
            0
        }
    } else if e < upper {
        i
    } else {
        bucket_from(e, i + 1, upper * 2)
    }
}

/// Bucket of a run time: bucket `i` holds times below 2048 * 2^i ns.
pub open spec fn bucket_of(e: u64) -> int {
    bucket_from(e, 0, 2048)
}

proof fn lemma_bucket_range(e: u64, i: int, upper: int)
    requires
        0 <= i <= 15,
    ensures
        0 <= bucket_from(e, i, upper) < 16,
    decreases 15 - i,
{
    if i < 15 {
        lemma_bucket_range(e, i + 1, upper * 2);
    }
}

/// Sum of the first `n` bucket counts.
pub open spec fn bucket_sum(b: Seq<u64>, n: int) -> int
    decreases n,
{
    if n <= 0 {
        0
    } else {
        bucket_sum(b, n - 1) + b[n - 1]
    }
}

proof fn lemma_bucket_sum_update(b: Seq<u64>, i: int, v: u64, n: int)
    requires
        0 <= i < b.len(),
        0 <= n <= b.len(),
    ensures
        bucket_sum(b.update(i, v), n) == bucket_sum(b, n) + (if i < n { v - b[i] } else { 0 }),
    decreases n,
{
    if n > 0 {
        lemma_bucket_sum_update(b, i, v, n - 1);
    }
}

proof fn lemma_bucket_le_sum(b: Seq<u64>, i: int, n: int)
    requires
        0 <= i < n <= b.len(),
    ensures
        b[i] <= bucket_sum(b, n),
    decreases n,
{
    if i < n - 1 {
        lemma_bucket_le_sum(b, i, n - 1);
    }
    lemma_bucket_sum_nonneg(b, n - 1);
}

proof fn lemma_bucket_sum_nonneg(b: Seq<u64>, n: int)
    ensures
        bucket_sum(b, n) >= 0,
    decreases n,
{
    if n > 0 {
        lemma_bucket_sum_nonneg(b, n - 1);
    }
}

proof fn lemma_zero_sum(b: Seq<u64>, n: int)
    requires
        0 <= n <= b.len(),
        forall|j: int| 0 <= j < b.len() ==> b[j] == 0,
    ensures
        bucket_sum(b, n) == 0,
    decreases n,
{
    if n > 0 {
        lemma_zero_sum(b, n - 1);
    }
}

/// A histogram of run times on a logarithmic scale.
#[derive(Debug, Clone)]
pub struct ExecTimeHistogram {
    buckets: Vec<u64>,
    total_samples: u64,
    total_time_ns: u64,
}

impl ExecTimeHistogram {
    /// Samples per bucket.
    pub closed spec fn bucket_counts(&self) -> Seq<u64> {
        self.buckets@
    }

    /// Samples recorded.
    pub closed spec fn samples(&self) -> u64 {
        self.total_samples
    }

    /// Run time recorded.
    pub closed spec fn total_time(&self) -> u64 {
        self.total_time_ns
    }

    /// Sixteen buckets, which together hold every sample.
    pub closed spec fn wf(&self) -> bool {
        &&& self.buckets@.len() == HISTOGRAM_BUCKETS
        &&& bucket_sum(self.buckets@, HISTOGRAM_BUCKETS as int) == self.total_samples
    }

    /// Nothing recorded.
    pub fn new() -> (r: Self)
        ensures
            r.wf(),
            r.samples() == 0,
            r.total_time() == 0,
            forall|i: int| 0 <= i < HISTOGRAM_BUCKETS ==> r.bucket_counts()[i] == 0,
            r.bucket_counts().len() == HISTOGRAM_BUCKETS,
    {
        let mut buckets: Vec<u64> = Vec::new();
        let mut i: usize = 0;
        while i < HISTOGRAM_BUCKETS
            invariant
                i <= HISTOGRAM_BUCKETS,
                buckets.len() == i,
                forall|j: int| 0 <= j < i ==> buckets@[j] == 0,
            decreases HISTOGRAM_BUCKETS - i,
        {
            buckets.push(0);
            i = i + 1;
        }
        let r = ExecTimeHistogram { buckets, total_samples: 0, total_time_ns: 0 };
        proof {
            lemma_zero_sum(r.buckets@, HISTOGRAM_BUCKETS as int);
        }
        r
    }

    /// Record a run of `exec_ns`.
    pub fn add_sample(&mut self, exec_ns: u64)
        requires
            old(self).wf(),
            old(self).samples() < u64::MAX,
            old(self).total_time() + exec_ns <= u64::MAX,
        ensures
            final(self).wf(),
            final(self).samples() == old(self).samples() + 1,
            final(self).total_time() == old(self).total_time() + exec_ns,
            final(self).bucket_counts() == old(self).bucket_counts().update(
                bucket_of(exec_ns),
                (old(self).bucket_counts()[bucket_of(exec_ns)] + 1) as u64,
            ),
    {
        proof {
            lemma_bucket_range(exec_ns, 0, 2048);
        }
        self.total_samples = self.total_samples + 1;
        self.total_time_ns = self.total_time_ns + exec_ns;
        let mut idx: usize = 0;
        let mut upper: u64 = 2048;
        let mut i: usize = 0;
        let mut found = false;
        proof {
            vstd::arithmetic::power2::lemma2_to64();
        }
        while i < 15 && !found
            invariant
                i <= 15,
                upper == 2048 * vstd::arithmetic::power2::pow2(i as nat),
                vstd::arithmetic::power2::pow2(15) == 32768,
                !found ==> idx == 0 && bucket_of(exec_ns) == bucket_from(exec_ns, i as int, upper as int),
                found ==> idx == bucket_of(exec_ns) && idx < 15,
            decreases 15 - i + (if found { 0int } else { 1int }),
        {
            if exec_ns < upper {
                assert(bucket_from(exec_ns, i as int, upper as int) == i as int);
                idx = i;
                found = true;
            } else {
                proof {
                    vstd::arithmetic::power2::lemma_pow2_unfold((i + 1) as nat);
                    if i < 14 {
                        vstd::arithmetic::power2::lemma_pow2_strictly_increases(i as nat, 15);
                    }
                }
                upper = upper * 2;
                i = i + 1;
            }
        }
        if !found {
            proof {
                vstd::arithmetic::power2::lemma2_to64();
            }
            if exec_ns >= upper {
                idx = 15;
            }
        }
        proof {
            lemma_bucket_le_sum(self.buckets@, idx as int, HISTOGRAM_BUCKETS as int);
            lemma_bucket_sum_update(self.buckets@, idx as int, (self.buckets@[idx as int] + 1) as u64, HISTOGRAM_BUCKETS as int);
        }
        let c = self.buckets[idx];
        self.buckets.set(idx, c + 1);
    }

    /// Samples recorded.
    pub fn total_samples(&self) -> (r: u64)
        ensures
            r == self.samples(),
    {
        self.total_samples
    }
}

/// The buckets of a histogram together hold every sample recorded.
pub proof fn law_buckets_hold_every_sample(h: ExecTimeHistogram)
    requires
        h.wf(),
    ensures
        bucket_sum(h.bucket_counts(), HISTOGRAM_BUCKETS as int) == h.samples(),
{
}

/// System-wide counters and per-CPU summaries for reporting.
#[derive(Debug, Clone)]
pub struct SystemStats {
    pub total_switches: u64,
    pub total_voluntary_switches: u64,
    pub total_involuntary_switches: u64,
    pub total_migrations: u64,
    pub total_user_time_ns: u64,
    pub total_system_time_ns: u64,
    pub total_idle_time_ns: u64,
    pub total_iowait_time_ns: u64,
    pub total_running_time_ns: u64,
    pub per_cpu: Vec<CpuStatsSnapshot>,
}

/// A summary of one CPU.
#[derive(Debug, Clone, Copy, PartialEq, Eq, Structural)]
pub struct CpuStatsSnapshot {
    pub cpu: u32,
    pub nr_switches: u64,
    pub user_time_ns: u64,
    pub system_time_ns: u64,
    pub idle_time_ns: u64,
    pub iowait_time_ns: u64,
    pub running_time_ns: u64,
    pub load_percent: u32,
}

/// The system totals, with no per-CPU summaries.
pub fn collect_system_stats(g: &GlobalCounters) -> (r: SystemStats)
    ensures
        r.total_switches == g.switches,
        r.total_voluntary_switches == g.voluntary_switches,
        r.total_involuntary_switches == g.involuntary_switches,
        r.total_migrations == g.migrations,
        r.total_user_time_ns == g.user_time_ns,
        r.total_system_time_ns == g.system_time_ns,
        r.total_idle_time_ns == g.idle_time_ns,
        r.total_iowait_time_ns == g.iowait_time_ns,
        r.total_running_time_ns == g.running_time_ns,
        r.per_cpu@.len() == 0,
{
    SystemStats {
        total_switches: g.switches,
        total_voluntary_switches: g.voluntary_switches,
        total_involuntary_switches: g.involuntary_switches,
        total_migrations: g.migrations,
        total_user_time_ns: g.user_time_ns,
        total_system_time_ns: g.system_time_ns,
        total_idle_time_ns: g.idle_time_ns,
        total_iowait_time_ns: g.iowait_time_ns,
        total_running_time_ns: g.running_time_ns,
        per_cpu: Vec::new(),
    }
}

} // verus!
