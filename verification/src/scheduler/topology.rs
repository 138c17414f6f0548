//! CPU topology: caches, NUMA nodes, scheduling domains and groups, and the pools
//! they are allocated from. Links between domains and groups are pool indices or
//! addresses held as integers, 0 standing for none.
use vstd::prelude::*;
use super::cpumask::{CpuMask, MAX_CPUS};
use super::task::{SpinLock, CPU_NONE};

verus! {

/// The domain balances load.
pub const SD_LOAD_BALANCE: u32 = 0x0001;

/// Balance when a CPU becomes idle.
pub const SD_BALANCE_NEWIDLE: u32 = 0x0002;

/// Balance at exec.
pub const SD_BALANCE_EXEC: u32 = 0x0004;

/// Balance at fork.
pub const SD_BALANCE_FORK: u32 = 0x0008;

/// Balance at wake-up.
pub const SD_BALANCE_WAKE: u32 = 0x0010;

/// Wake tasks near the waker.
pub const SD_WAKE_AFFINE: u32 = 0x0020;

/// The CPUs share core capacity (hardware threads).
pub const SD_SHARE_CPUCAPACITY: u32 = 0x0040;

/// The CPUs share package resources such as the last-level cache.
pub const SD_SHARE_PKG_RESOURCES: u32 = 0x0080;

/// Only one CPU balances the domain at a time.
pub const SD_SERIALIZE: u32 = 0x0100;

/// Prefer packing work onto lower-numbered CPUs.
pub const SD_ASYM_PACKING: u32 = 0x0200;

/// The domain spans NUMA nodes.
pub const SD_NUMA: u32 = 0x0400;

/// Domain levels per CPU.
pub const MAX_SCHED_DOMAIN_LEVELS: usize = 8;

/// NUMA nodes.
pub const MAX_NUMA_NODES: usize = 16;

/// Entries of the domain and group pools.
pub const POOL_SIZE: usize = 8192;

/// Level of a cache.
#[derive(Debug, Clone, Copy, PartialEq, Eq, Structural)]
pub enum CacheLevel {
    L1Data,
    L1Instruction,
    L2Unified,
    L3Unified,
}

/// A cache and the CPUs that share it.
#[derive(Clone)]
pub struct CacheTopology {
    pub level: CacheLevel,
    pub size_kb: u32,
    pub line_size: u32,
    pub shared_cpus: CpuMask,
}

/// A level-1 data cache of size zero shared by no CPU.
pub open spec fn is_empty_cache(c: CacheTopology) -> bool {
    &&& c.level == CacheLevel::L1Data
    &&& c.size_kb == 0
    &&& c.line_size == 0
    &&& c.shared_cpus.wf()
    &&& c.shared_cpus@ == Set::<int>::empty()
}

fn empty_cache() -> (r: CacheTopology)
    ensures
        is_empty_cache(r),
{
    CacheTopology { level: CacheLevel::L1Data, size_kb: 0, line_size: 0, shared_cpus: CpuMask::empty() }
}

/// A NUMA node: its CPUs, memory range and distances to the other nodes.
pub struct NumaNode {
    pub node_id: u32,
    pub cpus: CpuMask,
    pub memory_start: u64,
    pub memory_size: u64,
    pub distance: Vec<u8>,
}

/// A node with no identity, CPUs, memory, or distances.
pub open spec fn is_empty_node(n: NumaNode) -> bool {
    &&& n.node_id == u32::MAX
    &&& n.cpus.wf()
    &&& n.cpus@ == Set::<int>::empty()
    &&& n.memory_start == 0
    &&& n.memory_size == 0
    &&& n.distance@.len() == MAX_NUMA_NODES
    &&& forall|i: int| 0 <= i < MAX_NUMA_NODES ==> n.distance@[i] == 0
}

impl NumaNode {
    /// One distance per node; the CPU mask is well-formed.
    pub open spec fn wf(&self) -> bool {
        self.distance@.len() == MAX_NUMA_NODES && self.cpus.wf()
    }

    /// A node with no identity, CPUs, memory, or distances.
    pub fn empty() -> (r: Self)
        ensures
            is_empty_node(r),
    {
        let mut distance: Vec<u8> = Vec::new();
        let mut i: usize = 0;
        while i < MAX_NUMA_NODES
            invariant
                i <= MAX_NUMA_NODES,
                distance.len() == i,
                forall|j: int| 0 <= j < i ==> distance@[j] == 0,
            decreases MAX_NUMA_NODES - i,
        {
            distance.push(0);
            i = i + 1;
        }
        NumaNode { node_id: u32::MAX, cpus: CpuMask::empty(), memory_start: 0, memory_size: 0, distance }
    }

    /// Distance to node `other_node`; 255 for a node out of range.
    pub fn distance_to(&self, other_node: u32) -> (r: u8)
        requires
            self.wf(),
        ensures
            r == if other_node < MAX_NUMA_NODES {
                self.distance@[other_node as int]
            } else {
                255u8
            },
    {
        if other_node as usize >= MAX_NUMA_NODES {
            return 255;
        }
        self.distance[other_node as usize]
    }
}

/// A group of CPUs balanced against its siblings in a domain.
pub struct SchedGroup {
    pub group_mask: CpuMask,
    pub group_weight: u32,
    pub group_capacity: u32,
    pub group_util: u32,
    pub group_misfit_task: bool,
    pub group_overloaded: bool,
    pub next: usize,
    pub idle_cpus: CpuMask,
    pub rq_avg_load: u64,
}

/// A group with no CPUs, load or link.
pub open spec fn is_empty_group(g: SchedGroup) -> bool {
    &&& g.group_mask.wf()
    &&& g.group_mask@ == Set::<int>::empty()
    &&& g.group_weight == 0
    &&& g.group_capacity == 0
    &&& g.group_util == 0
    &&& !g.group_misfit_task
    &&& !g.group_overloaded
    &&& g.next == 0
    &&& g.idle_cpus.wf()
    &&& g.idle_cpus@ == Set::<int>::empty()
    &&& g.rq_avg_load == 0
}

impl SchedGroup {
    /// A group with no CPUs, load or link.
    pub fn empty() -> (r: Self)
        ensures
            is_empty_group(r),
    {
        SchedGroup {
            group_mask: CpuMask::empty(),
            group_weight: 0,
            group_capacity: 0,
            group_util: 0,
            group_misfit_task: false,
            group_overloaded: false,
            next: 0,
            idle_cpus: CpuMask::empty(),
            rq_avg_load: 0,
        }
    }
}

/// A scheduling domain: a span of CPUs balanced together at one level.
pub struct SchedDomain {
    pub level: u32,
    pub flags: u32,
    pub span: CpuMask,
    pub child: usize,
    pub parent: usize,
    pub groups: usize,
    pub nr_groups: u32,
    pub cache_nice_tries: u32,
    pub busy_idx: u32,
    pub idle_idx: u32,
    pub newidle_idx: u32,
    pub wake_idx: u32,
    pub fork_idx: u32,
    pub last_balance: u64,
    pub nr_balance_failed: u32,
    pub domain_name: &'static str,
}

/// A level-0 domain with no flags, span or links, named "unknown".
pub open spec fn is_empty_domain(d: SchedDomain) -> bool {
    &&& d.level == 0
    &&& d.flags == 0
    &&& d.span.wf()
    &&& d.span@ == Set::<int>::empty()
    &&& d.child == 0
    &&& d.parent == 0
    &&& d.groups == 0
    &&& d.nr_groups == 0
    &&& d.cache_nice_tries == 2
    &&& d.busy_idx == 0
    &&& d.idle_idx == 0
    &&& d.newidle_idx == 0
    &&& d.wake_idx == 0
    &&& d.fork_idx == 0
    &&& d.last_balance == 0
    &&& d.nr_balance_failed == 0
    &&& d.domain_name@ == "unknown"@
}

impl SchedDomain {
    /// A level-0 domain with no flags, span or links, named "unknown".
    pub fn empty() -> (r: Self)
        ensures
            is_empty_domain(r),
    {
        let r = SchedDomain {
            level: 0,
            flags: 0,
            span: CpuMask::empty(),
            child: 0,
            parent: 0,
            groups: 0,
            nr_groups: 0,
            cache_nice_tries: 2,
            busy_idx: 0,
            idle_idx: 0,
            newidle_idx: 0,
            wake_idx: 0,
            fork_idx: 0,
            last_balance: 0,
            nr_balance_failed: 0,
            domain_name: "unknown",
        };
        proof {
            reveal_strlit("unknown");
        }
        r
    }

    /// One of the bits of `flag` is set.
    pub fn has_flag(&self, flag: u32) -> (r: bool)
        ensures
            r == (self.flags & flag != 0),
    {
        (self.flags & flag) != 0
    }

    /// The domain spans NUMA nodes.
    pub fn is_numa(&self) -> (r: bool)
        ensures
            r == (self.flags & SD_NUMA != 0),
    {
        self.has_flag(SD_NUMA)
    }

    /// The domain's CPUs share package resources.
    pub fn shares_cache(&self) -> (r: bool)
        ensures
            r == (self.flags & SD_SHARE_PKG_RESOURCES != 0),
    {
        self.has_flag(SD_SHARE_PKG_RESOURCES)
    }

    /// The domain's CPUs are hardware threads of one core.
    pub fn is_smt(&self) -> (r: bool)
        ensures
            r == (self.flags & SD_SHARE_CPUCAPACITY != 0),
    {
        self.has_flag(SD_SHARE_CPUCAPACITY)
    }
}

/// Topology of one CPU.
pub struct CpuTopology {
    pub cpu_id: u32,
    pub package_id: u32,
    pub core_id: u32,
    pub smt_id: u32,
    pub numa_node_id: u32,
    pub l1d_cache: CacheTopology,
    pub l2_cache: CacheTopology,
    pub l3_cache: CacheTopology,
    pub thread_siblings: CpuMask,
    pub core_siblings: CpuMask,
    pub book_siblings: CpuMask,
    pub drawer_siblings: CpuMask,
}

/// A CPU of unknown identity with empty caches and siblings.
pub open spec fn is_empty_cpu(t: CpuTopology) -> bool {
    &&& t.cpu_id == CPU_NONE
    &&& t.package_id == u32::MAX
    &&& t.core_id == u32::MAX
    &&& t.smt_id == u32::MAX
    &&& t.numa_node_id == 0
    &&& is_empty_cache(t.l1d_cache)
    &&& is_empty_cache(t.l2_cache)
    &&& is_empty_cache(t.l3_cache)
    &&& t.thread_siblings.wf() && t.thread_siblings@ == Set::<int>::empty()
    &&& t.core_siblings.wf() && t.core_siblings@ == Set::<int>::empty()
    &&& t.book_siblings.wf() && t.book_siblings@ == Set::<int>::empty()
    &&& t.drawer_siblings.wf() && t.drawer_siblings@ == Set::<int>::empty()
}

impl CpuTopology {
    /// The cache and sibling masks are well-formed.
    pub open spec fn wf(&self) -> bool {
        &&& self.l1d_cache.shared_cpus.wf()
        &&& self.l2_cache.shared_cpus.wf()
        &&& self.l3_cache.shared_cpus.wf()
        &&& self.thread_siblings.wf()
        &&& self.core_siblings.wf()
    }

    /// A CPU of unknown identity with empty caches and siblings.
    pub fn empty() -> (r: Self)
        ensures
            is_empty_cpu(r),
    {
        CpuTopology {
            cpu_id: CPU_NONE,
            package_id: u32::MAX,
            core_id: u32::MAX,
            smt_id: u32::MAX,
            numa_node_id: 0,
            l1d_cache: empty_cache(),
            l2_cache: empty_cache(),
            l3_cache: empty_cache(),
            thread_siblings: CpuMask::empty(),
            core_siblings: CpuMask::empty(),
            book_siblings: CpuMask::empty(),
            drawer_siblings: CpuMask::empty(),
        }
    }
}

/// The machine's topology and the pools its domains and groups come from.
pub struct TopologyState {
    pub cpus: Vec<CpuTopology>,
    pub nodes: Vec<NumaNode>,
    pub nr_nodes: u32,
    pub sd_pool: Vec<SchedDomain>,
    pub sg_pool: Vec<SchedGroup>,
    pub sd_used: u32,
    pub sg_used: u32,
    pub per_cpu_domains: Vec<usize>,
    pub lock: SpinLock,
    pub initialized: bool,
}

impl TopologyState {
    /// Table sizes.
    pub open spec fn wf(&self) -> bool {
        &&& self.cpus@.len() == MAX_CPUS
        &&& self.nodes@.len() == MAX_NUMA_NODES
        &&& self.sd_pool@.len() == POOL_SIZE
        &&& self.sg_pool@.len() == POOL_SIZE
        &&& self.per_cpu_domains@.len() == MAX_CPUS
        &&& forall|i: int| 0 <= i < MAX_CPUS ==> #[trigger] self.cpus@[i].wf()
        &&& forall|i: int| 0 <= i < MAX_NUMA_NODES ==> #[trigger] self.nodes@[i].wf()
    }

    /// Nothing known, nothing allocated.
    pub fn empty() -> (r: Self)
        ensures
            r.wf(),
            forall|i: int| 0 <= i < MAX_CPUS ==> is_empty_cpu(#[trigger] r.cpus@[i]),
            forall|i: int| 0 <= i < MAX_NUMA_NODES ==> is_empty_node(#[trigger] r.nodes@[i]),
            forall|i: int| 0 <= i < POOL_SIZE ==> is_empty_domain(#[trigger] r.sd_pool@[i]),
            forall|i: int| 0 <= i < POOL_SIZE ==> is_empty_group(#[trigger] r.sg_pool@[i]),
            forall|i: int| 0 <= i < MAX_CPUS ==> r.per_cpu_domains@[i] == 0,
            r.nr_nodes == 0 && r.sd_used == 0 && r.sg_used == 0,
            !r.lock.held() && !r.initialized,
    {
        let mut cpus: Vec<CpuTopology> = Vec::new();
        let mut per_cpu_domains: Vec<usize> = Vec::new();
        let mut i: usize = 0;
        while i < MAX_CPUS
            invariant
                i <= MAX_CPUS,
                cpus.len() == i,
                per_cpu_domains.len() == i,
                forall|j: int| 0 <= j < i ==> is_empty_cpu(#[trigger] cpus@[j]),
                forall|j: int| 0 <= j < i ==> per_cpu_domains@[j] == 0,
            decreases MAX_CPUS - i,
        {
            cpus.push(CpuTopology::empty());
            per_cpu_domains.push(0);
            i = i + 1;
        }
        let mut nodes: Vec<NumaNode> = Vec::new();
        let mut i: usize = 0;
        while i < MAX_NUMA_NODES
            invariant
                i <= MAX_NUMA_NODES,
                nodes.len() == i,
                forall|j: int| 0 <= j < i ==> is_empty_node(#[trigger] nodes@[j]),
            decreases MAX_NUMA_NODES - i,
        {
            nodes.push(NumaNode::empty());
            i = i + 1;
        }
        let mut sd_pool: Vec<SchedDomain> = Vec::new();
        let mut sg_pool: Vec<SchedGroup> = Vec::new();
        let mut i: usize = 0;
        while i < POOL_SIZE
            invariant
                i <= POOL_SIZE,
                sd_pool.len() == i,
                sg_pool.len() == i,
                forall|j: int| 0 <= j < i ==> is_empty_domain(#[trigger] sd_pool@[j]),
                forall|j: int| 0 <= j < i ==> is_empty_group(#[trigger] sg_pool@[j]),
            decreases POOL_SIZE - i,
        {
            sd_pool.push(SchedDomain::empty());
            sg_pool.push(SchedGroup::empty());
            i = i + 1;
        }
        TopologyState {
            cpus,
            nodes,
            nr_nodes: 0,
            sd_pool,
            sg_pool,
            sd_used: 0,
            sg_used: 0,
            per_cpu_domains,
            lock: SpinLock::new(),
            initialized: false,
        }
    }

    /// Take the next domain of the pool, reset to empty; its index, or none when the
    /// pool is used up.
    pub fn alloc_domain(&mut self) -> (r: Option<usize>)
        requires
            old(self).wf(),
        ensures
            final(self).wf(),
            r == if old(self).sd_used < POOL_SIZE {
                Some(old(self).sd_used as usize)
            } else {
                None::<usize>
            },
            match r {
                None => *final(self) == *old(self),
                Some(i) => {
                    &&& final(self).sd_used == old(self).sd_used + 1
                    &&& is_empty_domain(final(self).sd_pool@[i as int])
                    &&& final(self).sd_pool@ == old(self).sd_pool@.update(i as int, final(self).sd_pool@[i as int])
                    &&& *final(self) == (TopologyState {
                        sd_pool: final(self).sd_pool,
                        sd_used: final(self).sd_used,
                        ..*old(self)
                    })
                },
            },
    {
        let idx = self.sd_used as usize;
        if idx >= POOL_SIZE {
            return None;
        }
        self.sd_used = self.sd_used + 1;
        self.sd_pool.set(idx, SchedDomain::empty());
        Some(idx)
    }

    /// Take the next group of the pool, reset to empty; its index, or none when the
    /// pool is used up.
    pub fn alloc_group(&mut self) -> (r: Option<usize>)
        requires
            old(self).wf(),
        ensures
            final(self).wf(),
            r == if old(self).sg_used < POOL_SIZE {
                Some(old(self).sg_used as usize)
            } else {
                None::<usize>
            },
            match r {
                None => *final(self) == *old(self),
                Some(i) => {
                    &&& final(self).sg_used == old(self).sg_used + 1
                    &&& is_empty_group(final(self).sg_pool@[i as int])
                    &&& final(self).sg_pool@ == old(self).sg_pool@.update(i as int, final(self).sg_pool@[i as int])
                    &&& *final(self) == (TopologyState {
                        sg_pool: final(self).sg_pool,
                        sg_used: final(self).sg_used,
                        ..*old(self)
                    })
                },
            },
    {
        let idx = self.sg_used as usize;
        if idx >= POOL_SIZE {
            return None;
        }
        self.sg_used = self.sg_used + 1;
        self.sg_pool.set(idx, SchedGroup::empty());
        Some(idx)
    }
}

/// Topology of `cpu`.
pub fn cpu_topology(state: &TopologyState, cpu: u32) -> (r: &CpuTopology)
    requires
        state.wf(),
        cpu < MAX_CPUS,
    ensures
        *r == state.cpus@[cpu as int],
{
    &state.cpus[cpu as usize]
}

/// The closest cache level that `cpu_a` shares with `cpu_b`, if any.
pub fn lowest_shared_cache_level(state: &TopologyState, cpu_a: u32, cpu_b: u32) -> (r: Option<CacheLevel>)
    requires
        state.wf(),
        cpu_a < MAX_CPUS,
        cpu_b < MAX_CPUS,
    ensures
        r == if state.cpus@[cpu_a as int].l1d_cache.shared_cpus@.contains(cpu_b as int) {
            Some(CacheLevel::L1Data)
        } else if state.cpus@[cpu_a as int].l2_cache.shared_cpus@.contains(cpu_b as int) {
            Some(CacheLevel::L2Unified)
        } else if state.cpus@[cpu_a as int].l3_cache.shared_cpus@.contains(cpu_b as int) {
            Some(CacheLevel::L3Unified)
        } else {
            None::<CacheLevel>
        },
{
    let topo_a = cpu_topology(state, cpu_a);
    assert(topo_a.wf());
    if topo_a.l1d_cache.shared_cpus.test(cpu_b) {
        return Some(CacheLevel::L1Data);
    }
    if topo_a.l2_cache.shared_cpus.test(cpu_b) {
        return Some(CacheLevel::L2Unified);
    }
    if topo_a.l3_cache.shared_cpus.test(cpu_b) {
        return Some(CacheLevel::L3Unified);
    }
    None
}

/// Distance between two nodes; 255 when either is out of range.
pub fn numa_distance(state: &TopologyState, node_a: u32, node_b: u32) -> (r: u8)
    requires
        state.wf(),
    ensures
        r == if node_a < MAX_NUMA_NODES && node_b < MAX_NUMA_NODES {
            state.nodes@[node_a as int].distance@[node_b as int]
        } else {
            255u8
        },
{
    if node_a as usize >= MAX_NUMA_NODES || node_b as usize >= MAX_NUMA_NODES {
        return 255;
    }
    let node = &state.nodes[node_a as usize];
    assert(node.wf());
    node.distance_to(node_b)
}

/// Flags of a domain at `level`: SMT (0), multi-core (1) or package (2).
pub open spec fn level_flags(level: u32) -> u32 {
    if level == 0 {
        SD_LOAD_BALANCE | SD_BALANCE_NEWIDLE | SD_BALANCE_EXEC | SD_BALANCE_WAKE | SD_SHARE_CPUCAPACITY
    } else if level == 1 {
        SD_LOAD_BALANCE | SD_BALANCE_NEWIDLE | SD_BALANCE_EXEC | SD_BALANCE_WAKE | SD_SHARE_PKG_RESOURCES
    } else {
        SD_LOAD_BALANCE | SD_BALANCE_NEWIDLE | SD_NUMA | SD_ASYM_PACKING
    }
}

/// Name of a domain at `level`.
pub open spec fn level_name(level: u32) -> &'static str {
    if level == 0 {
        "SMT"
    } else if level == 1 {
        "MC"
    } else {
        "NUMA"
    }
}

/// `d` is a fresh domain at `level` spanning `span`, linked to `child` and `parent`
/// (domain handles: pool index plus one, 0 for none).
pub open spec fn built_domain(d: SchedDomain, level: u32, span: Set<int>, child: usize, parent: usize) -> bool {
    &&& d.level == level
    &&& d.flags == level_flags(level)
    &&& d.span.wf() && d.span@ == span
    &&& d.child == child
    &&& d.parent == parent
    &&& d.cache_nice_tries == level + 1
    &&& d.domain_name == level_name(level)
    &&& d.groups == 0 && d.nr_groups == 0
    &&& d.busy_idx == 0 && d.idle_idx == 0 && d.newidle_idx == 0 && d.wake_idx == 0 && d.fork_idx == 0
    &&& d.last_balance == 0 && d.nr_balance_failed == 0
}

impl TopologyState {
    /// Take a domain from the pool for `level` over `span`, below it the domain
    /// `prev` (a handle, 0 for none), and make it `prev`'s parent. Returns the new
    /// domain's handle, or `prev` when the pool is used up.
    fn push_level(&mut self, level: u32, span: &CpuMask, prev: usize) -> (r: usize)
        requires
            old(self).wf(),
            span.wf(),
            level <= 2,
            prev <= old(self).sd_used,
        ensures
            final(self).wf(),
            final(self).cpus == old(self).cpus && final(self).nodes == old(self).nodes,
            final(self).per_cpu_domains == old(self).per_cpu_domains,
            final(self).nr_nodes == old(self).nr_nodes && final(self).sg_pool == old(self).sg_pool,
            final(self).sg_used == old(self).sg_used,
            final(self).lock == old(self).lock && final(self).initialized == old(self).initialized,
            old(self).sd_used < POOL_SIZE ==> {
                let i = old(self).sd_used as int;
                let p1 = if prev == 0 {
                    old(self).sd_pool@
                } else {
                    old(self).sd_pool@.update(prev - 1, SchedDomain { parent: (i + 1) as usize, ..old(self).sd_pool@[prev - 1] })
                };
                &&& r == i + 1
                &&& final(self).sd_used == old(self).sd_used + 1
                &&& final(self).sd_pool@.len() == p1.len()
                &&& forall|j: int| 0 <= j < POOL_SIZE && j != i ==> #[trigger] final(self).sd_pool@[j] == p1[j]
                &&& built_domain(final(self).sd_pool@[i], level, span@, prev, 0)
            },
            old(self).sd_used >= POOL_SIZE ==> r == prev && final(self).sd_pool == old(self).sd_pool
                && final(self).sd_used == old(self).sd_used,
    {
        let idx = match self.alloc_domain() {
            Some(i) => i,
            None => {
                return prev;
            },
        };
        let h = idx + 1;
        self.sd_pool[idx].level = level;
        self.sd_pool[idx].flags = if level == 0 {
            SD_LOAD_BALANCE | SD_BALANCE_NEWIDLE | SD_BALANCE_EXEC | SD_BALANCE_WAKE | SD_SHARE_CPUCAPACITY
        } else if level == 1 {
            SD_LOAD_BALANCE | SD_BALANCE_NEWIDLE | SD_BALANCE_EXEC | SD_BALANCE_WAKE | SD_SHARE_PKG_RESOURCES
        } else {
            SD_LOAD_BALANCE | SD_BALANCE_NEWIDLE | SD_NUMA | SD_ASYM_PACKING
        };
        self.sd_pool[idx].span = span.copy();
        self.sd_pool[idx].domain_name = if level == 0 {
            "SMT"
        } else if level == 1 {
            "MC"
        } else {
            "NUMA"
        };
        self.sd_pool[idx].cache_nice_tries = level + 1;
        if prev != 0 {
            self.sd_pool[prev - 1].parent = h;
            self.sd_pool[idx].child = prev;
        }
        h
    }
}

/// The CPUs a domain of `cpu` at `level` spans: its hardware-thread siblings (0), its
/// core siblings (1), or the CPUs of the first node (2).
pub open spec fn level_span(st: TopologyState, cpu: int, level: u32) -> Set<int> {
    if level == 0 {
        st.cpus@[cpu].thread_siblings@
    } else if level == 1 {
        st.cpus@[cpu].core_siblings@
    } else {
        st.nodes@[0].cpus@
    }
}

/// `cpu` gets a domain at `level`: its span holds more than one CPU and differs from
/// the span one level down.
pub open spec fn level_wanted(st: TopologyState, cpu: int, level: u32) -> bool {
    level_span(st, cpu, level).len() > 1 && (level == 0 || level_span(st, cpu, level) != level_span(
        st,
        cpu,
        (level - 1) as u32,
    ))
}

/// The levels `cpu` gets domains at, lowest first.
pub open spec fn wanted_levels(st: TopologyState, cpu: int) -> Seq<u32> {
    (if level_wanted(st, cpu, 0) { seq![0u32] } else { Seq::empty() })
        + (if level_wanted(st, cpu, 1) { seq![1u32] } else { Seq::empty() })
        + (if level_wanted(st, cpu, 2) { seq![2u32] } else { Seq::empty() })
}

/// The domains of `cpu` stand in the pool from index `base` on, one per wanted level,
/// lowest first, each the parent of the one before; `top` is the handle of the last
/// (0 when there is none).
pub open spec fn cpu_domains_at(st: TopologyState, pool: Seq<SchedDomain>, cpu: int, base: int, top: usize) -> bool {
    let w = wanted_levels(st, cpu);
    &&& top == if w.len() == 0 { 0 } else { base + w.len() }
    &&& forall|j: int| 0 <= j < w.len() ==> built_domain(
        #[trigger] pool[base + j],
        w[j],
        level_span(st, cpu, w[j]),
        if j == 0 { 0usize } else { (base + j) as usize },
        if j + 1 < w.len() { (base + j + 2) as usize } else { 0usize },
    )
}

/// The first `ws.len()` domains of `cpu` stand in the pool from `base` on, for the
/// levels `ws`, each the parent of the one before, the last without a parent.
pub open spec fn chain_at(st: TopologyState, pool: Seq<SchedDomain>, cpu: int, base: int, ws: Seq<u32>) -> bool {
    forall|j: int| 0 <= j < ws.len() ==> built_domain(
        #[trigger] pool[base + j],
        ws[j],
        level_span(st, cpu, ws[j]),
        if j == 0 { 0usize } else { (base + j) as usize },
        if j + 1 < ws.len() { (base + j + 2) as usize } else { 0usize },
    )
}

/// Adding a domain for `level` on top of a chain extends the chain.
proof fn lemma_chain_push(st: TopologyState, p0: Seq<SchedDomain>, p1: Seq<SchedDomain>, cpu: int, base: int, ws: Seq<u32>, level: u32)
    requires
        chain_at(st, p0, cpu, base, ws),
        0 <= base,
        base + ws.len() < POOL_SIZE,
        p0.len() == POOL_SIZE,
        p1.len() == POOL_SIZE,
        ({
            let k = base + ws.len();
            let q = if ws.len() == 0 {
                p0
            } else {
                p0.update(k - 1, SchedDomain { parent: (k + 1) as usize, ..p0[k - 1] })
            };
            &&& forall|j: int| 0 <= j < POOL_SIZE && j != k ==> #[trigger] p1[j] == q[j]
            &&& built_domain(p1[k], level, level_span(st, cpu, level), if ws.len() == 0 { 0usize } else { k as usize }, 0)
        }),
    ensures
        chain_at(st, p1, cpu, base, ws.push(level)),
{
    let k = base + ws.len();
    let w1 = ws.push(level);
    assert forall|j: int| 0 <= j < w1.len() implies built_domain(
        #[trigger] p1[base + j],
        w1[j],
        level_span(st, cpu, w1[j]),
        if j == 0 { 0usize } else { (base + j) as usize },
        if j + 1 < w1.len() { (base + j + 2) as usize } else { 0usize },
    ) by {
        if j < ws.len() {
            assert(w1[j] == ws[j]);
            assert(built_domain(
                p0[base + j],
                ws[j],
                level_span(st, cpu, ws[j]),
                if j == 0 { 0usize } else { (base + j) as usize },
                if j + 1 < ws.len() { (base + j + 2) as usize } else { 0usize },
            ));
        }
    }
}

impl TopologyState {
    /// Build the domains of `cpu` (SMT, multi-core, package, as wanted) from the pool
    /// and record the highest as the CPU's domain.
    fn build_cpu_domains(&mut self, cpu: usize)
        requires
            old(self).wf(),
            cpu < MAX_CPUS,
        ensures
            final(self).wf(),
            final(self).cpus == old(self).cpus && final(self).nodes == old(self).nodes,
            final(self).per_cpu_domains@ == old(self).per_cpu_domains@.update(cpu as int, final(self).per_cpu_domains@[cpu as int]),
            final(self).sd_used >= old(self).sd_used,
            forall|j: int| 0 <= j < old(self).sd_used ==> #[trigger] final(self).sd_pool@[j] == old(self).sd_pool@[j],
            final(self).nr_nodes == old(self).nr_nodes && final(self).sg_pool == old(self).sg_pool,
            final(self).sg_used == old(self).sg_used,
            final(self).lock == old(self).lock && final(self).initialized == old(self).initialized,
            old(self).sd_used + 3 <= POOL_SIZE ==> {
                &&& final(self).sd_used == old(self).sd_used + wanted_levels(*old(self), cpu as int).len()
                &&& cpu_domains_at(*old(self), final(self).sd_pool@, cpu as int, old(self).sd_used as int, final(self).per_cpu_domains@[cpu as int])
            },
    {
        assert(self.cpus@[cpu as int].wf());
        assert(self.nodes@[0].wf());
        let smt = self.cpus[cpu].thread_siblings.copy();
        let mc = self.cpus[cpu].core_siblings.copy();
        let pkg = self.nodes[0].cpus.copy();
        let ghost st0 = *self;
        let ghost base = self.sd_used as int;
        let ghost room = self.sd_used + 3 <= POOL_SIZE;
        let ghost mut ws: Seq<u32> = Seq::empty();
        let mut prev: usize = 0;
        proof {
            if room {
                assert(chain_at(st0, self.sd_pool@, cpu as int, base, ws));
            }
        }
        if smt.weight() > 1 {
            let ghost p0 = self.sd_pool@;
            prev = self.push_level(0, &smt, prev);
            proof {
                if room {
                    lemma_chain_push(st0, p0, self.sd_pool@, cpu as int, base, ws, 0);
                }
                ws = ws.push(0u32);
            }
        }
        let b1 = mc.weight() > 1 && !mc.same_cpus(&smt);
        if b1 {
            let ghost p0 = self.sd_pool@;
            prev = self.push_level(1, &mc, prev);
            proof {
                if room {
                    lemma_chain_push(st0, p0, self.sd_pool@, cpu as int, base, ws, 1);
                }
                ws = ws.push(1u32);
            }
        }
        let b2 = pkg.weight() > 1 && !pkg.same_cpus(&mc);
        if b2 {
            let ghost p0 = self.sd_pool@;
            prev = self.push_level(2, &pkg, prev);
            proof {
                if room {
                    lemma_chain_push(st0, p0, self.sd_pool@, cpu as int, base, ws, 2);
                }
                ws = ws.push(2u32);
            }
        }
        self.per_cpu_domains.set(cpu, prev);
        proof {
            assert(ws =~= wanted_levels(st0, cpu as int));
        }
    }
}

/// Domains that the CPUs below `cpu` that are in `online` take from the pool.
pub open spec fn domains_before(st: TopologyState, online: Set<int>, cpu: int) -> int
    decreases cpu,
{
    if cpu <= 0 {
        0
    } else {
        domains_before(st, online, cpu - 1) + if online.contains(cpu - 1) {
            wanted_levels(st, cpu - 1).len() as int
        } else {
            0
        }
    }
}

/// Each CPU takes at most three domains, so the CPUs below `cpu` take at most
/// `3 * cpu`, and more CPUs never take fewer.
proof fn lemma_domains_before(st: TopologyState, online: Set<int>, a: int, b: int)
    requires
        0 <= a <= b,
    ensures
        0 <= domains_before(st, online, a) <= domains_before(st, online, b),
        domains_before(st, online, b) <= 3 * b,
    decreases b,
{
    if b > 0 {
        assert(wanted_levels(st, b - 1).len() <= 3);
        if a < b {
            lemma_domains_before(st, online, a, b - 1);
        } else {
            lemma_domains_before(st, online, 0, b - 1);
        }
    }
}

/// A CPU's domains stay as they are when nothing below `bound` changes in the pool.
proof fn lemma_domains_kept(st: TopologyState, p0: Seq<SchedDomain>, p1: Seq<SchedDomain>, cpu: int, base: int, top: usize, bound: int)
    requires
        cpu_domains_at(st, p0, cpu, base, top),
        0 <= base,
        base + wanted_levels(st, cpu).len() <= bound,
        forall|j: int| 0 <= j < bound ==> #[trigger] p1[j] == p0[j],
    ensures
        cpu_domains_at(st, p1, cpu, base, top),
{
    let w = wanted_levels(st, cpu);
    assert forall|j: int| 0 <= j < w.len() implies built_domain(
        #[trigger] p1[base + j],
        w[j],
        level_span(st, cpu, w[j]),
        if j == 0 { 0usize } else { (base + j) as usize },
        if j + 1 < w.len() { (base + j + 2) as usize } else { 0usize },
    ) by {
        assert(p1[base + j] == p0[base + j]);
    }
}

/// The domains a CPU wants depend only on the CPU and node tables.
proof fn lemma_domains_same_topology(s1: TopologyState, s0: TopologyState, pool: Seq<SchedDomain>, cpu: int, base: int, top: usize)
    requires
        s1.cpus == s0.cpus && s1.nodes == s0.nodes,
        cpu_domains_at(s1, pool, cpu, base, top),
    ensures
        cpu_domains_at(s0, pool, cpu, base, top),
        wanted_levels(s1, cpu) == wanted_levels(s0, cpu),
{
    assert forall|l: u32| level_span(s1, cpu, l) == level_span(s0, cpu, l) by {}
    assert(wanted_levels(s1, cpu) == wanted_levels(s0, cpu));
}

/// Build the scheduling domains of every CPU in `online`, in CPU order, from the
/// pool: for each, an SMT domain over its hardware-thread siblings, a multi-core
/// domain over its core siblings and a package domain over the first node's CPUs,
/// each only where its span holds more than one CPU and differs from the span one
/// level down; each domain is the parent of the one below it, and the CPU's domain
/// is the highest. Domain handles are pool indices plus one. While the pool has room
/// for three domains per CPU, every online CPU gets exactly these; a level that finds
/// the pool used up is left out.
pub fn build_sched_domains(st: &mut TopologyState, online: &CpuMask)
    requires
        old(st).wf(),
        online.wf(),
    ensures
        final(st).wf(),
        final(st).cpus == old(st).cpus && final(st).nodes == old(st).nodes,
        forall|c: int| 0 <= c < MAX_CPUS && !online@.contains(c) ==> #[trigger] final(st).per_cpu_domains@[c]
            == old(st).per_cpu_domains@[c],
        forall|j: int| 0 <= j < old(st).sd_used ==> #[trigger] final(st).sd_pool@[j] == old(st).sd_pool@[j],
        old(st).sd_used + 3 * MAX_CPUS <= POOL_SIZE ==> {
            &&& final(st).sd_used == old(st).sd_used + domains_before(*old(st), online@, MAX_CPUS as int)
            &&& forall|c: int| 0 <= c < MAX_CPUS && online@.contains(c) ==> cpu_domains_at(
                *old(st),
                final(st).sd_pool@,
                c,
                old(st).sd_used + domains_before(*old(st), online@, c),
                #[trigger] final(st).per_cpu_domains@[c],
            )
        },
{
    let ghost st0 = *st;
    let ghost room: bool = (st0.sd_used as int) + 3 * (MAX_CPUS as int) <= (POOL_SIZE as int);
    let mut c: usize = 0;
    while c < MAX_CPUS
        invariant
            c <= MAX_CPUS,
            room == (st0.sd_used + 3 * MAX_CPUS <= POOL_SIZE),
            st0 == *old(st),
            online.wf(),
            st.wf(),
            st.cpus == st0.cpus && st.nodes == st0.nodes,
            forall|x: int| c <= x < MAX_CPUS ==> #[trigger] st.per_cpu_domains@[x] == st0.per_cpu_domains@[x],
            forall|x: int| 0 <= x < c && !online@.contains(x) ==> #[trigger] st.per_cpu_domains@[x]
                == st0.per_cpu_domains@[x],
            st.sd_used >= st0.sd_used,
            forall|j: int| 0 <= j < st0.sd_used ==> #[trigger] st.sd_pool@[j] == st0.sd_pool@[j],
            room ==> st.sd_used == st0.sd_used + domains_before(st0, online@, c as int),
            room ==> forall|x: int| 0 <= x < c && online@.contains(x) ==> cpu_domains_at(
                st0,
                st.sd_pool@,
                x,
                st0.sd_used + domains_before(st0, online@, x),
                #[trigger] st.per_cpu_domains@[x],
            ),
        decreases MAX_CPUS - c,
    {
        if online.test(c as u32) {
            let ghost s1 = *st;
            proof {
                lemma_domains_before(st0, online@, c as int, c as int);
            }
            st.build_cpu_domains(c);
            proof {
                assert(st.sd_pool@.len() == POOL_SIZE);
                if room {
                    lemma_domains_before(st0, online@, c as int + 1, c as int + 1);
                    lemma_domains_same_topology(
                        s1,
                        st0,
                        st.sd_pool@,
                        c as int,
                        s1.sd_used as int,
                        st.per_cpu_domains@[c as int],
                    );
                    assert forall|x: int| 0 <= x < c + 1 && online@.contains(x) implies cpu_domains_at(
                        st0,
                        st.sd_pool@,
                        x,
                        st0.sd_used + domains_before(st0, online@, x),
                        #[trigger] st.per_cpu_domains@[x],
                    ) by {
                        if x < c {
                            lemma_domains_before(st0, online@, x + 1, c as int);
                            lemma_domains_before(st0, online@, x, c as int);
                            assert(st.per_cpu_domains@[x] == s1.per_cpu_domains@[x]);
                            lemma_domains_kept(
                                st0,
                                s1.sd_pool@,
                                st.sd_pool@,
                                x,
                                st0.sd_used + domains_before(st0, online@, x),
                                s1.per_cpu_domains@[x],
                                s1.sd_used as int,
                            );
                        }
                    }
                }
            }
        }
        c = c + 1;
    }
}

} // verus!
