//! Which CPUs are possible, present, online and active, and their package and core
//! numbers.
use vstd::prelude::*;
use super::cpumask::{CpuMask, AtomicCpuMask, MAX_CPUS};

verus! {

/// Package or core number of a CPU whose topology is unknown.
pub const NO_TOPO: u32 = 0xffff_ffff;

/// The CPU sets and per-CPU topology of the machine.
pub struct CpuRegistry {
    pub possible: AtomicCpuMask,
    pub present: AtomicCpuMask,
    pub online: AtomicCpuMask,
    pub active: AtomicCpuMask,
    pub package_id: Vec<u32>,
    pub core_id: Vec<u32>,
}

impl CpuRegistry {
    /// Every mask well-formed, one topology entry per CPU.
    pub open spec fn wf(&self) -> bool {
        &&& self.possible.wf()
        &&& self.present.wf()
        &&& self.online.wf()
        &&& self.active.wf()
        &&& self.package_id.len() == MAX_CPUS
        &&& self.core_id.len() == MAX_CPUS
    }

    /// No CPU known, no topology.
    pub fn new() -> (r: Self)
        ensures
            r.wf(),
            r.possible@ == Set::<int>::empty(),
            r.present@ == Set::<int>::empty(),
            r.online@ == Set::<int>::empty(),
            r.active@ == Set::<int>::empty(),
            forall|c: int| 0 <= c < MAX_CPUS ==> r.package_id@[c] == NO_TOPO && r.core_id@[c] == NO_TOPO,
    {
        let mut package_id: Vec<u32> = Vec::new();
        let mut core_id: Vec<u32> = Vec::new();
        let mut i: usize = 0;
        while i < MAX_CPUS
            invariant
                i <= MAX_CPUS,
                package_id.len() == i,
                core_id.len() == i,
                forall|c: int| 0 <= c < i ==> package_id@[c] == NO_TOPO && core_id@[c] == NO_TOPO,
            decreases MAX_CPUS - i,
        {
            package_id.push(NO_TOPO);
            core_id.push(NO_TOPO);
            i = i + 1;
        }
        CpuRegistry {
            possible: AtomicCpuMask::new(),
            present: AtomicCpuMask::new(),
            online: AtomicCpuMask::new(),
            active: AtomicCpuMask::new(),
            package_id,
            core_id,
        }
    }
}

/// The CPU may exist.
pub fn mark_possible(reg: &mut CpuRegistry, cpu: u32)
    requires
        old(reg).wf(),
    ensures
        final(reg).wf(),
        final(reg).possible@ == if cpu < MAX_CPUS {
            old(reg).possible@.insert(cpu as int)
        } else {
            old(reg).possible@
        },
        final(reg).present@ == old(reg).present@,
        final(reg).online@ == old(reg).online@,
        final(reg).active@ == old(reg).active@,
        final(reg).package_id@ == old(reg).package_id@,
        final(reg).core_id@ == old(reg).core_id@,
{
    reg.possible.set(cpu);
}

/// The CPU exists.
pub fn mark_present(reg: &mut CpuRegistry, cpu: u32)
    requires
        old(reg).wf(),
    ensures
        final(reg).wf(),
        final(reg).present@ == if cpu < MAX_CPUS {
            old(reg).present@.insert(cpu as int)
        } else {
            old(reg).present@
        },
        final(reg).possible@ == old(reg).possible@,
        final(reg).online@ == old(reg).online@,
        final(reg).active@ == old(reg).active@,
        final(reg).package_id@ == old(reg).package_id@,
        final(reg).core_id@ == old(reg).core_id@,
{
    reg.present.set(cpu);
}

/// The CPU runs and takes work: it joins the online and active sets.
pub fn mark_online(reg: &mut CpuRegistry, cpu: u32)
    requires
        old(reg).wf(),
    ensures
        final(reg).wf(),
        final(reg).online@ == if cpu < MAX_CPUS {
            old(reg).online@.insert(cpu as int)
        } else {
            old(reg).online@
        },
        final(reg).active@ == if cpu < MAX_CPUS {
            old(reg).active@.insert(cpu as int)
        } else {
            old(reg).active@
        },
        final(reg).possible@ == old(reg).possible@,
        final(reg).present@ == old(reg).present@,
        final(reg).package_id@ == old(reg).package_id@,
        final(reg).core_id@ == old(reg).core_id@,
{
    reg.online.set(cpu);
    reg.active.set(cpu);
}

/// The CPU stops: it leaves the active and online sets.
pub fn mark_offline(reg: &mut CpuRegistry, cpu: u32)
    requires
        old(reg).wf(),
    ensures
        final(reg).wf(),
        final(reg).online@ == old(reg).online@.remove(cpu as int),
        final(reg).active@ == old(reg).active@.remove(cpu as int),
        final(reg).possible@ == old(reg).possible@,
        final(reg).present@ == old(reg).present@,
        final(reg).package_id@ == old(reg).package_id@,
        final(reg).core_id@ == old(reg).core_id@,
{
    reg.active.clear(cpu);
    reg.online.clear(cpu);
}

/// The CPU is online.
pub fn is_online(reg: &CpuRegistry, cpu: u32) -> (r: bool)
    requires
        reg.wf(),
    ensures
        r == reg.online@.contains(cpu as int),
{
    reg.online.test(cpu)
}

/// The online CPUs.
pub fn online_mask(reg: &CpuRegistry) -> (r: CpuMask)
    requires
        reg.wf(),
    ensures
        r.wf(),
        r@ == reg.online@,
{
    reg.online.snapshot()
}

/// The active CPUs.
pub fn active_mask(reg: &CpuRegistry) -> (r: CpuMask)
    requires
        reg.wf(),
    ensures
        r.wf(),
        r@ == reg.active@,
{
    reg.active.snapshot()
}

/// Record the package and core of `cpu` (ignored when out of range).
pub fn set_topology(reg: &mut CpuRegistry, cpu: u32, pkg: u32, core: u32)
    requires
        old(reg).wf(),
    ensures
        final(reg).wf(),
        final(reg).package_id@ == if cpu < MAX_CPUS {
            old(reg).package_id@.update(cpu as int, pkg)
        } else {
            old(reg).package_id@
        },
        final(reg).core_id@ == if cpu < MAX_CPUS {
            old(reg).core_id@.update(cpu as int, core)
        } else {
            old(reg).core_id@
        },
        final(reg).possible@ == old(reg).possible@,
        final(reg).present@ == old(reg).present@,
        final(reg).online@ == old(reg).online@,
        final(reg).active@ == old(reg).active@,
{
    if (cpu as usize) < MAX_CPUS {
        reg.package_id.set(cpu as usize, pkg);
        reg.core_id.set(cpu as usize, core);
    }
}

/// The online CPUs that share `cpu`'s package and core.
pub open spec fn siblings(reg: &CpuRegistry, cpu: int) -> Set<int> {
    if reg.package_id@[cpu] == NO_TOPO || reg.core_id@[cpu] == NO_TOPO {
        Set::<int>::empty()
    } else {
        Set::new(
            |c: int|
                reg.online@.contains(c) && 0 <= c < MAX_CPUS && reg.package_id@[c] == reg.package_id@[cpu]
                    && reg.core_id@[c] == reg.core_id@[cpu],
        )
    }
}

/// The online hardware threads of `cpu`'s core (none when its topology is unknown).
pub fn sibling_mask(reg: &CpuRegistry, cpu: u32) -> (r: CpuMask)
    requires
        reg.wf(),
        cpu < MAX_CPUS,
    ensures
        r.wf(),
        r@ == siblings(reg, cpu as int),
{
    let mut out = CpuMask::empty();
    let pkg = reg.package_id[cpu as usize];
    let core = reg.core_id[cpu as usize];
    if pkg == NO_TOPO || core == NO_TOPO {
        return out;
    }
    let online = online_mask(reg);
    let mut c: u32 = 0;
    while c < 1024
        invariant
            c <= MAX_CPUS,
            reg.wf(),
            online.wf(),
            online@ == reg.online@,
            out.wf(),
            pkg == reg.package_id@[cpu as int],
            core == reg.core_id@[cpu as int],
            pkg != NO_TOPO,
            core != NO_TOPO,
            out@ == siblings(reg, cpu as int).filter(|x: int| x < c),
        decreases MAX_CPUS - c,
    {
        if online.test(c) && reg.package_id[c as usize] == pkg && reg.core_id[c as usize] == core {
            out.set(c);
        }
        assert(out@ =~= siblings(reg, cpu as int).filter(|x: int| x < c + 1));
        c = c + 1;
    }
    assert(out@ =~= siblings(reg, cpu as int));
    out
}

} // verus!
