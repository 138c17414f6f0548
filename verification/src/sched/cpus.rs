//! The CPU life cycle (possible, present, online, active), CPU counts and masks,
//! and package and core topology for hardware-thread-aware scheduling.
use vstd::prelude::*;
use crate::scheduler::bitmap::AtomicBitmap;
use crate::scheduler::cpumask::{CpuMask, MAX_CPUS, WORDS};

verus! {

/// Package or core number of a CPU whose topology is unknown.
pub const NO_TOPOLOGY: u32 = 0xffff_ffff;

/// Which CPUs are in each life-cycle stage, and each CPU's package and core.
pub struct CpuState {
    pub possible: AtomicBitmap<16>,
    pub present: AtomicBitmap<16>,
    pub online: AtomicBitmap<16>,
    pub active: AtomicBitmap<16>,
    pub package_id: Vec<u32>,
    pub core_id: Vec<u32>,
}

impl CpuState {
    /// Well-formed bitmaps, one topology entry per CPU.
    pub open spec fn wf(&self) -> bool {
        &&& self.possible.wf()
        &&& self.present.wf()
        &&& self.online.wf()
        &&& self.active.wf()
        &&& self.package_id@.len() == MAX_CPUS
        &&& self.core_id@.len() == MAX_CPUS
    }

    /// No CPU in any stage, no topology.
    pub fn new() -> (r: Self)
        ensures
            r.wf(),
            r.possible@ == Set::<int>::empty(),
            r.present@ == Set::<int>::empty(),
            r.online@ == Set::<int>::empty(),
            r.active@ == Set::<int>::empty(),
            forall|c: int| 0 <= c < MAX_CPUS ==> r.package_id@[c] == NO_TOPOLOGY && r.core_id@[c] == NO_TOPOLOGY,
    {
        let mut package_id: Vec<u32> = Vec::new();
        let mut core_id: Vec<u32> = Vec::new();
        let mut i: usize = 0;
        while i < MAX_CPUS
            invariant
                i <= MAX_CPUS,
                package_id.len() == i,
                core_id.len() == i,
                forall|c: int| 0 <= c < i ==> package_id@[c] == NO_TOPOLOGY && core_id@[c] == NO_TOPOLOGY,
            decreases MAX_CPUS - i,
        {
            package_id.push(NO_TOPOLOGY);
            core_id.push(NO_TOPOLOGY);
            i = i + 1;
        }
        CpuState {
            possible: AtomicBitmap::new(),
            present: AtomicBitmap::new(),
            online: AtomicBitmap::new(),
            active: AtomicBitmap::new(),
            package_id,
            core_id,
        }
    }
}

/// `s` with `cpu` added when it is in range.
pub open spec fn with_cpu(s: Set<int>, cpu: u32) -> Set<int> {
    if cpu < MAX_CPUS {
        s.insert(cpu as int)
    } else {
        s
    }
}

/// The CPU may exist.
pub fn mark_possible(st: &mut CpuState, cpu: u32)
    requires
        old(st).wf(),
    ensures
        final(st).wf(),
        final(st).possible@ == with_cpu(old(st).possible@, cpu),
        final(st).present@ == old(st).present@,
        final(st).online@ == old(st).online@,
        final(st).active@ == old(st).active@,
        final(st).package_id@ == old(st).package_id@,
        final(st).core_id@ == old(st).core_id@,
{
    if (cpu as usize) < MAX_CPUS {
        st.possible.test_and_set(cpu as usize);
    }
}

/// The CPU exists.
pub fn mark_present(st: &mut CpuState, cpu: u32)
    requires
        old(st).wf(),
    ensures
        final(st).wf(),
        final(st).present@ == with_cpu(old(st).present@, cpu),
        final(st).possible@ == old(st).possible@,
        final(st).online@ == old(st).online@,
        final(st).active@ == old(st).active@,
        final(st).package_id@ == old(st).package_id@,
        final(st).core_id@ == old(st).core_id@,
{
    if (cpu as usize) < MAX_CPUS {
        st.present.test_and_set(cpu as usize);
    }
}

/// The CPU runs and takes work: it becomes online and active.
pub fn mark_online(st: &mut CpuState, cpu: u32)
    requires
        old(st).wf(),
    ensures
        final(st).wf(),
        final(st).online@ == with_cpu(old(st).online@, cpu),
        final(st).active@ == with_cpu(old(st).active@, cpu),
        final(st).possible@ == old(st).possible@,
        final(st).present@ == old(st).present@,
        final(st).package_id@ == old(st).package_id@,
        final(st).core_id@ == old(st).core_id@,
{
    if (cpu as usize) < MAX_CPUS {
        st.online.test_and_set(cpu as usize);
        st.active.test_and_set(cpu as usize);
    }
}

/// The CPU stops: it is neither active nor online.
pub fn mark_offline(st: &mut CpuState, cpu: u32)
    requires
        old(st).wf(),
    ensures
        final(st).wf(),
        final(st).online@ == old(st).online@.remove(cpu as int),
        final(st).active@ == old(st).active@.remove(cpu as int),
        final(st).possible@ == old(st).possible@,
        final(st).present@ == old(st).present@,
        final(st).package_id@ == old(st).package_id@,
        final(st).core_id@ == old(st).core_id@,
{
    if (cpu as usize) < MAX_CPUS {
        st.active.test_and_clear(cpu as usize);
        st.online.test_and_clear(cpu as usize);
    } else {
        proof {
            st.online.lemma_in_capacity();
            st.active.lemma_in_capacity();
        }
        assert(st.online@ =~= old(st).online@.remove(cpu as int));
        assert(st.active@ =~= old(st).active@.remove(cpu as int));
    }
}

/// The CPU takes work.
pub fn mark_active(st: &mut CpuState, cpu: u32)
    requires
        old(st).wf(),
    ensures
        final(st).wf(),
        final(st).active@ == with_cpu(old(st).active@, cpu),
        final(st).possible@ == old(st).possible@,
        final(st).present@ == old(st).present@,
        final(st).online@ == old(st).online@,
        final(st).package_id@ == old(st).package_id@,
        final(st).core_id@ == old(st).core_id@,
{
    if (cpu as usize) < MAX_CPUS {
        st.active.test_and_set(cpu as usize);
    }
}

/// The CPU takes no new work, though it may stay online.
pub fn mark_inactive(st: &mut CpuState, cpu: u32)
    requires
        old(st).wf(),
    ensures
        final(st).wf(),
        final(st).active@ == old(st).active@.remove(cpu as int),
        final(st).possible@ == old(st).possible@,
        final(st).present@ == old(st).present@,
        final(st).online@ == old(st).online@,
        final(st).package_id@ == old(st).package_id@,
        final(st).core_id@ == old(st).core_id@,
{
    if (cpu as usize) < MAX_CPUS {
        st.active.test_and_clear(cpu as usize);
    } else {
        proof {
            st.active.lemma_in_capacity();
        }
        assert(st.active@ =~= old(st).active@.remove(cpu as int));
    }
}

/// The CPU may exist.
pub fn is_possible(st: &CpuState, cpu: u32) -> (r: bool)
    requires
        st.wf(),
    ensures
        r == st.possible@.contains(cpu as int),
{
    proof {
        st.possible.lemma_in_capacity();
    }
    (cpu as usize) < MAX_CPUS && st.possible.test(cpu as usize)
}

/// The CPU exists.
pub fn is_present(st: &CpuState, cpu: u32) -> (r: bool)
    requires
        st.wf(),
    ensures
        r == st.present@.contains(cpu as int),
{
    proof {
        st.present.lemma_in_capacity();
    }
    (cpu as usize) < MAX_CPUS && st.present.test(cpu as usize)
}

/// The CPU is online.
pub fn is_online(st: &CpuState, cpu: u32) -> (r: bool)
    requires
        st.wf(),
    ensures
        r == st.online@.contains(cpu as int),
{
    proof {
        st.online.lemma_in_capacity();
    }
    (cpu as usize) < MAX_CPUS && st.online.test(cpu as usize)
}

/// The CPU is active.
pub fn is_active(st: &CpuState, cpu: u32) -> (r: bool)
    requires
        st.wf(),
    ensures
        r == st.active@.contains(cpu as int),
{
    proof {
        st.active.lemma_in_capacity();
    }
    (cpu as usize) < MAX_CPUS && st.active.test(cpu as usize)
}

/// Number of possible CPUs.
pub fn num_possible_cpus(st: &CpuState) -> (r: u32)
    requires
        st.wf(),
    ensures
        r == st.possible@.len(),
{
    st.possible.weight()
}

/// Number of present CPUs.
pub fn num_present_cpus(st: &CpuState) -> (r: u32)
    requires
        st.wf(),
    ensures
        r == st.present@.len(),
{
    st.present.weight()
}

/// Number of online CPUs.
pub fn num_online_cpus(st: &CpuState) -> (r: u32)
    requires
        st.wf(),
    ensures
        r == st.online@.len(),
{
    st.online.weight()
}

/// Number of active CPUs.
pub fn num_active_cpus(st: &CpuState) -> (r: u32)
    requires
        st.wf(),
    ensures
        r == st.active@.len(),
{
    st.active.weight()
}

/// The bitmap's CPUs as a mask.
fn snapshot(bm: &AtomicBitmap<16>) -> (r: CpuMask)
    requires
        bm.wf(),
    ensures
        r.wf(),
        r@ == bm@,
{
    let mut out = CpuMask::empty();
    let mut cpu: u32 = 0;
    proof {
        bm.lemma_in_capacity();
    }
    while cpu < 1024
        invariant
            cpu <= MAX_CPUS,
            bm.wf(),
            out.wf(),
            out@ == bm@.filter(|c: int| c < cpu),
        decreases MAX_CPUS - cpu,
    {
        if bm.test(cpu as usize) {
            out.set(cpu);
        }
        assert(out@ =~= bm@.filter(|c: int| c < cpu + 1));
        cpu = cpu + 1;
    }
    assert(out@ =~= bm@);
    out
}

/// The possible CPUs.
pub fn possible_mask(st: &CpuState) -> (r: CpuMask)
    requires
        st.wf(),
    ensures
        r.wf(),
        r@ == st.possible@,
{
    snapshot(&st.possible)
}

/// The present CPUs.
pub fn present_mask(st: &CpuState) -> (r: CpuMask)
    requires
        st.wf(),
    ensures
        r.wf(),
        r@ == st.present@,
{
    snapshot(&st.present)
}

/// The online CPUs.
pub fn online_mask(st: &CpuState) -> (r: CpuMask)
    requires
        st.wf(),
    ensures
        r.wf(),
        r@ == st.online@,
{
    snapshot(&st.online)
}

/// The active CPUs.
pub fn active_mask(st: &CpuState) -> (r: CpuMask)
    requires
        st.wf(),
    ensures
        r.wf(),
        r@ == st.active@,
{
    snapshot(&st.active)
}

/// The CPUs of a mask in increasing order.
fn mask_cpus(m: &CpuMask) -> (r: Vec<u32>)
    requires
        m.wf(),
    ensures
        forall|c: int| m@.contains(c) <==> exists|i: int| 0 <= i < r.len() && r@[i] == c,
        forall|i: int, j: int| 0 <= i < j < r.len() ==> r@[i] < r@[j],
{
    let mut out: Vec<u32> = Vec::new();
    proof {
        m.lemma_bounds();
    }
    let mut c: u32 = 0;
    while c < 1024
        invariant
            c <= MAX_CPUS,
            m.wf(),
            forall|i: int| #[trigger] m@.contains(i) ==> 0 <= i < MAX_CPUS,
            forall|x: int| (m@.contains(x) && x < c) <==> exists|i: int| 0 <= i < out.len() && out@[i] == x,
            forall|i: int, j: int| 0 <= i < j < out.len() ==> out@[i] < out@[j],
            forall|i: int| 0 <= i < out.len() ==> out@[i] < c,
        decreases MAX_CPUS - c,
    {
        if m.test(c) {
            let ghost out_old = out@;
            out.push(c);
            proof {
                assert forall|x: int|
                    (m@.contains(x) && x < c + 1) <==> exists|i: int| 0 <= i < out.len() && out@[i] == x by {
                    if m@.contains(x) && x < c + 1 {
                        if x < c {
                            let i = choose|i: int| 0 <= i < out_old.len() && out_old[i] == x;
                            assert(out@[i] == x);
                        } else {
                            assert(out@[out.len() - 1] == x);
                        }
                    }
                    if exists|i: int| 0 <= i < out.len() && out@[i] == x {
                        let i = choose|i: int| 0 <= i < out.len() && out@[i] == x;
                        if i < out_old.len() {
                            assert(out_old[i] == x);
                        }
                    }
                }
            }
        }
        c = c + 1;
    }
    out
}

/// The online CPUs in increasing order.
pub fn for_each_online_cpu(st: &CpuState) -> (r: Vec<u32>)
    requires
        st.wf(),
    ensures
        forall|c: int| st.online@.contains(c) <==> exists|i: int| 0 <= i < r.len() && r@[i] == c,
        forall|i: int, j: int| 0 <= i < j < r.len() ==> r@[i] < r@[j],
{
    mask_cpus(&online_mask(st))
}

/// The active CPUs in increasing order.
pub fn for_each_active_cpu(st: &CpuState) -> (r: Vec<u32>)
    requires
        st.wf(),
    ensures
        forall|c: int| st.active@.contains(c) <==> exists|i: int| 0 <= i < r.len() && r@[i] == c,
        forall|i: int, j: int| 0 <= i < j < r.len() ==> r@[i] < r@[j],
{
    mask_cpus(&active_mask(st))
}

/// The lowest online CPU.
pub fn first_online_cpu(st: &CpuState) -> (r: Option<u32>)
    requires
        st.wf(),
    ensures
        match r {
            Some(c) => st.online@.contains(c as int) && forall|j: int| 0 <= j < c ==> !st.online@.contains(j),
            None => st.online@ == Set::<int>::empty(),
        },
{
    online_mask(st).first()
}

/// Record the package and core of `cpu` (ignored when out of range).
pub fn set_topology(st: &mut CpuState, cpu: u32, package_id: u32, core_id: u32)
    requires
        old(st).wf(),
    ensures
        final(st).wf(),
        final(st).package_id@ == if cpu < MAX_CPUS {
            old(st).package_id@.update(cpu as int, package_id)
        } else {
            old(st).package_id@
        },
        final(st).core_id@ == if cpu < MAX_CPUS {
            old(st).core_id@.update(cpu as int, core_id)
        } else {
            old(st).core_id@
        },
        final(st).possible@ == old(st).possible@,
        final(st).present@ == old(st).present@,
        final(st).online@ == old(st).online@,
        final(st).active@ == old(st).active@,
{
    if (cpu as usize) < MAX_CPUS {
        st.package_id.set(cpu as usize, package_id);
        st.core_id.set(cpu as usize, core_id);
    }
}

/// Recorded package of a CPU: none out of range or when unknown.
pub open spec fn package_spec(st: &CpuState, cpu: int) -> Option<u32> {
    if 0 <= cpu < MAX_CPUS && st.package_id@[cpu] != NO_TOPOLOGY {
        Some(st.package_id@[cpu])
    } else {
        None
    }
}

/// Recorded core of a CPU: none out of range or when unknown.
pub open spec fn core_spec(st: &CpuState, cpu: int) -> Option<u32> {
    if 0 <= cpu < MAX_CPUS && st.core_id@[cpu] != NO_TOPOLOGY {
        Some(st.core_id@[cpu])
    } else {
        None
    }
}

/// The package of `cpu`, if known.
pub fn package_of(st: &CpuState, cpu: u32) -> (r: Option<u32>)
    requires
        st.wf(),
    ensures
        r == package_spec(st, cpu as int),
{
    if (cpu as usize) >= MAX_CPUS {
        return None;
    }
    let id = st.package_id[cpu as usize];
    if id == NO_TOPOLOGY {
        None
    } else {
        Some(id)
    }
}

/// The core of `cpu`, if known.
pub fn core_of(st: &CpuState, cpu: u32) -> (r: Option<u32>)
    requires
        st.wf(),
    ensures
        r == core_spec(st, cpu as int),
{
    if (cpu as usize) >= MAX_CPUS {
        return None;
    }
    let id = st.core_id[cpu as usize];
    if id == NO_TOPOLOGY {
        None
    } else {
        Some(id)
    }
}

/// Online CPUs on the same package and core as `cpu`; none when its topology is
/// unknown.
pub open spec fn sibling_set(st: &CpuState, cpu: int) -> Set<int> {
    if package_spec(st, cpu).is_none() || core_spec(st, cpu).is_none() {
        Set::<int>::empty()
    } else {
        Set::new(
            |c: int|
                st.online@.contains(c) && package_spec(st, c) == package_spec(st, cpu) && core_spec(st, c)
                    == core_spec(st, cpu),
        )
    }
}

/// Online CPUs on the same package as `cpu`; none when its package is unknown.
pub open spec fn package_set(st: &CpuState, cpu: int) -> Set<int> {
    if package_spec(st, cpu).is_none() {
        Set::<int>::empty()
    } else {
        Set::new(|c: int| st.online@.contains(c) && package_spec(st, c) == package_spec(st, cpu))
    }
}

/// The online hardware threads of `cpu`'s core, `cpu` included when online.
pub fn sibling_mask(st: &CpuState, cpu: u32) -> (r: CpuMask)
    requires
        st.wf(),
    ensures
        r.wf(),
        r@ == sibling_set(st, cpu as int),
{
    let mut out = CpuMask::empty();
    let pkg = match package_of(st, cpu) {
        Some(p) => p,
        None => {
            assert(out@ =~= sibling_set(st, cpu as int));
            return out;
        },
    };
    let core = match core_of(st, cpu) {
        Some(c) => c,
        None => {
            assert(out@ =~= sibling_set(st, cpu as int));
            return out;
        },
    };
    proof {
        st.online.lemma_in_capacity();
    }
    let mut c: u32 = 0;
    while c < 1024
        invariant
            c <= MAX_CPUS,
            st.wf(),
            out.wf(),
            package_spec(st, cpu as int) == Some(pkg),
            core_spec(st, cpu as int) == Some(core),
            forall|i: int| #[trigger] st.online@.contains(i) ==> 0 <= i < MAX_CPUS,
            out@ == sibling_set(st, cpu as int).filter(|x: int| x < c),
        decreases MAX_CPUS - c,
    {
        if is_online(st, c) && package_of(st, c) == Some(pkg) && core_of(st, c) == Some(core) {
            out.set(c);
        }
        assert(out@ =~= sibling_set(st, cpu as int).filter(|x: int| x < c + 1));
        c = c + 1;
    }
    assert(out@ =~= sibling_set(st, cpu as int));
    out
}

/// The online CPUs of `cpu`'s package.
pub fn package_mask(st: &CpuState, cpu: u32) -> (r: CpuMask)
    requires
        st.wf(),
    ensures
        r.wf(),
        r@ == package_set(st, cpu as int),
{
    let mut out = CpuMask::empty();
    let pkg = match package_of(st, cpu) {
        Some(p) => p,
        None => {
            assert(out@ =~= package_set(st, cpu as int));
            return out;
        },
    };
    proof {
        st.online.lemma_in_capacity();
    }
    let mut c: u32 = 0;
    while c < 1024
        invariant
            c <= MAX_CPUS,
            st.wf(),
            out.wf(),
            package_spec(st, cpu as int) == Some(pkg),
            forall|i: int| #[trigger] st.online@.contains(i) ==> 0 <= i < MAX_CPUS,
            out@ == package_set(st, cpu as int).filter(|x: int| x < c),
        decreases MAX_CPUS - c,
    {
        if is_online(st, c) && package_of(st, c) == Some(pkg) {
            out.set(c);
        }
        assert(out@ =~= package_set(st, cpu as int).filter(|x: int| x < c + 1));
        c = c + 1;
    }
    assert(out@ =~= package_set(st, cpu as int));
    out
}

/// Two different CPUs with a known package, on the same package and core.
pub fn are_siblings(st: &CpuState, a: u32, b: u32) -> (r: bool)
    requires
        st.wf(),
    ensures
        r == (a != b && package_spec(st, a as int).is_some() && package_spec(st, a as int) == package_spec(
            st,
            b as int,
        ) && core_spec(st, a as int) == core_spec(st, b as int)),
{
    a != b && package_of(st, a).is_some() && package_of(st, a) == package_of(st, b) && core_of(st, a) == core_of(
        st,
        b,
    )
}

/// A mask of the listed CPUs (those out of range are left out).
pub fn mask_from_iter(cpus: &[u32]) -> (r: CpuMask)
    ensures
        r.wf(),
        r@ == Set::new(|c: int| 0 <= c < MAX_CPUS && exists|i: int| 0 <= i < cpus@.len() && cpus@[i] == c),
{
    let mut m = CpuMask::empty();
    let mut k: usize = 0;
    while k < cpus.len()
        invariant
            k <= cpus@.len(),
            m.wf(),
            m@ == Set::new(|c: int| 0 <= c < MAX_CPUS && exists|i: int| 0 <= i < k && cpus@[i] == c),
        decreases cpus@.len() - k,
    {
        m.set(cpus[k]);
        proof {
            assert(m@ =~= Set::new(|c: int| 0 <= c < MAX_CPUS && exists|i: int| 0 <= i < k + 1 && cpus@[i] == c)) by {
                assert forall|c: int|
                    (0 <= c < MAX_CPUS && exists|i: int| 0 <= i < k + 1 && cpus@[i] == c) implies m@.contains(c) by {
                    let i = choose|i: int| 0 <= i < k + 1 && cpus@[i] == c;
                    if i < k {
                        assert(exists|i: int| 0 <= i < k && cpus@[i] == c);
                    }
                }
            }
        }
        k = k + 1;
    }
    m
}

/// The CPUs of `mask` that are online.
pub fn restrict_to_online(st: &CpuState, mask: &CpuMask) -> (r: CpuMask)
    requires
        st.wf(),
        mask.wf(),
    ensures
        r.wf(),
        r@ == mask@.intersect(st.online@),
{
    mask.bitand(&online_mask(st))
}

/// The CPUs of `mask` that are active.
pub fn restrict_to_active(st: &CpuState, mask: &CpuMask) -> (r: CpuMask)
    requires
        st.wf(),
        mask.wf(),
    ensures
        r.wf(),
        r@ == mask@.intersect(st.active@),
{
    mask.bitand(&active_mask(st))
}

} // verus!
