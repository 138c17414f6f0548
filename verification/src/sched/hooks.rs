//! Architecture hooks of the scheduler: the per-CPU run-queue and APIC-id tables,
//! pending TLB shootdowns, time-stamp-counter arithmetic, timer programming and
//! interrupt-gate encoding. Register and port access stays with the caller, which
//! hands in what it read and performs what these functions decide.
use vstd::prelude::*;
use crate::scheduler::cpumask::MAX_CPUS;
use crate::scheduler::task::CPU_NONE;

verus! {

/// Physical base of the local APIC.
pub const LOCAL_APIC_BASE: usize = 0xFEE0_0000;

/// APIC identifier register.
pub const APIC_REG_ID: usize = 0x020;

/// End-of-interrupt register.
pub const APIC_REG_EOI: usize = 0x0B0;

/// Spurious-vector register.
pub const APIC_REG_SVR: usize = 0x0F0;

/// Interrupt command register, low half.
pub const APIC_REG_ICR_LOW: usize = 0x300;

/// Interrupt command register, high half.
pub const APIC_REG_ICR_HIGH: usize = 0x310;

/// Timer local vector.
pub const APIC_REG_LVT_TIMER: usize = 0x320;

/// Timer initial count.
pub const APIC_REG_TIMER_ICR: usize = 0x380;

/// Timer current count.
pub const APIC_REG_TIMER_CCR: usize = 0x390;

/// Timer divider.
pub const APIC_REG_TIMER_DIV: usize = 0x3E0;

/// Vector of the reschedule interrupt.
pub const RESCHED_VECTOR: u8 = 0xFD;

/// Vector of the TLB shootdown interrupt.
pub const TLB_SHOOTDOWN_VECTOR: u8 = 0xFC;

/// Vector of the timer interrupt.
pub const TIMER_VECTOR: u8 = 0xEF;

/// Vector of spurious interrupts.
pub const SPURIOUS_VECTOR: u8 = 0xFF;

/// Vector of the watchdog interrupt.
pub const NMI_WATCHDOG_VECTOR: u8 = 0x02;

/// Timer ticks per second.
pub const TICK_HZ: u64 = 1000;

/// Length of a tick.
pub const TICK_NS: u64 = 1_000_000;

/// Longest a FIFO task may run before the watchdog asks for a reschedule.
pub const RT_WATCHDOG_LIMIT_NS: u64 = 4_000_000_000;

/// Page of the application-processor start-up code.
pub const AP_TRAMPOLINE_PAGE: u32 = 0x8000;

/// Input clock of the interval timer.
pub const PIT_FREQUENCY_HZ: u32 = 1_193_182;

/// Entries of the interrupt descriptor table.
pub const IDT_SIZE: usize = 256;

/// Type byte of a present interrupt gate.
pub const GATE_INTERRUPT: u8 = 0x8E;

/// Type byte of a present trap gate.
pub const GATE_TRAP: u8 = 0x8F;

/// APIC identifier of a CPU that has not reported one.
pub const NO_APIC_ID: u32 = 0xffff_ffff;

/// Per-CPU tables and clock calibration of the architecture layer.
pub struct ArchState {
    pub rq_registry: Vec<usize>,
    pub apic_id_table: Vec<u32>,
    pub tlb_pending: Vec<bool>,
    pub tsc_hz: u64,
    pub booted_cpus: u32,
}

impl ArchState {
    /// One entry per CPU in each table.
    pub open spec fn wf(&self) -> bool {
        &&& self.rq_registry@.len() == MAX_CPUS
        &&& self.apic_id_table@.len() == MAX_CPUS
        &&& self.tlb_pending@.len() == MAX_CPUS
    }

    /// No run queue or APIC identifier registered, nothing pending, no calibration.
    pub fn new() -> (r: Self)
        ensures
            r.wf(),
            forall|c: int|
                0 <= c < MAX_CPUS ==> r.rq_registry@[c] == 0 && r.apic_id_table@[c] == NO_APIC_ID
                    && !r.tlb_pending@[c],
            r.tsc_hz == 0,
            r.booted_cpus == 0,
    {
        let mut rq_registry: Vec<usize> = Vec::new();
        let mut apic_id_table: Vec<u32> = Vec::new();
        let mut tlb_pending: Vec<bool> = Vec::new();
        let mut i: usize = 0;
        while i < MAX_CPUS
            invariant
                i <= MAX_CPUS,
                rq_registry.len() == i,
                apic_id_table.len() == i,
                tlb_pending.len() == i,
                forall|c: int|
                    0 <= c < i ==> rq_registry@[c] == 0 && apic_id_table@[c] == NO_APIC_ID && !tlb_pending@[c],
            decreases MAX_CPUS - i,
        {
            rq_registry.push(0);
            apic_id_table.push(NO_APIC_ID);
            tlb_pending.push(false);
            i = i + 1;
        }
        ArchState { rq_registry, apic_id_table, tlb_pending, tsc_hz: 0, booted_cpus: 0 }
    }
}

/// Record the run queue (an address, 0 for none) of `cpu`; ignored out of range.
pub fn register_runqueue(st: &mut ArchState, cpu: u32, rq: usize)
    requires
        old(st).wf(),
    ensures
        final(st).wf(),
        final(st).rq_registry@ == if cpu < MAX_CPUS {
            old(st).rq_registry@.update(cpu as int, rq)
        } else {
            old(st).rq_registry@
        },
        final(st).apic_id_table@ == old(st).apic_id_table@,
        final(st).tlb_pending@ == old(st).tlb_pending@,
        final(st).tsc_hz == old(st).tsc_hz,
        final(st).booted_cpus == old(st).booted_cpus,
{
    if (cpu as usize) < MAX_CPUS {
        st.rq_registry.set(cpu as usize, rq);
    }
}

/// Record the APIC identifier of `cpu`; ignored out of range.
pub fn register_apic_id(st: &mut ArchState, cpu: u32, apic_id: u32)
    requires
        old(st).wf(),
    ensures
        final(st).wf(),
        final(st).apic_id_table@ == if cpu < MAX_CPUS {
            old(st).apic_id_table@.update(cpu as int, apic_id)
        } else {
            old(st).apic_id_table@
        },
        final(st).rq_registry@ == old(st).rq_registry@,
        final(st).tlb_pending@ == old(st).tlb_pending@,
        final(st).tsc_hz == old(st).tsc_hz,
        final(st).booted_cpus == old(st).booted_cpus,
{
    if (cpu as usize) < MAX_CPUS {
        st.apic_id_table.set(cpu as usize, apic_id);
    }
}

/// A copy of the run-queue table.
pub fn snapshot_registry(st: &ArchState) -> (r: Vec<usize>)
    requires
        st.wf(),
    ensures
        r@ == st.rq_registry@,
{
    st.rq_registry.clone()
}

/// The APIC identifier of a CPU, when known.
pub open spec fn apic_id_of(st: &ArchState, cpu: int) -> Option<u32> {
    if 0 <= cpu < MAX_CPUS && st.apic_id_table@[cpu] != NO_APIC_ID {
        Some(st.apic_id_table@[cpu])
    } else {
        None
    }
}

/// The APIC identifier of `cpu`, when it is in range and registered.
pub fn cpu_to_apic_id(st: &ArchState, cpu: u32) -> (r: Option<u32>)
    requires
        st.wf(),
    ensures
        r == apic_id_of(st, cpu as int),
{
    if (cpu as usize) >= MAX_CPUS {
        return None;
    }
    let id = st.apic_id_table[cpu as usize];
    if id == NO_APIC_ID {
        None
    } else {
        Some(id)
    }
}

/// The CPU whose APIC identifier is in the top byte of `apic_id_reg` (the value of
/// the identifier register): the lowest such CPU, or `CPU_NONE`.
pub fn current_cpu_id(st: &ArchState, apic_id_reg: u32) -> (r: u32)
    requires
        st.wf(),
    ensures
        r == CPU_NONE || (r < MAX_CPUS && apic_id_of(st, r as int) == Some(apic_id_reg >> 24)),
        r == CPU_NONE ==> forall|c: int| 0 <= c < MAX_CPUS ==> apic_id_of(st, c) != Some(apic_id_reg >> 24),
        r != CPU_NONE ==> forall|c: int| 0 <= c < r ==> apic_id_of(st, c) != Some(apic_id_reg >> 24),
{
    let apic_id = apic_id_reg >> 24;
    let mut cpu: u32 = 0;
    while cpu < 1024
        invariant
            st.wf(),
            cpu <= MAX_CPUS,
            apic_id == apic_id_reg >> 24,
            forall|c: int| 0 <= c < cpu ==> apic_id_of(st, c) != Some(apic_id),
        decreases MAX_CPUS - cpu,
    {
        if cpu_to_apic_id(st, cpu) == Some(apic_id) {
            return cpu;
        }
        cpu = cpu + 1;
    }
    CPU_NONE
}

/// Record the time-stamp-counter frequency.
pub fn set_tsc_frequency(st: &mut ArchState, hz: u64)
    ensures
        final(st).tsc_hz == hz,
        final(st).rq_registry == old(st).rq_registry,
        final(st).apic_id_table == old(st).apic_id_table,
        final(st).tlb_pending == old(st).tlb_pending,
        final(st).booted_cpus == old(st).booted_cpus,
{
    st.tsc_hz = hz;
}

/// The recorded time-stamp-counter frequency (0 before calibration).
pub fn tsc_frequency(st: &ArchState) -> (r: u64)
    ensures
        r == st.tsc_hz,
{
    st.tsc_hz
}

/// CPUs that have finished bring-up.
pub fn booted_cpu_count(st: &ArchState) -> (r: u32)
    ensures
        r == st.booted_cpus,
{
    st.booted_cpus
}

/// Count one more CPU as brought up (wrapping).
pub fn count_booted_cpu(st: &mut ArchState)
    ensures
        final(st).booted_cpus == vstd::wrapping::u32_specs::wrapping_add(old(st).booted_cpus, 1),
        final(st).rq_registry == old(st).rq_registry,
        final(st).apic_id_table == old(st).apic_id_table,
        final(st).tlb_pending == old(st).tlb_pending,
        final(st).tsc_hz == old(st).tsc_hz,
{
    st.booted_cpus = st.booted_cpus.wrapping_add(1);
}

/// Nanoseconds in `tsc_delta` cycles at `hz`, kept to 64 bits; 0 before calibration.
pub open spec fn tsc_to_ns(tsc_delta: u64, hz: u64) -> u64 {
    if hz == 0 {
        0
    } else {
        (tsc_delta * 1_000_000_000int / hz as int) as u64
    }
}

/// Nanoseconds in `tsc_delta` cycles at `hz`.
pub fn ns_from_tsc(tsc_delta: u64, hz: u64) -> (r: u64)
    ensures
        r == tsc_to_ns(tsc_delta, hz),
{
    if hz == 0 {
        0
    } else {
        proof {
            vstd::arithmetic::mul::lemma_mul_upper_bound(tsc_delta as int, u64::MAX as int, 1_000_000_000, 1_000_000_000);
        }
        #[verifier::truncate]
        (((tsc_delta as u128) * 1_000_000_000u128 / hz as u128) as u64)
    }
}

/// Timer count for one tick at `hz`: a fallback of one million before calibration,
/// and never 0.
pub open spec fn timer_count(hz: u64) -> u32 {
    if hz == 0 {
        1_000_000
    } else if ((hz / 1000) as u32) == 0 {
        1
    } else {
        (hz / 1000) as u32
    }
}

/// Timer count for one tick at `hz`.
pub fn timer_count_for_hz(hz: u64) -> (r: u32)
    ensures
        r == timer_count(hz),
        r != 0,
{
    if hz == 0 {
        1_000_000
    } else {
        at_least_one(#[verifier::truncate] ((hz / TICK_HZ) as u32))
    }
}

/// `v`, or 1 when it is 0.
fn at_least_one(v: u32) -> (r: u32)
    ensures
        r == if v == 0 {
            1
        } else {
            v
        },
{
    if v == 0 {
        1
    } else {
        v
    }
}

/// Timer count for one tick at the recorded frequency.
pub fn default_timer_count(st: &ArchState) -> (r: u32)
    ensures
        r == timer_count(st.tsc_hz),
{
    timer_count_for_hz(tsc_frequency(st))
}

/// Mark a TLB shootdown pending for `cpu` and give the APIC identifier to interrupt;
/// nothing happens out of range.
pub fn send_tlb_shootdown(st: &mut ArchState, cpu: u32) -> (r: Option<u32>)
    requires
        old(st).wf(),
    ensures
        final(st).wf(),
        final(st).tlb_pending@ == if cpu < MAX_CPUS {
            old(st).tlb_pending@.update(cpu as int, true)
        } else {
            old(st).tlb_pending@
        },
        r == apic_id_of(old(st), cpu as int),
        final(st).rq_registry == old(st).rq_registry,
        final(st).apic_id_table == old(st).apic_id_table,
        final(st).tsc_hz == old(st).tsc_hz,
        final(st).booted_cpus == old(st).booted_cpus,
{
    if (cpu as usize) >= MAX_CPUS {
        return None;
    }
    st.tlb_pending.set(cpu as usize, true);
    cpu_to_apic_id(st, cpu)
}

/// Take the pending TLB shootdown of `cpu`: whether one was pending (and so the TLB
/// must be flushed); it is cleared.
pub fn tlb_shootdown_handler(st: &mut ArchState, cpu: u32) -> (r: bool)
    requires
        old(st).wf(),
    ensures
        final(st).wf(),
        r == (cpu < MAX_CPUS && old(st).tlb_pending@[cpu as int]),
        final(st).tlb_pending@ == if cpu < MAX_CPUS {
            old(st).tlb_pending@.update(cpu as int, false)
        } else {
            old(st).tlb_pending@
        },
        final(st).rq_registry == old(st).rq_registry,
        final(st).apic_id_table == old(st).apic_id_table,
        final(st).tsc_hz == old(st).tsc_hz,
        final(st).booted_cpus == old(st).booted_cpus,
{
    if (cpu as usize) >= MAX_CPUS {
        return false;
    }
    let pending = st.tlb_pending[cpu as usize];
    st.tlb_pending.set(cpu as usize, false);
    pending
}

/// A TLB shootdown is pending for `cpu`.
pub fn tlb_pending(st: &ArchState, cpu: u32) -> (r: bool)
    requires
        st.wf(),
    ensures
        r == (cpu < MAX_CPUS && st.tlb_pending@[cpu as int]),
{
    (cpu as usize) < MAX_CPUS && st.tlb_pending[cpu as usize]
}

/// Mark a shootdown pending on every CPU with an APIC identifier except
/// `except_cpu`, and list their identifiers in CPU order.
pub fn broadcast_tlb_shootdown(st: &mut ArchState, except_cpu: u32) -> (r: Vec<u32>)
    requires
        old(st).wf(),
    ensures
        final(st).wf(),
        forall|c: int|
            0 <= c < MAX_CPUS ==> final(st).tlb_pending@[c] == (old(st).tlb_pending@[c] || (c != except_cpu
                && apic_id_of(old(st), c).is_some())),
        final(st).apic_id_table == old(st).apic_id_table,
        final(st).rq_registry == old(st).rq_registry,
        final(st).tsc_hz == old(st).tsc_hz,
        final(st).booted_cpus == old(st).booted_cpus,
        r@ == Seq::new(MAX_CPUS as nat, |c: int| c).filter(
            |c: int| c != except_cpu && apic_id_of(old(st), c).is_some(),
        ).map_values(|c: int| apic_id_of(old(st), c).unwrap()),
{
    let ghost pick = |c: int| c != except_cpu && apic_id_of(old(st), c).is_some();
    let ghost ids = |c: int| apic_id_of(old(st), c).unwrap();
    let mut out: Vec<u32> = Vec::new();
    let mut cpu: u32 = 0;
    while cpu < 1024
        invariant
            cpu <= MAX_CPUS,
            st.wf(),
            old(st).wf(),
            st.apic_id_table == old(st).apic_id_table,
            st.rq_registry == old(st).rq_registry,
            st.tsc_hz == old(st).tsc_hz,
            st.booted_cpus == old(st).booted_cpus,
            pick == (|c: int| c != except_cpu && apic_id_of(old(st), c).is_some()),
            ids == (|c: int| apic_id_of(old(st), c).unwrap()),
            forall|c: int|
                0 <= c < MAX_CPUS ==> st.tlb_pending@[c] == (old(st).tlb_pending@[c] || (c < cpu && c != except_cpu
                    && apic_id_of(old(st), c).is_some())),
            out@ == Seq::new(cpu as nat, |c: int| c).filter(pick).map_values(ids),
        decreases MAX_CPUS - cpu,
    {
        let ghost prefix = Seq::new(cpu as nat, |c: int| c);
        assert(Seq::new((cpu + 1) as nat, |c: int| c) =~= prefix.push(cpu as int));
        proof {
            lemma_filter_push(prefix, pick, cpu as int);
        }
        if cpu != except_cpu && cpu_to_apic_id(st, cpu).is_some() {
            let id = send_tlb_shootdown(st, cpu);
            match id {
                Some(a) => {
                    out.push(a);
                },
                None => {},
            }
            assert(out@ =~= Seq::new((cpu + 1) as nat, |c: int| c).filter(pick).map_values(ids));
        } else {
            assert(out@ =~= Seq::new((cpu + 1) as nat, |c: int| c).filter(pick).map_values(ids));
        }
        cpu = cpu + 1;
    }
    assert(Seq::new(MAX_CPUS as nat, |c: int| c).filter(pick).map_values(ids) =~= Seq::new(
        MAX_CPUS as nat,
        |c: int| c,
    ).filter(|c: int| c != except_cpu && apic_id_of(old(st), c).is_some()).map_values(
        |c: int| apic_id_of(old(st), c).unwrap(),
    ));
    out
}

/// Filtering a sequence extended by one element.
proof fn lemma_filter_push(s: Seq<int>, p: spec_fn(int) -> bool, x: int)
    ensures
        s.push(x).filter(p) == if p(x) {
            s.filter(p).push(x)
        } else {
            s.filter(p)
        },
{
    reveal(Seq::filter);
    assert(s.push(x).drop_last() =~= s);
}

/// A 64-bit interrupt-gate descriptor.
#[derive(Clone, Copy)]
pub struct IdtEntry {
    pub offset_low: u16,
    pub selector: u16,
    pub ist: u8,
    pub type_attr: u8,
    pub offset_mid: u16,
    pub offset_high: u32,
    pub zero: u32,
}

impl IdtEntry {
    /// An absent gate: every field zero.
    pub fn missing() -> (r: Self)
        ensures
            r.offset_low == 0 && r.selector == 0 && r.ist == 0 && r.type_attr == 0,
            r.offset_mid == 0 && r.offset_high == 0 && r.zero == 0,
    {
        IdtEntry { offset_low: 0, selector: 0, ist: 0, type_attr: 0, offset_mid: 0, offset_high: 0, zero: 0 }
    }

    /// Aim the descriptor at `handler` through code segment `selector`, on interrupt
    /// stack `ist` (its low three bits), with type byte `type_attr`.
    pub fn set(&mut self, handler: usize, selector: u16, ist: u8, type_attr: u8)
        ensures
            final(self).offset_low == handler % 0x1_0000,
            final(self).offset_mid == (handler / 0x1_0000) % 0x1_0000,
            final(self).offset_high == (handler as int / 0x1_0000_0000) % 0x1_0000_0000,
            final(self).selector == selector,
            final(self).ist == ist % 8,
            final(self).type_attr == type_attr,
            final(self).zero == 0,
    {
        proof {
            lemma_gate_fields(handler as u64, ist);
        }
        self.offset_low = (handler & 0xFFFF) as u16;
        self.offset_mid = ((handler >> 16) & 0xFFFF) as u16;
        self.offset_high = ((handler as u64 >> 32) & 0xFFFF_FFFF) as u32;
        self.selector = selector;
        self.ist = ist & 0x7;
        self.type_attr = type_attr;
        self.zero = 0;
    }

    /// The descriptor's present bit is set.
    pub fn is_present(&self) -> (r: bool)
        ensures
            r == (self.type_attr & 0x80 != 0),
    {
        self.type_attr & 0x80 != 0
    }
}

proof fn lemma_gate_fields(h: u64, ist: u8)
    ensures
        h & 0xFFFF == h % 0x1_0000,
        (h >> 16) & 0xFFFF == (h / 0x1_0000) % 0x1_0000,
        (h >> 32) & 0xFFFF_FFFF == (h / 0x1_0000_0000) % 0x1_0000_0000,
        ist & 7 == ist % 8,
{
    assert(h & 0xFFFF == h % 0x1_0000) by (bit_vector);
    assert((h >> 16) & 0xFFFF == (h / 0x1_0000) % 0x1_0000) by (bit_vector);
    assert((h >> 32) & 0xFFFF_FFFF == (h / 0x1_0000_0000) % 0x1_0000_0000) by (bit_vector);
    assert(ist & 7 == ist % 8) by (bit_vector);
}

} // verus!
