//! Decisions of a context switch: which tasks may be switched to, when the
//! floating-point state is saved and restored (eagerly or lazily), and the switch
//! counters. The register work itself is done by the caller. Tasks are named by
//! their addresses, 0 standing for none.
use vstd::prelude::*;
use super::task::{TaskStruct, TaskState, state_of_code};

verus! {

/// Size of the extended save area.
pub const XSAVE_AREA_SIZE: usize = 832;

/// Size of the legacy save area.
pub const FXSAVE_AREA_SIZE: usize = 512;

/// XCR0 bit for SSE state.
pub const XCR0_SSE: u64 = 0x2;

/// XCR0 bit for AVX state.
pub const XCR0_AVX: u64 = 0x4;

/// XCR0 bits for MPX state.
pub const XCR0_MPX: u64 = 0x18;

/// XCR0 bits for AVX-512 state.
pub const XCR0_AVX512: u64 = 0xe0;

/// Process-context identifier bits of CR3.
pub const CR3_PCID_MASK: u64 = 0xFFF;

/// CR3 bit that keeps the TLB entries of the loaded context.
pub const CR3_NO_FLUSH: u64 = 0x8000_0000_0000_0000;

/// FS base register.
pub const MSR_FS_BASE: u32 = 0xC0000100;

/// GS base register.
pub const MSR_GS_BASE: u32 = 0xC0000101;

/// Swapped GS base register.
pub const MSR_KERNEL_GS_BASE: u32 = 0xC0000102;

/// System-call segment register.
pub const MSR_STAR: u32 = 0xC0000081;

/// Long-mode system-call target.
pub const MSR_LSTAR: u32 = 0xC0000082;

/// Compatibility-mode system-call target.
pub const MSR_CSTAR: u32 = 0xC0000083;

/// System-call flag mask.
pub const MSR_SFMASK: u32 = 0xC0000084;

/// Extended feature enable register.
pub const MSR_EFER: u32 = 0xC0000080;

/// Auxiliary time-stamp value.
pub const MSR_TSC_AUX: u32 = 0xC0000103;

/// Number of debug registers.
pub const DEBUG_REGISTERS_COUNT: usize = 8;

/// Components saved by an extended save: everything with AVX-512, x87, SSE and AVX
/// with AVX, else x87 and SSE.
pub fn xsave_mask(avx512: bool, avx: bool) -> (r: u64)
    ensures
        r == if avx512 {
            0xFFFF_FFFF_FFFF_FFFFu64
        } else if avx {
            7u64
        } else {
            3u64
        },
{
    if avx512 {
        0xFFFF_FFFF_FFFF_FFFFu64
    } else if avx {
        0x7
    } else {
        0x3
    }
}

/// The CR3 value to load when switching to an address space with root `next_cr3`
/// while `current_cr3` is loaded: none when it is the same or absent, and with the
/// no-flush bit when the new value carries a context identifier.
pub fn cr3_to_load(current_cr3: u64, next_cr3: u64) -> (r: Option<u64>)
    ensures
        r == if next_cr3 == 0 || current_cr3 == next_cr3 {
            None::<u64>
        } else if next_cr3 & CR3_PCID_MASK != 0 {
            Some(next_cr3 | CR3_NO_FLUSH)
        } else {
            Some(next_cr3)
        },
{
    if next_cr3 == 0 || current_cr3 == next_cr3 {
        return None;
    }
    let pcid = next_cr3 & CR3_PCID_MASK;
    if pcid != 0 {
        Some(next_cr3 | CR3_NO_FLUSH)
    } else {
        Some(next_cr3)
    }
}

/// Counters and floating-point ownership of the switching CPU.
pub struct SwitchState {
    pub switch_count: u64,
    pub fpu_context_switches: u64,
    pub lazy_fpu_enabled: bool,
    pub last_fpu_task: usize,
}

/// What to do with the floating-point state at a switch.
#[derive(Debug, Clone, Copy, PartialEq, Eq, Structural)]
pub struct FpuAction {
    pub save_prev: bool,
    pub restore_next: bool,
}

/// Whether a task can be switched to: it exists, has a stack, and has not exited.
pub open spec fn switchable(task: Option<&TaskStruct>) -> bool {
    match task {
        None => false,
        Some(t) => t.stack_base != 0 && t.stack_size != 0 && !(state_of_code(t.state) == TaskState::Zombie
            || state_of_code(t.state) == TaskState::Dead),
    }
}

/// Whether `task` can be switched to.
pub fn validate_task_for_switch(task: Option<&TaskStruct>) -> (r: bool)
    ensures
        r == switchable(task),
{
    match task {
        None => false,
        Some(t) => {
            if t.stack_base == 0 {
                return false;
            }
            if t.stack_size == 0 {
                return false;
            }
            !t.state().is_terminal()
        },
    }
}

impl SwitchState {
    /// No switch yet, lazy saving on, no task owns the floating-point unit.
    pub fn new() -> (r: Self)
        ensures
            r == (SwitchState { switch_count: 0, fpu_context_switches: 0, lazy_fpu_enabled: true, last_fpu_task: 0 }),
    {
        SwitchState { switch_count: 0, fpu_context_switches: 0, lazy_fpu_enabled: true, last_fpu_task: 0 }
    }

    /// Decide the floating-point work of a switch from `prev` to `next`. Lazily, the
    /// state stays in the unit while its owner runs again, and the outgoing task's
    /// state is saved only when it owns the unit; eagerly, the outgoing state is always
    /// saved. Each save is counted.
    pub fn plan_fpu_switch(&mut self, prev: usize, next: usize) -> (r: FpuAction)
        ensures
            final(self).switch_count == old(self).switch_count,
            final(self).lazy_fpu_enabled == old(self).lazy_fpu_enabled,
            r == if prev == next {
                (FpuAction { save_prev: false, restore_next: false })
            } else if old(self).lazy_fpu_enabled {
                if old(self).last_fpu_task == next {
                    (FpuAction { save_prev: false, restore_next: false })
                } else {
                    (FpuAction { save_prev: prev != 0 && old(self).last_fpu_task == prev, restore_next: true })
                }
            } else {
                (FpuAction { save_prev: prev != 0, restore_next: true })
            },
            final(self).last_fpu_task == if prev != next && old(self).lazy_fpu_enabled && old(self).last_fpu_task
                != next {
                next
            } else {
                old(self).last_fpu_task
            },
            final(self).fpu_context_switches == if r.save_prev {
                vstd::wrapping::u64_specs::wrapping_add(old(self).fpu_context_switches, 1)
            } else {
                old(self).fpu_context_switches
            },
    {
        let action = if prev == next {
            FpuAction { save_prev: false, restore_next: false }
        } else if self.lazy_fpu_enabled {
            if self.last_fpu_task == next {
                FpuAction { save_prev: false, restore_next: false }
            } else {
                let save = prev != 0 && self.last_fpu_task == prev;
                self.last_fpu_task = next;
                FpuAction { save_prev: save, restore_next: true }
            }
        } else {
            FpuAction { save_prev: prev != 0, restore_next: true }
        };
        if action.save_prev {
            self.fpu_context_switches = self.fpu_context_switches.wrapping_add(1);
        }
        action
    }

    /// Count a finished switch.
    pub fn finish_switch(&mut self)
        ensures
            *final(self) == (SwitchState {
                switch_count: vstd::wrapping::u64_specs::wrapping_add(old(self).switch_count, 1),
                ..*old(self)
            }),
    {
        self.switch_count = self.switch_count.wrapping_add(1);
    }
}

/// Switches done.
pub fn get_switch_count(st: &SwitchState) -> (r: u64)
    ensures
        r == st.switch_count,
{
    st.switch_count
}

/// Floating-point states saved.
pub fn get_fpu_switch_count(st: &SwitchState) -> (r: u64)
    ensures
        r == st.fpu_context_switches,
{
    st.fpu_context_switches
}

/// Save floating-point state lazily.
pub fn enable_lazy_fpu(st: &mut SwitchState)
    ensures
        *final(st) == (SwitchState { lazy_fpu_enabled: true, ..*old(st) }),
{
    st.lazy_fpu_enabled = true;
}

/// Save floating-point state at every switch.
pub fn disable_lazy_fpu(st: &mut SwitchState)
    ensures
        *final(st) == (SwitchState { lazy_fpu_enabled: false, ..*old(st) }),
{
    st.lazy_fpu_enabled = false;
}

/// Floating-point state is saved lazily.
pub fn is_lazy_fpu_enabled(st: &SwitchState) -> (r: bool)
    ensures
        r == st.lazy_fpu_enabled,
{
    st.lazy_fpu_enabled
}


/// What enabling floating-point switching decides from the processor's features:
/// the new CR4 (with the OS-save bit), whether extended saves are used and their
/// size, which extensions are on, and the XCR0 values to write, in order.
#[derive(Debug, Clone)]
pub struct FpuSetup {
    pub cr4: u64,
    pub xsave_enabled: bool,
    pub xsave_size: usize,
    pub avx_enabled: bool,
    pub avx512_enabled: bool,
    pub mpx_enabled: bool,
    pub xcr0_writes: Vec<u64>,
}

/// Bit `b` of a 32-bit word.
pub open spec fn bit32_set(w: u32, b: u32) -> bool {
    (w >> b) & 1 == 1
}

proof fn lemma_bit32(w: u32, b: u32)
    by (bit_vector)
    requires
        b < 32,
    ensures
        (w & (1u32 << b) != 0) == ((w >> b) & 1 == 1),
{
}

/// Prepare floating-point switching from the CPUID leaf 0xD sub-leaf 0 (`eax` is the
/// save-area size, bit 0 of `ecx` offers extended saves), the current `xcr0`, and
/// CPUID leaf 7 (AVX in bit 5 of `ecx7`, AVX-512 in bit 16 and MPX in bit 14 of
/// `edx7`). Each enabled extension adds one XCR0 write of `xcr0` with its bits. The
/// unit starts with no owner and lazy saving on.
pub fn init_fpu_context_switching(st: &mut SwitchState, cr4: u64, eax_d: u32, ecx_d: u32, xcr0: u64, ecx7: u32, edx7: u32) -> (r: FpuSetup)
    ensures
        r.cr4 == cr4 | 0x200,
        r.xsave_enabled == bit32_set(ecx_d, 0),
        r.xsave_size == if bit32_set(ecx_d, 0) { eax_d as usize } else { FXSAVE_AREA_SIZE },
        r.avx_enabled == (bit32_set(ecx_d, 0) && bit32_set(ecx7, 5)),
        r.avx512_enabled == (bit32_set(ecx_d, 0) && bit32_set(edx7, 16)),
        r.mpx_enabled == (bit32_set(ecx_d, 0) && bit32_set(edx7, 14)),
        r.xcr0_writes@ == (if r.avx_enabled { seq![xcr0 | XCR0_AVX] } else { Seq::<u64>::empty() }) + (if r.avx512_enabled {
            seq![xcr0 | XCR0_AVX512]
        } else {
            Seq::<u64>::empty()
        }) + (if r.mpx_enabled { seq![xcr0 | XCR0_MPX] } else { Seq::<u64>::empty() }),
        *final(st) == (SwitchState { last_fpu_task: 0, lazy_fpu_enabled: true, ..*old(st) }),
{
    proof {
        lemma_bit32(ecx_d, 0);
        lemma_bit32(ecx7, 5);
        lemma_bit32(edx7, 16);
        lemma_bit32(edx7, 14);
        assert(1u32 << 0u32 == 1u32) by (bit_vector);
        assert(1u32 << 5u32 == 0x20u32) by (bit_vector);
        assert(1u32 << 16u32 == 0x1_0000u32) by (bit_vector);
        assert(1u32 << 14u32 == 0x4000u32) by (bit_vector);
    }
    let mut setup = FpuSetup {
        cr4: cr4 | 0x200,
        xsave_enabled: false,
        xsave_size: FXSAVE_AREA_SIZE,
        avx_enabled: false,
        avx512_enabled: false,
        mpx_enabled: false,
        xcr0_writes: Vec::new(),
    };
    if ecx_d & 0x1 != 0 {
        setup.xsave_enabled = true;
        setup.xsave_size = eax_d as usize;
        if ecx7 & 0x20 != 0 {
            setup.avx_enabled = true;
            setup.xcr0_writes.push(xcr0 | XCR0_AVX);
        }
        if edx7 & 0x1_0000 != 0 {
            setup.avx512_enabled = true;
            setup.xcr0_writes.push(xcr0 | XCR0_AVX512);
        }
        if edx7 & 0x4000 != 0 {
            setup.mpx_enabled = true;
            setup.xcr0_writes.push(xcr0 | XCR0_MPX);
        }
    }
    assert(setup.xcr0_writes@ =~= (if setup.avx_enabled { seq![xcr0 | XCR0_AVX] } else { Seq::<u64>::empty() }) + (if setup.avx512_enabled {
        seq![xcr0 | XCR0_AVX512]
    } else {
        Seq::<u64>::empty()
    }) + (if setup.mpx_enabled { seq![xcr0 | XCR0_MPX] } else { Seq::<u64>::empty() }));
    st.last_fpu_task = 0;
    st.lazy_fpu_enabled = true;
    setup
}

} // verus!
