//! Local APIC register protocol: where a register lives (memory-mapped in xAPIC
//! mode, a model-specific register in x2APIC mode) and which writes enable the
//! controller, acknowledge interrupts and send inter-processor interrupts. The
//! caller performs the accesses.
use vstd::prelude::*;

verus! {

/// Model-specific register holding the APIC base and mode.
pub const APIC_BASE_MSR: u32 = 0x1B;

/// Identifier register.
pub const REG_ID: u32 = 0x020;

/// Version register.
pub const REG_VERSION: u32 = 0x030;

/// Spurious-interrupt vector register.
pub const REG_SVR: u32 = 0x0F0;

/// End-of-interrupt register.
pub const REG_EOI: u32 = 0x0B0;

/// Interrupt command register, low half.
pub const REG_ICR0: u32 = 0x300;

/// Interrupt command register, high half.
pub const REG_ICR1: u32 = 0x310;

/// Local vector of the LINT0 pin.
pub const REG_LVT_LINT0: u32 = 0x350;

/// Software-enable bit of the spurious-vector register.
pub const SPURIOUS_ENABLE: u32 = 0x100;

/// Lowest address of the kernel's direct map; a base at or above it needs no mapping.
pub const KERNEL_SPACE_BASE: u64 = 0xFFFF_8000_0000_0000;

/// Mode and location of the local APIC.
#[derive(Debug, Clone, Copy, PartialEq, Eq, Structural)]
pub struct LapicState {
    pub base: usize,
    pub x2apic: bool,
}

/// A register access: a model-specific register number, or an offset from the
/// memory-mapped base.
#[derive(Debug, Clone, Copy, PartialEq, Eq, Structural)]
pub enum RegAccess {
    Msr(u32),
    Mmio(u32),
}

/// A write of `value` through `access`.
#[derive(Debug, Clone, Copy, PartialEq, Eq, Structural)]
pub struct RegWrite {
    pub access: RegAccess,
    pub value: u64,
}

/// What initialisation found: x2APIC mode, a usable memory-mapped base, or a base
/// that must first be mapped.
#[derive(Debug, Clone, Copy, PartialEq, Eq, Structural)]
pub enum LapicInit {
    X2apic,
    Mapped(u64),
    NeedsMapping(u64),
}

/// The x2APIC register that stands for xAPIC offset `reg`.
pub open spec fn x2apic_msr_spec(reg: u32) -> u32 {
    (0x800 + reg / 16) as u32
}

/// The x2APIC register that stands for xAPIC offset `reg`.
pub fn x2apic_msr(reg: u32) -> (r: u32)
    ensures
        r == x2apic_msr_spec(reg),
{
    proof {
        assert(reg >> 4u32 == reg / 16) by (bit_vector);
    }
    0x800 + (reg >> 4)
}

/// How register `reg` is reached in a mode.
pub open spec fn access_spec(x2apic: bool, reg: u32) -> RegAccess {
    if x2apic {
        RegAccess::Msr(x2apic_msr_spec(reg))
    } else {
        RegAccess::Mmio(reg)
    }
}

/// Choose the mode from the APIC base register (bit 10 selects x2APIC) and the
/// physical base of the controller.
pub fn init(apic_base_msr: u64, base_phys: u64) -> (r: LapicInit)
    ensures
        r == if apic_base_msr & 0x400 != 0 {
            LapicInit::X2apic
        } else if base_phys >= KERNEL_SPACE_BASE {
            LapicInit::Mapped(base_phys)
        } else {
            LapicInit::NeedsMapping(base_phys)
        },
{
    if apic_base_msr & 0x400 != 0 {
        return LapicInit::X2apic;
    }
    if base_phys >= KERNEL_SPACE_BASE {
        LapicInit::Mapped(base_phys)
    } else {
        LapicInit::NeedsMapping(base_phys)
    }
}

impl LapicState {
    /// The controller is in x2APIC mode.
    pub fn is_x2apic(&self) -> (r: bool)
        ensures
            r == self.x2apic,
    {
        self.x2apic
    }

    /// How register `reg` is reached.
    pub fn access(&self, reg: u32) -> (r: RegAccess)
        ensures
            r == access_spec(self.x2apic, reg),
    {
        if self.x2apic {
            RegAccess::Msr(x2apic_msr(reg))
        } else {
            RegAccess::Mmio(reg)
        }
    }

    /// A write of `val` to register `reg`.
    pub fn write(&self, reg: u32, val: u32) -> (r: RegWrite)
        ensures
            r == (RegWrite { access: access_spec(self.x2apic, reg), value: val as u64 }),
    {
        RegWrite { access: self.access(reg), value: val as u64 }
    }

    /// The local APIC identifier from the identifier register's value: the whole
    /// value in x2APIC mode, its top byte otherwise.
    pub fn id(&self, raw: u32) -> (r: u32)
        ensures
            r == if self.x2apic {
                raw
            } else {
                raw >> 24
            },
    {
        if self.x2apic {
            raw
        } else {
            raw >> 24
        }
    }
}

/// The register to read for the version.
pub fn version(st: &LapicState) -> (r: RegAccess)
    ensures
        r == access_spec(st.x2apic, REG_VERSION),
{
    st.access(REG_VERSION)
}

/// Writes that enable the controller (spurious vector 0xFF) and set LINT0 to
/// external-interrupt delivery, unmasked.
pub fn enable(st: &LapicState) -> (r: Vec<RegWrite>)
    ensures
        r@ == seq![
            RegWrite { access: access_spec(st.x2apic, REG_SVR), value: 0x1FF },
            RegWrite { access: access_spec(st.x2apic, REG_LVT_LINT0), value: 0x700 },
        ],
{
    let mut v: Vec<RegWrite> = Vec::new();
    assert(0x100u32 | 0xFFu32 == 0x1FFu32) by (bit_vector);
    v.push(st.write(REG_SVR, SPURIOUS_ENABLE | 0xFF));
    v.push(st.write(REG_LVT_LINT0, 0x700));
    assert(v@ =~= seq![
        RegWrite { access: access_spec(st.x2apic, REG_SVR), value: 0x1FF },
        RegWrite { access: access_spec(st.x2apic, REG_LVT_LINT0), value: 0x700 },
    ]);
    v
}

/// The write that signals end of interrupt.
pub fn eoi(st: &LapicState) -> (r: RegWrite)
    ensures
        r == (RegWrite { access: access_spec(st.x2apic, REG_EOI), value: 0 }),
{
    st.write(REG_EOI, 0)
}

/// Writes that send an interrupt with command `icr` to `dest_apic_id`: one 64-bit
/// write in x2APIC mode, the destination then the command otherwise.
pub open spec fn ipi_writes(x2apic: bool, icr: u32, dest_apic_id: u32) -> Seq<RegWrite> {
    if x2apic {
        seq![RegWrite { access: RegAccess::Msr(x2apic_msr_spec(REG_ICR0)), value: ((dest_apic_id as u64) << 32u64) | (icr as u64) }]
    } else {
        seq![
            RegWrite { access: RegAccess::Mmio(REG_ICR1), value: (dest_apic_id << 24u32) as u64 },
            RegWrite { access: RegAccess::Mmio(REG_ICR0), value: icr as u64 },
        ]
    }
}

/// Writes that send an interrupt with command `icr` to `dest_apic_id`.
pub fn send_ipi(st: &LapicState, icr: u32, dest_apic_id: u32) -> (r: Vec<RegWrite>)
    ensures
        r@ == ipi_writes(st.x2apic, icr, dest_apic_id),
{
    let mut v: Vec<RegWrite> = Vec::new();
    if st.x2apic {
        let val = ((dest_apic_id as u64) << 32) | icr as u64;
        v.push(RegWrite { access: RegAccess::Msr(x2apic_msr(REG_ICR0)), value: val });
    } else {
        v.push(st.write(REG_ICR1, dest_apic_id << 24));
        v.push(st.write(REG_ICR0, icr));
    }
    assert(v@ =~= ipi_writes(st.x2apic, icr, dest_apic_id));
    v
}

/// Command of an INIT interrupt to all other processors, asserted.
pub const INIT_ASSERT_ICR: u32 = 0xCC500;

/// Command of an INIT interrupt to all other processors, deasserted.
pub const INIT_DEASSERT_ICR: u32 = 0xC0500;

/// Writes that send INIT to every other processor, asserted then deasserted.
pub fn send_init_ipi(st: &LapicState) -> (r: Vec<RegWrite>)
    ensures
        r@ == ipi_writes(st.x2apic, INIT_ASSERT_ICR, 0) + ipi_writes(st.x2apic, INIT_DEASSERT_ICR, 0),
{
    assert((5u32 << 8u32) | (1u32 << 14u32) | (1u32 << 15u32) | (3u32 << 18u32) == 0xCC500u32) by (bit_vector);
    assert((5u32 << 8u32) | (3u32 << 18u32) == 0xC0500u32) by (bit_vector);
    let mut a = send_ipi(st, (5 << 8) | (1 << 14) | (1 << 15) | (3 << 18), 0);
    let mut b = send_ipi(st, (5 << 8) | (3 << 18), 0);
    let ghost first = a@;
    let ghost second = b@;
    a.append(&mut b);
    assert(a@ =~= first + second);
    a
}

/// Writes that send a start-up interrupt for the code page `vector` to `apic_id`.
pub fn send_startup_ipi(st: &LapicState, apic_id: u32, vector: u8) -> (r: Vec<RegWrite>)
    ensures
        r@ == ipi_writes(st.x2apic, (0x600 + vector) as u32, apic_id),
{
    proof {
        assert((6u32 << 8u32) | (vector as u32) == 0x600 + vector as u32) by (bit_vector)
            requires
                vector < 256,
        ;
    }
    send_ipi(st, (6 << 8) | (vector as u32), apic_id)
}

} // verus!
