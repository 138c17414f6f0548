//! RISC-V support: hart identity and the supervisor binary interface's system-reset
//! call, whose arguments are chosen here and issued by the caller.
use vstd::prelude::*;

verus! {

/// Extension number of system reset ("SRST").
pub const SBI_EID_SRST: usize = 0x5352_5354;

/// Function number of a system reset.
pub const SBI_FID_SYSTEM_RESET: usize = 0;

/// Reset type: shut down.
pub const SRST_TYPE_SHUTDOWN: u32 = 0;

/// Reset type: cold reboot.
pub const SRST_TYPE_COLD_REBOOT: u32 = 1;

/// Nothing to prepare on RISC-V.
pub fn init() {
}

/// The hart running the kernel; only hart 0 runs it.
pub fn current_hart() -> (r: u64)
    ensures
        r == 0,
{
    0
}

/// Registers of a system-reset call: a0 (reset type), a1 (reason), a2, a6
/// (function), a7 (extension).
#[derive(Debug, Clone, Copy, PartialEq, Eq, Structural)]
pub struct SbiCall {
    pub a0: usize,
    pub a1: usize,
    pub a2: usize,
    pub a6: usize,
    pub a7: usize,
}

/// The call that resets the system with `reset_type`, for no particular reason.
pub fn system_reset(reset_type: u32) -> (r: SbiCall)
    ensures
        r == (SbiCall { a0: reset_type as usize, a1: 0, a2: 0, a6: SBI_FID_SYSTEM_RESET, a7: SBI_EID_SRST }),
{
    SbiCall { a0: reset_type as usize, a1: 0, a2: 0, a6: SBI_FID_SYSTEM_RESET, a7: SBI_EID_SRST }
}

/// The call that powers the system off.
pub fn poweroff_call() -> (r: SbiCall)
    ensures
        r.a0 == SRST_TYPE_SHUTDOWN && r.a7 == SBI_EID_SRST && r.a6 == SBI_FID_SYSTEM_RESET,
{
    system_reset(SRST_TYPE_SHUTDOWN)
}

/// The call that reboots the system.
pub fn reboot_call() -> (r: SbiCall)
    ensures
        r.a0 == SRST_TYPE_COLD_REBOOT && r.a7 == SBI_EID_SRST && r.a6 == SBI_FID_SYSTEM_RESET,
{
    system_reset(SRST_TYPE_COLD_REBOOT)
}

/// Prepare the RISC-V platform.
pub fn init_riscv() {
    init();
}

/// CPUs the RISC-V kernel runs on: one.
pub fn total_cpus() -> (r: u32)
    ensures
        r == 1,
{
    1
}

} // verus!
