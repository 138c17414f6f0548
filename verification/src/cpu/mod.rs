//! Processor bring-up support: ACPI tables, the local APIC and RISC-V harts.
pub mod acpi;
pub mod lapic;
pub mod riscv;
