//! Verified core of the TrangorgeOS kernel: capability system and scheduler data structures.
pub mod bits;
pub mod caps;
pub mod scheduler;
pub mod sched;
pub mod cpu;
