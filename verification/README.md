# trangorge

Verified core of the TrangorgeOS kernel, written in Verus. Every function in
`src/` carries a `requires`/`ensures` contract that Verus proves; state that the
kernel keeps in global variables is passed explicitly, and hardware access is
left to the caller, which performs what the library decides.

## Layout

- `src/caps/` — the capability system: capability sets, the capability
  hierarchy and its laws, the world store, checks, grants (including temporary
  ones), revocation, the audit ring, presets and the start-up self-test.
- `src/scheduler/` — word bitmaps and CPU masks, the CPU registry, task
  descriptors and their life cycle, per-CPU run queues (a fair queue kept in
  virtual-time order, real-time priority lists) and statistics,
  scheduling decisions (virtual time, preemption, deadline budgets, placement,
  balancing), periodic and idle load balancing across run queues, context-switch
  decisions, the energy model, CPU topology and scheduling-domain construction,
  load balancing arithmetic and CPU stoppers.
- `src/sched/` — the control plane: CPU life cycle and topology, policies and
  scheduling keys, burst prediction, a lane-based run queue, configuration
  validation, accounting and architecture hooks (APIC identifiers, TLB
  shootdowns, TSC arithmetic, interrupt-gate encoding).
- `src/cpu/` — ACPI table parsing (RSDP search, root tables, MADT), the local
  APIC register protocol and RISC-V reset calls.
- `tests/` — tests of the library.
- `app/` — kernel glue: global instances behind spin locks, the C interface of
  the capability system, the policy hook, physical-memory reads for ACPI and
  local-APIC register access, and the write of a new thread's first stack frame.
