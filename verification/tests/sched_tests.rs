use trangorge::sched::control::{EventCounters, PlacementScore, SchedulerConfig, SchedulerEvent};
use trangorge::sched::cpus::{
    are_siblings, core_of, first_online_cpu, for_each_online_cpu, is_active, is_online, is_possible, is_present,
    mark_inactive, mark_offline, mark_online, mark_possible, mark_present, mask_from_iter, num_online_cpus,
    online_mask, package_mask, package_of, possible_mask, restrict_to_active, restrict_to_online, set_topology,
    sibling_mask, active_mask, CpuState,
};
use trangorge::sched::hooks::{
    booted_cpu_count, cpu_to_apic_id, ns_from_tsc, register_apic_id, register_runqueue, send_tlb_shootdown,
    set_tsc_frequency, snapshot_registry, timer_count_for_hz, tlb_pending, tlb_shootdown_handler, tsc_frequency,
    ArchState, IdtEntry, GATE_INTERRUPT, TICK_HZ,
};
use trangorge::sched::class::SchedClass as _;
use trangorge::sched::policy::{Class, Policy, Priority, SchedulingKey};
use trangorge::sched::predictor::{BurstClass, BurstPredictor};
use trangorge::sched::types::{CpuMask, Deadline, TaskBudget, TaskConfig, TaskId};
use trangorge::sched::control::{validate_task_config, ConfigError, LoadWindow, MigrationPolicy, SchedulerMode, TaskPolicyUpdate};
use trangorge::scheduler::cpumask::MAX_CPUS;

#[test]
fn registry_defaults_to_null_for_untouched_cpu() {
    let st = ArchState::new();
    let snap = snapshot_registry(&st);
    assert!(snap[MAX_CPUS - 1] == 0);
}

#[test]
fn apic_id_table_defaults_to_none_then_roundtrips() {
    let mut st = ArchState::new();
    assert_eq!(cpu_to_apic_id(&st, 2), None);
    register_apic_id(&mut st, 2, 9);
    assert_eq!(cpu_to_apic_id(&st, 2), Some(9));
}

#[test]
fn register_runqueue_ignores_out_of_range_cpu() {
    let mut st = ArchState::new();
    register_runqueue(&mut st, MAX_CPUS as u32 + 10, 0);
}

#[test]
fn ns_from_tsc_is_zero_without_calibration() {
    assert_eq!(ns_from_tsc(1_000_000, 0), 0);
}

#[test]
fn ns_from_tsc_scales_correctly() {
    assert_eq!(ns_from_tsc(1_000_000, 1_000_000_000), 1_000_000);
    assert_eq!(ns_from_tsc(1_000_000, 2_000_000_000), 500_000);
}

#[test]
fn timer_count_for_hz_has_sane_fallback() {
    assert_eq!(timer_count_for_hz(0), 1_000_000);
    assert_eq!(timer_count_for_hz(1_000_000_000), 1_000_000);
}

#[test]
fn timer_count_for_hz_never_returns_zero() {
    assert_eq!(timer_count_for_hz(TICK_HZ / 2), 1);
}

#[test]
fn tlb_pending_flag_sets_and_clears() {
    let mut st = ArchState::new();
    let idx = (MAX_CPUS - 2) as u32;
    assert_eq!(send_tlb_shootdown(&mut st, idx), None);
    assert!(tlb_shootdown_handler(&mut st, idx));
    assert!(!tlb_pending(&st, idx));
}

#[test]
fn idt_entry_encodes_and_reports_present() {
    let mut e = IdtEntry::missing();
    assert!(!e.is_present());
    e.set(0xDEAD_BEEF_1234, 0x08, 1, GATE_INTERRUPT);
    assert!(e.is_present());
}

#[test]
fn idt_entry_missing_is_not_present() {
    assert!(!IdtEntry::missing().is_present());
}

#[test]
fn set_and_read_tsc_frequency_is_stable_within_this_test() {
    let mut st = ArchState::new();
    set_tsc_frequency(&mut st, 3_000_000_000);
    assert_eq!(tsc_frequency(&st), 3_000_000_000);
}

#[test]
fn booted_cpu_count_starts_at_or_above_zero() {
    let st = ArchState::new();
    assert!(booted_cpu_count(&st) < u32::MAX);
}

#[test]
fn idt_entry_splits_the_handler_address() {
    let mut e = IdtEntry::missing();
    e.set(0xDEAD_BEEF_1234, 0x08, 9, GATE_INTERRUPT);
    assert_eq!({ e.offset_low }, 0x1234);
    assert_eq!({ e.offset_mid }, 0xBEEF);
    assert_eq!({ e.offset_high }, 0xDEAD);
    assert_eq!({ e.ist }, 1);
    assert_eq!({ e.selector }, 0x08);
}

#[test]
fn current_cpu_is_found_by_apic_id_and_shootdowns_target_registered_cpus() {
    let mut st = ArchState::new();
    register_apic_id(&mut st, 4, 7);
    register_apic_id(&mut st, 6, 8);
    assert_eq!(trangorge::sched::hooks::current_cpu_id(&st, 7 << 24), 4);
    assert_eq!(trangorge::sched::hooks::current_cpu_id(&st, 9 << 24), u32::MAX);
    let ids = trangorge::sched::hooks::broadcast_tlb_shootdown(&mut st, 4);
    assert_eq!(ids, vec![8]);
    assert!(tlb_pending(&st, 6));
    assert!(!tlb_pending(&st, 4));
    set_tsc_frequency(&mut st, 2_500_000);
    assert_eq!(trangorge::sched::hooks::default_timer_count(&st), 2_500);
}

#[test]
fn possible_present_online_active_lifecycle() {
    let mut st = CpuState::new();
    let cpu = 10;
    assert!(!is_possible(&st, cpu));
    mark_possible(&mut st, cpu);
    mark_present(&mut st, cpu);
    assert!(is_possible(&st, cpu));
    assert!(is_present(&st, cpu));
    assert!(!is_online(&st, cpu));

    mark_online(&mut st, cpu);
    assert!(is_online(&st, cpu));
    assert!(is_active(&st, cpu));

    mark_inactive(&mut st, cpu);
    assert!(is_online(&st, cpu));
    assert!(!is_active(&st, cpu));

    mark_offline(&mut st, cpu);
    assert!(!is_online(&st, cpu));
    assert!(!is_active(&st, cpu));
}

#[test]
fn masks_reflect_live_state_for_dedicated_cpu() {
    let mut st = CpuState::new();
    let cpu = 11;
    mark_possible(&mut st, cpu);
    mark_online(&mut st, cpu);
    assert!(possible_mask(&st).test(cpu));
    assert!(online_mask(&st).test(cpu));
    assert!(active_mask(&st).test(cpu));
    mark_offline(&mut st, cpu);
    assert!(!online_mask(&st).test(cpu));
}

#[test]
fn num_counters_track_weight_for_a_fresh_pair_of_cpus() {
    let mut st = CpuState::new();
    let a = 20;
    let b = 21;
    let before = num_online_cpus(&st);
    mark_possible(&mut st, a);
    mark_possible(&mut st, b);
    mark_online(&mut st, a);
    mark_online(&mut st, b);
    assert_eq!(num_online_cpus(&st), before + 2);
    mark_offline(&mut st, a);
    mark_offline(&mut st, b);
    assert_eq!(num_online_cpus(&st), before);
}

#[test]
fn for_each_online_cpu_matches_online_mask() {
    let mut st = CpuState::new();
    let cpu = 30;
    mark_online(&mut st, cpu);
    assert!(for_each_online_cpu(&st).iter().any(|&c| c == cpu));
    mark_offline(&mut st, cpu);
    assert!(!for_each_online_cpu(&st).iter().any(|&c| c == cpu));
}

#[test]
fn first_online_cpu_reports_a_currently_online_one() {
    let mut st = CpuState::new();
    let cpu = 40;
    mark_online(&mut st, cpu);
    let first = first_online_cpu(&st);
    assert!(first.is_some());
    assert!(is_online(&st, first.unwrap()));
    mark_offline(&mut st, cpu);
}

#[test]
fn topology_reports_none_before_being_set() {
    let st = CpuState::new();
    assert_eq!(package_of(&st, 200), None);
    assert_eq!(core_of(&st, 200), None);
}

#[test]
fn sibling_mask_groups_same_core_same_package() {
    let mut st = CpuState::new();
    set_topology(&mut st, 50, 0, 0);
    set_topology(&mut st, 51, 0, 0);
    set_topology(&mut st, 52, 0, 1);
    mark_online(&mut st, 50);
    mark_online(&mut st, 51);
    mark_online(&mut st, 52);

    let siblings = sibling_mask(&st, 50);
    assert!(siblings.test(50));
    assert!(siblings.test(51));
    assert!(!siblings.test(52));
    assert!(are_siblings(&st, 50, 51));
    assert!(!are_siblings(&st, 50, 52));

    mark_offline(&mut st, 50);
    mark_offline(&mut st, 51);
    mark_offline(&mut st, 52);
}

#[test]
fn package_mask_covers_whole_socket() {
    let mut st = CpuState::new();
    set_topology(&mut st, 60, 1, 0);
    set_topology(&mut st, 61, 1, 1);
    set_topology(&mut st, 62, 2, 0);
    mark_online(&mut st, 60);
    mark_online(&mut st, 61);
    mark_online(&mut st, 62);

    let pkg = package_mask(&st, 60);
    assert!(pkg.test(60));
    assert!(pkg.test(61));
    assert!(!pkg.test(62));

    mark_offline(&mut st, 60);
    mark_offline(&mut st, 61);
    mark_offline(&mut st, 62);
}

#[test]
fn sibling_mask_is_empty_without_topology_info() {
    let st = CpuState::new();
    assert!(sibling_mask(&st, 70).is_empty());
    assert!(package_mask(&st, 70).is_empty());
}

#[test]
fn mask_from_iter_builds_expected_set() {
    let m = mask_from_iter(&[1u32, 5, 9]);
    assert_eq!(m.weight(), 3);
    assert!(m.test(1) && m.test(5) && m.test(9));
    assert!(!m.test(2));
}

#[test]
fn restrict_to_online_intersects_with_live_online_mask() {
    let mut st = CpuState::new();
    let cpu = 80;
    mark_online(&mut st, cpu);
    let requested = mask_from_iter(&[cpu, 81, 82]);
    let effective = restrict_to_online(&st, &requested);
    assert!(effective.test(cpu));
    assert!(!effective.test(81));
    assert!(!effective.test(82));
    mark_offline(&mut st, cpu);
}

#[test]
fn restrict_to_active_excludes_inactive_but_online_cpu() {
    let mut st = CpuState::new();
    let cpu = 90;
    mark_online(&mut st, cpu);
    mark_inactive(&mut st, cpu);
    let requested = mask_from_iter(&[cpu]);
    assert!(restrict_to_active(&st, &requested).is_empty());
    assert!(restrict_to_online(&st, &requested).test(cpu));
    mark_offline(&mut st, cpu);
}

#[test]
fn default_configuration_is_valid() {
    let config = SchedulerConfig::default();
    assert!(config.validate().is_ok());
}

#[test]
fn online_cpu_mask_is_contiguous() {
    let config = SchedulerConfig::default().with_cpu_count(4);
    assert!(config.cpu_is_online(0));
    assert!(config.cpu_is_online(3));
    assert!(!config.cpu_is_online(4));
}

#[test]
fn event_counters_track_faults() {
    let mut counters = EventCounters::default();
    counters.observe(SchedulerEvent::DeadlineMissed { id: TaskId(7), deadline_ns: 10, now_ns: 11 });
    assert_eq!(counters.deadline_misses, 1);
}

#[test]
fn placement_prefers_low_cost() {
    let a = PlacementScore { cpu: 0, load: 10, cache_affinity: 0, migration_cost: 0, allowed: true };
    let b = PlacementScore { cpu: 1, load: 20, cache_affinity: 0, migration_cost: 0, allowed: true };
    assert!(a.better_than(&b));
}

#[test]
fn edf_precedes_later_deadline() {
    let a = SchedulingKey::for_task(Priority::new(1), Policy::Edf, Some(5), 0, 0);
    let b = SchedulingKey::for_task(Priority::new(31), Policy::Edf, Some(9), 0, 1);
    assert!(a.better_than(b));
}

#[test]
fn aging_is_bounded() {
    assert_eq!(Priority::new(1).aged(u64::MAX, Class::Normal).value(), 18);
}

#[test]
fn learns_short_bursts() {
    let mut p = BurstPredictor::new();
    for _ in 0..10 {
        p.observe_run(100_000);
    }
    assert_eq!(p.predict().class, BurstClass::Tiny);
}

#[test]
fn fifo_lane_is_drained() {
    let mut q = trangorge::sched::queue::RunQueue::new(0);
    q.push(TaskId(1), Priority::new(3), Policy::Fair, None, 0);
    q.push(TaskId(2), Priority::new(3), Policy::Fair, None, 0);
    assert!(q.pop(0).is_some());
    assert_eq!(q.len(), 1);
}

#[test]
fn queue_pops_by_key_and_steals_from_the_highest_lane() {
    let mut q = trangorge::sched::queue::RunQueue::new(1);
    q.push(TaskId(1), Priority::new(3), Policy::Fair, None, 0);
    q.push(TaskId(2), Priority::new(9), Policy::Fair, None, 0);
    q.push(TaskId(3), Priority::new(1), Policy::Fifo, None, 0);
    assert_eq!(q.pop(0), Some(TaskId(3)));
    assert_eq!(q.steal_one(0), Some(TaskId(2)));
    assert_eq!(q.len(), 1);
    assert_eq!(q.pop(0), Some(TaskId(1)));
    assert!(q.is_empty());
    assert_eq!(q.pop(0), None);
    assert_eq!(q.steal_one(0), None);
    let s = q.snapshot();
    assert_eq!(s.pushes, 3);
    assert_eq!(s.pops, 2);
    assert_eq!(s.steals, 1);
    assert_eq!(q.load_score(), 1);
}

#[test]
fn configuration_errors_are_reported_in_order() {
    let base = SchedulerConfig::default();
    assert_eq!(SchedulerConfig { quantum_ns: 0, ..base }.validate(), Err(ConfigError::ZeroQuantum));
    assert_eq!(SchedulerConfig { min_quantum_ns: 0, ..base }.validate(), Err(ConfigError::QuantumTooSmall));
    assert_eq!(SchedulerConfig { max_quantum_ns: 1, ..base }.validate(), Err(ConfigError::QuantumTooLarge));
    assert_eq!(SchedulerConfig { aging_period_ns: 0, ..base }.validate(), Err(ConfigError::InvalidAgingPeriod));
    assert_eq!(SchedulerConfig { online_cpus: 0, ..base }.validate(), Err(ConfigError::InvalidCpuMask));
    assert_eq!(SchedulerConfig { watchdog_ns: 1, ..base }.validate(), Err(ConfigError::InvalidAgingPeriod));
    assert_eq!(SchedulerConfig::default().with_cpu_count(100).online_cpus, u64::MAX);
    assert_eq!(SchedulerConfig::default().with_cpu_count(0).online_cpus, 1);
    let mut c = base;
    c.set_mode(SchedulerMode::Preemptive);
    assert!(c.allows_preemption());
    assert!(c.should_balance(10_000_000));
    assert!(!SchedulerConfig { migration: MigrationPolicy::Disabled, ..c }.should_balance(u64::MAX));

    let task = TaskConfig {
        priority: Priority::new(3),
        class: Class::RealTime,
        policy: Policy::Edf,
        affinity: CpuMask(1),
        deadline: Some(Deadline { runtime_ns: 5, deadline_ns: 10, period_ns: 10 }),
        budget: TaskBudget { quota_ns: 0, window_ns: 0 },
        stack_size: 8192,
    };
    assert_eq!(validate_task_config(&task, CpuMask(1)), Ok(()));
    assert_eq!(validate_task_config(&TaskConfig { stack_size: 100, ..task }, CpuMask(1)), Err(ConfigError::QuantumTooSmall));
    assert_eq!(validate_task_config(&task, CpuMask(2)), Err(ConfigError::AffinityHasNoOnlineCpu));
    assert_eq!(
        validate_task_config(&TaskConfig { class: Class::Normal, ..task }, CpuMask(1)),
        Err(ConfigError::DeadlineWithoutRealtimeClass)
    );
    assert_eq!(
        validate_task_config(
            &TaskConfig { deadline: Some(Deadline { runtime_ns: 11, deadline_ns: 10, period_ns: 10 }), ..task },
            CpuMask(1)
        ),
        Err(ConfigError::RuntimeExceedsDeadline)
    );
    assert_eq!(
        validate_task_config(&TaskConfig { budget: TaskBudget { quota_ns: 5, window_ns: 1 }, ..task }, CpuMask(1)),
        Err(ConfigError::BudgetWindowTooSmall)
    );
}

#[test]
fn policy_updates_events_and_windows() {
    let mut cfg = TaskConfig {
        priority: Priority::new(3),
        class: Class::Normal,
        policy: Policy::Fair,
        affinity: CpuMask(1),
        deadline: None,
        budget: TaskBudget { quota_ns: 0, window_ns: 0 },
        stack_size: 8192,
    };
    let before = cfg;
    TaskPolicyUpdate::empty().apply_to(&mut cfg);
    assert_eq!(cfg, before);
    assert!(TaskPolicyUpdate::empty().is_empty());
    let u = TaskPolicyUpdate { priority: Some(Priority::new(9)), ..TaskPolicyUpdate::empty() };
    u.apply_to(&mut cfg);
    assert_eq!(cfg.priority.value(), 9);
    assert_eq!(cfg.class, Class::Normal);

    let e = SchedulerEvent::TaskMigrated { id: TaskId(4), from: 0, to: 1 };
    assert_eq!(e.task_id(), Some(TaskId(4)));
    assert!(!e.is_fault_like());
    assert_eq!(SchedulerEvent::Initialized { cpus: 2 }.task_id(), None);
    let mut counters = EventCounters::default();
    counters.observe(e);
    counters.observe(SchedulerEvent::Initialized { cpus: 2 });
    assert_eq!(counters.total(), 1);

    let mut w = LoadWindow::default();
    w.update(250, 750, 9);
    assert_eq!(w.total_ns(), 1000);
    assert_eq!(w.busy_ppm(), 250_000);
    w.reset(10);
    assert_eq!(w.busy_ppm(), 0);
    let blocked = PlacementScore { cpu: 0, load: 0, cache_affinity: 0, migration_cost: 0, allowed: false };
    assert_eq!(blocked.total_cost(), u64::MAX);
    let cached = PlacementScore { cpu: 1, load: 100, cache_affinity: 1, migration_cost: 1, allowed: true };
    assert_eq!(cached.total_cost(), 100 + 256 - 64);
}

#[test]
fn predictor_quantum_and_blocking() {
    let mut p = BurstPredictor::new();
    assert_eq!(p.predict().class, BurstClass::Short);
    p.observe_run(20_000_000);
    assert_eq!(p.predict().mean_ns, 20_000_000);
    assert_eq!(p.predict().class, BurstClass::Long);
    assert_eq!(p.quantum(4_000_000, Class::Background, Priority::new(2)), 4_000_000 * 2 * 2 + 100_000);
    for _ in 0..9 {
        p.on_wakeup();
    }
    assert_eq!(p.predict().class, BurstClass::Blocking);
    p.mark_nonblocking();
    assert_ne!(p.predict().class, BurstClass::Blocking);
    p.observe_run(0);
    assert_eq!(p.predict().mean_ns, 20_000_000 - (20_000_000 - 1) / 4);
    assert_eq!(p.predict().confidence, 2);
}

#[test]
fn round_robin_class_rotates_the_running_task() {
    let class = trangorge::sched::class::BasicRrClass;
    let mut rq = trangorge::sched::class::RrQueue::new();
    class.enqueue(&mut rq, 1);
    class.enqueue(&mut rq, 2);
    class.enqueue(&mut rq, 3);
    assert_eq!(class.pick_next_task(&mut rq), 1);
    assert_eq!(trangorge::sched::class::schedule(&rq, 0), Some(1));
    assert_eq!(trangorge::sched::class::schedule(&rq, 1), None);
    trangorge::sched::class::scheduler_tick(&mut rq, 1);
    assert_eq!(rq.peek(), 2);
    assert_eq!(rq.count(), 3);
    class.dequeue(&mut rq, 2);
    assert_eq!(class.pick_next_task(&mut rq), 3);
    class.task_tick(&mut rq, 3);
    assert_eq!(rq.peek(), 1);
    assert!(!rq.remove(9));
}

#[test]
fn bootstrap_frames_follow_each_calling_convention() {
    let f = trangorge::sched::rq::bootstrap_frame(0x1_0009, 0xAAAA, 0x55);
    assert_eq!(f.top, 0x1_0000 - 8);
    assert_eq!(f.words, vec![0xAAAA, 0, 0, 0, 0, 0, 0, 0x55]);
    assert_eq!(f.rsp, 0x1_0000 - 8 - 48);
    let c = trangorge::sched::rq::Context::bootstrap(0x1_0009, 0xAAAA, 0x55);
    assert_eq!(c.rsp, f.rsp);
    let low = trangorge::sched::rq::bootstrap_frame(20, 1, 2);
    assert_eq!(low.top, 8);
    assert_eq!(low.rsp, 0);
    let r = trangorge::sched::rq::bootstrap_frame_riscv(0x2000, 7, 9);
    assert_eq!(r.top, 0x2000 - 16);
    assert_eq!(r.words.len(), 15);
    assert_eq!(&r.words[..3], &[7, 9, 0]);
    assert!(r.words[2..].iter().all(|w| *w == 0));
    assert_eq!(r.rsp, 0x2000 - 16 - 128);
}
