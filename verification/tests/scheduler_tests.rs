use trangorge::scheduler::balance::{
    calculate_imbalance, check_misfit_task, classify_group, should_we_balance, update_group_capacity, CpuLoad, GroupType,
    LoadCalculation,
};
use trangorge::scheduler::cpumask::{CpuMask, MAX_CPUS};
use trangorge::scheduler::stopper::{
    combine_stop_results, cpu_stopper_irq_handler, stop_one_cpu, stop_two_cpus, stopper_init, CpuStopper, StopPlan,
    StopperRegistry, StopperState, StopperWork,
};
use trangorge::scheduler::switch::{
    cr3_to_load, xsave_mask, SwitchState, CR3_NO_FLUSH, CR3_PCID_MASK, MSR_FS_BASE, MSR_GS_BASE,
    MSR_KERNEL_GS_BASE,
};
use trangorge::scheduler::topology::{
    SchedDomain, SchedGroup, TopologyState, MAX_SCHED_DOMAIN_LEVELS, SD_LOAD_BALANCE, SD_SHARE_CPUCAPACITY,
};

fn dummy_stopper_fn(_arg: usize) -> u32 {
    0
}

#[test]
fn test_msr_constants() {
    assert_eq!(MSR_FS_BASE, 0xC0000100);
    assert_eq!(MSR_GS_BASE, 0xC0000101);
    assert_eq!(MSR_KERNEL_GS_BASE, 0xC0000102);
}

#[test]
fn test_cr3_masks() {
    assert_eq!(CR3_PCID_MASK, 0xFFF);
    assert_eq!(CR3_NO_FLUSH, 1 << 63);
}

#[test]
fn stopper_state_transitions() {
    let mut work = StopperWork::empty();
    assert_eq!(work.get_state(), StopperState::Idle);

    work.set_state(StopperState::Preparing);
    assert_eq!(work.get_state(), StopperState::Preparing);

    work.set_state(StopperState::Running);
    assert_eq!(work.get_state(), StopperState::Running);

    work.set_state(StopperState::Done);
    assert_eq!(work.get_state(), StopperState::Done);
}

#[test]
fn stopper_registry_bounds_check() {
    let reg = StopperRegistry::empty();
    assert!(reg.get(0).is_some());
    assert!(reg.get(MAX_CPUS as u32).is_none());
}

#[test]
fn queue_execute_and_wait_roundtrip_returns_value_from_function() {
    let mut stopper = CpuStopper::empty();
    stopper.init(7);
    assert!(stopper.queue_work(dummy_stopper_fn as usize, 0));
    assert_eq!(stopper.work.get_state(), StopperState::Preparing);

    stopper.execute_work(|_f, a| dummy_stopper_fn(a));
    assert_eq!(stopper.work.get_state(), StopperState::Done);

    let ret = stopper.wait_for_completion();
    assert_eq!(ret, 0);
    assert_eq!(stopper.work.get_state(), StopperState::Idle);
}

#[test]
fn queue_work_rejects_a_second_job_while_busy() {
    let mut stopper = CpuStopper::empty();
    stopper.init(7);
    assert!(stopper.queue_work(dummy_stopper_fn as usize, 0));
    assert!(!stopper.queue_work(dummy_stopper_fn as usize, 0));
}

#[test]
fn execute_work_without_queued_job_is_a_noop() {
    let mut stopper = CpuStopper::empty();
    stopper.init(7);
    stopper.execute_work(|_f, a| dummy_stopper_fn(a));
    assert_eq!(stopper.work.get_state(), StopperState::Idle);
}

#[test]
fn stopper_returns_the_function_result_and_aborts_without_function() {
    let mut stopper = CpuStopper::empty();
    stopper.init(3);
    assert!(stopper.queue_work(5, 40));
    stopper.execute_work(|f, a| (f + a) as u32);
    assert_eq!(stopper.work.get_state(), StopperState::Done);
    assert_eq!(stopper.wait_for_completion(), 45);
    assert_eq!(stopper.nr_stops, 1);

    assert!(stopper.queue_work(0, 1));
    stopper.execute_work(|_f, _a| 9);
    assert_eq!(stopper.work.get_state(), StopperState::Aborted);
    assert_eq!(stopper.wait_for_completion(), 0);
    assert_eq!(stopper.work.get_state(), StopperState::Idle);
}

#[test]
fn load_calculation_defaults() {
    let calc = LoadCalculation::empty();
    assert_eq!(calc.imbalance, 0);
    assert_eq!(calc.src_util, 0);
}

#[test]
fn group_classification_idle() {
    let mut sg = SchedGroup::empty();
    sg.group_util = 0;
    assert_eq!(classify_group(&mut sg), GroupType::FullyIdle);
}

#[test]
fn group_classification_has_idle_beats_overloaded() {
    let mut sg = SchedGroup::empty();
    sg.group_util = 500;
    sg.idle_cpus.set(3);
    sg.group_overloaded = true;
    assert_eq!(classify_group(&mut sg), GroupType::HasIdle);
}

#[test]
fn group_classification_overloaded_when_busy_and_full() {
    let mut sg = SchedGroup::empty();
    sg.group_util = 900;
    sg.group_overloaded = true;
    assert_eq!(classify_group(&mut sg), GroupType::GroupOverloaded);
}

#[test]
fn calculate_imbalance_moves_load_toward_equilibrium() {
    let mut busiest = SchedGroup::empty();
    busiest.group_capacity = 1024;
    busiest.group_util = 900;

    let mut local = SchedGroup::empty();
    local.group_capacity = 1024;
    local.group_util = 100;

    let mut calc = LoadCalculation::empty();
    calculate_imbalance(&mut calc, &mut busiest, &mut local);

    assert_eq!(calc.imbalance, 400);
    assert_eq!(calc.src_util, 900);
    assert_eq!(calc.dst_util, 100);
}

#[test]
fn calculate_imbalance_is_zero_for_balanced_groups() {
    let mut busiest = SchedGroup::empty();
    busiest.group_capacity = 1024;
    busiest.group_util = 500;

    let mut local = SchedGroup::empty();
    local.group_capacity = 1024;
    local.group_util = 500;

    let mut calc = LoadCalculation::empty();
    calculate_imbalance(&mut calc, &mut busiest, &mut local);
    assert_eq!(calc.imbalance, 0);
}

#[test]
fn group_classification_misfit_and_asym() {
    let mut sg = SchedGroup::empty();
    sg.group_util = 10;
    sg.group_misfit_task = true;
    sg.group_overloaded = true;
    assert_eq!(classify_group(&sg), GroupType::GroupMisfit);
    sg.group_misfit_task = false;
    sg.group_overloaded = false;
    assert_eq!(classify_group(&sg), GroupType::GroupAsym);
}

#[test]
fn topology_alloc_domains_respects_limits() {
    let mut state = TopologyState::empty();
    let mut count = 0;
    while state.alloc_domain().is_some() {
        count += 1;
    }
    assert_eq!(count, MAX_CPUS * MAX_SCHED_DOMAIN_LEVELS);
    assert!(state.alloc_domain().is_none());
}

#[test]
fn sched_domain_flags_logic() {
    let mut sd = SchedDomain::empty();
    sd.flags = SD_LOAD_BALANCE | SD_SHARE_CPUCAPACITY;
    assert!(sd.has_flag(SD_LOAD_BALANCE));
    assert!(sd.is_smt());
    assert!(!sd.is_numa());
    assert!(!sd.shares_cache());
}

#[test]
fn topology_groups_allocate_in_order_and_report_distances() {
    let mut state = TopologyState::empty();
    assert_eq!(state.alloc_group(), Some(0));
    assert_eq!(state.alloc_group(), Some(1));
    assert_eq!(state.alloc_domain(), Some(0));
    assert_eq!(trangorge::scheduler::topology::numa_distance(&state, 0, 16), 255);
    state.nodes[0].distance[3] = 21;
    assert_eq!(trangorge::scheduler::topology::numa_distance(&state, 0, 3), 21);
    assert_eq!(trangorge::scheduler::topology::lowest_shared_cache_level(&state, 1, 2), None);
    state.cpus[1].l2_cache.shared_cpus.set(2);
    assert_eq!(
        trangorge::scheduler::topology::lowest_shared_cache_level(&state, 1, 2),
        Some(trangorge::scheduler::topology::CacheLevel::L2Unified)
    );
}

#[test]
fn fpu_switching_is_lazy_by_default() {
    let mut st = SwitchState::new();
    let a = st.plan_fpu_switch(0, 100);
    assert!(!a.save_prev && a.restore_next);
    assert_eq!(st.last_fpu_task, 100);
    let b = st.plan_fpu_switch(100, 200);
    assert!(b.save_prev && b.restore_next);
    assert_eq!(st.fpu_context_switches, 1);
    let c = st.plan_fpu_switch(300, 200);
    assert!(!c.save_prev && !c.restore_next);
    st.finish_switch();
    assert_eq!(trangorge::scheduler::switch::get_switch_count(&st), 1);
    trangorge::scheduler::switch::disable_lazy_fpu(&mut st);
    let d = st.plan_fpu_switch(300, 200);
    assert!(d.save_prev && d.restore_next);
}

#[test]
fn cr3_and_xsave_decisions() {
    assert_eq!(cr3_to_load(0x1000, 0x1000), None);
    assert_eq!(cr3_to_load(0x1000, 0), None);
    assert_eq!(cr3_to_load(0x1000, 0x2000), Some(0x2000));
    assert_eq!(cr3_to_load(0x1000, 0x2001), Some(0x2001 | (1u64 << 63)));
    assert_eq!(xsave_mask(true, true), u64::MAX);
    assert_eq!(xsave_mask(false, true), 7);
    assert_eq!(xsave_mask(false, false), 3);
}

#[test]
fn cpumask_next_after_wraps_around() {
    let mut m = CpuMask::empty();
    m.set(3);
    m.set(70);
    assert_eq!(m.next_after(3), Some(3));
    assert_eq!(m.next_after(64), Some(70));
    assert_eq!(m.next_after(70), Some(70));
    assert_eq!(m.next_after(127), Some(3));
    assert_eq!(m.next_after(u32::MAX), Some(3));
    assert_eq!(m.first(), Some(3));
    assert_eq!(m.weight(), 2);
    let mut it = m.iter();
    assert_eq!(it.next(), Some(3));
    assert_eq!(it.next(), Some(70));
    assert_eq!(it.next(), None);
}

#[test]
fn cpumask_set_algebra() {
    let a = CpuMask::single(5);
    let mut b = CpuMask::single(5);
    b.set(6);
    assert!(a.is_subset(&b));
    assert!(!b.is_subset(&a));
    assert!(a.intersects(&b));
    assert_eq!(b.andnot(&a).first(), Some(6));
    assert_eq!(a.bitor(&b).weight(), 2);
    assert_eq!(a.bitand(&b).weight(), 1);
    assert_eq!(a.not().weight(), 1023);
    assert!(CpuMask::single(5000).is_empty());
    assert_eq!(CpuMask::full().weight(), 1024);
}

#[test]
fn stopping_one_and_two_cpus() {
    let mut reg = StopperRegistry::empty();
    let mut online = CpuMask::empty();
    online.set(1);
    online.set(4);
    stopper_init(&mut reg, &online);
    assert!(reg.stoppers[1].enabled && reg.stoppers[4].enabled && !reg.stoppers[2].enabled);
    assert_eq!(stop_one_cpu(&mut reg, 5000, 7, 1), Err(1));
    assert_eq!(stop_one_cpu(&mut reg, 1, 7, 1), Ok(()));
    assert_eq!(stop_one_cpu(&mut reg, 1, 7, 1), Err(2));
    assert_eq!(stop_two_cpus(&mut reg, 4, 1, 7, 1), Err(2));
    cpu_stopper_irq_handler(&mut reg, 1, |f, a| (f * 10 + a) as u32);
    assert_eq!(reg.stoppers[1].wait_for_completion(), 71);
    assert_eq!(stop_two_cpus(&mut reg, 4, 1, 8, 2), Ok(StopPlan::Two(1, 4)));
    assert_eq!(reg.stoppers[4].work.get_state(), StopperState::Preparing);
    assert_eq!(stop_two_cpus(&mut reg, 1, 9000, 8, 2), Err(1));
    assert_eq!(stop_two_cpus(&mut reg, 6, 6, 8, 2), Ok(StopPlan::One(6)));
    assert_eq!(combine_stop_results(0, 5), 5);
    assert_eq!(combine_stop_results(3, 5), 3);
}

#[test]
fn group_statistics_misfits_and_balancing_turns() {
    let mut sg = SchedGroup::empty();
    sg.group_mask.set(2);
    sg.group_mask.set(3);
    let cpus = [
        CpuLoad { present: true, max_capacity: 1024, thermal_pressure: 24, load_weight: 950, nr_running: 2, idle: false },
        CpuLoad { present: true, max_capacity: 1024, thermal_pressure: 0, load_weight: 0, nr_running: 0, idle: true },
    ];
    update_group_capacity(&mut sg, &cpus, &[2, 3]);
    assert_eq!(sg.group_capacity, 2024);
    assert_eq!(sg.group_util, 950);
    assert_eq!(sg.group_weight, 2);
    assert!(sg.idle_cpus.test(3) && !sg.idle_cpus.test(2));
    assert!(!sg.group_overloaded);
    assert_eq!(classify_group(&sg), GroupType::HasIdle);
    assert!(check_misfit_task(Some(1100), 2048, 2, false));
    assert!(!check_misfit_task(Some(1100), 2048, 2, true));
    assert!(!check_misfit_task(None, 2048, 2, false));
    assert!(should_we_balance(true, 0, 0, 0, None, 1));
    assert!(!should_we_balance(false, 100, 0, 0, Some(1), 1));
    assert!(should_we_balance(false, 600_000, 0, SD_SHARE_CPUCAPACITY, Some(1), 1));
    assert!(!should_we_balance(false, 2_000_000, 0, 0, Some(0), 1));
}
