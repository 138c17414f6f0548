use trangorge::scheduler::cpumask::CpuMask;
use trangorge::scheduler::decide::{
    check_preempt, dl_bandwidth, dl_update_curr, fair_min_vruntime, fair_vruntime_delta, find_busiest,
    choose_task_to_pull, pick_next_task, select_task_rq, should_preempt, should_pull, DlBudget, PreemptView, PullCandidate, RqLoad,
};
use trangorge::scheduler::em::{
    em_build_synthetic_big_pd, em_build_synthetic_huge_pd, em_build_synthetic_little_pd, CapacityState,
    EnergyModel, PerformanceDomain,
};
use trangorge::scheduler::registry::{self, CpuRegistry};
use trangorge::scheduler::runqueue::{collect_global, PerCpuStats, RtRq, RunQueue};
use trangorge::scheduler::task::{
    CpuContext, DlEntity, RtEntity, SchedEntity, TaskStats, TaskStruct,
    rb_color, rb_make_parent_color, rb_parent, LoadAvg, SchedClass, SchedPolicy, SpinLock, TaskState,
};
use trangorge::scheduler::switch::{init_fpu_context_switching, SwitchState};
use trangorge::sched::accounting::{ExecTimeHistogram, GlobalCounters, RqStats};
use trangorge::sched::rq::{RqDl, RtArray};
use trangorge::sched::stats::CpuStats;

#[test]
fn capacity_cost_and_validity() {
    let mut s = CapacityState::new(1000, 250, 382, 900, 10);
    assert!(s.is_valid());
    s.compute_cost(870);
    assert_eq!(s.cost, 250 * (870 - 382 + 1) / 1024);
    let mut z = CapacityState::empty();
    assert!(!z.is_valid());
    z.compute_cost(0);
    assert_eq!(z.cost, u32::MAX);
}

#[test]
fn synthetic_domains_are_sorted_and_costed() {
    let little = em_build_synthetic_little_pd(CpuMask::single(0));
    assert_eq!(little.nr_states, 7);
    assert_eq!(little.max_capacity, 870);
    assert_eq!(little.min_capacity, 150);
    assert_eq!(little.get_effective_capacity(), 870);
    assert_eq!(little.states[0].cost, 100 * (870 - 150 + 1) / 1024);
    assert_eq!(little.states[6].cost, 900 / 1024);
    let big = em_build_synthetic_big_pd(CpuMask::single(1));
    assert_eq!((big.id, big.nr_states, big.max_capacity), (1, 8, 2400));
    let huge = em_build_synthetic_huge_pd(CpuMask::single(2));
    assert_eq!((huge.id, huge.max_capacity, huge.min_capacity), (2, 4800, 800));
    assert!(little.contains_cpu(0) && !little.contains_cpu(1));
}

#[test]
fn domain_lookups_and_power() {
    let pd = em_build_synthetic_little_pd(CpuMask::single(0));
    assert_eq!(pd.find_state_for_capacity(300).unwrap().capacity, 382);
    assert_eq!(pd.find_state_for_capacity(5000).unwrap().capacity, 870);
    assert_eq!(pd.find_state_for_frequency(1190).unwrap().frequency, 1200);
    let p = pd.compute_power_at_state(0, 25_000);
    let dynp = 200u64 * 500 * 800 * 800 / 1_000_000;
    let stat = 50u64 * 1024 / 1024;
    assert_eq!(p as u64, (dynp + stat) * 1024 / 1024);
    assert_eq!(pd.compute_power_at_state(9, 25_000), 0);
    let empty = PerformanceDomain::empty();
    assert!(empty.find_state_for_capacity(1).is_none());
}

#[test]
fn thermal_pressure_and_temperature() {
    let mut pd = em_build_synthetic_big_pd(CpuMask::single(1));
    pd.update_thermal_pressure(400);
    assert_eq!(pd.get_effective_capacity(), 2000);
    pd.update_thermal_pressure(5000);
    assert_eq!(pd.get_effective_capacity(), 400);
    pd.update_temperature(1000, 10);
    assert_eq!(pd.current_temp_millideg, 105_000);
    pd.update_temperature(0, 10);
    assert_eq!(pd.current_temp_millideg, 25_000);
    pd.set_active_state_idx(3);
    assert_eq!(pd.get_active_state_idx(), 3);
    pd.set_active_state_idx(50);
    assert_eq!(pd.get_active_state_idx(), 3);
}

#[test]
fn energy_model_maps_cpus_to_domains() {
    let mut em = EnergyModel::empty();
    let mut little_cpus = CpuMask::empty();
    little_cpus.set(0);
    little_cpus.set(1);
    assert!(em.register_domain(em_build_synthetic_little_pd(little_cpus)));
    assert!(em.register_domain(em_build_synthetic_big_pd(CpuMask::single(2))));
    assert_eq!(em.get_max_capacity(), 2400);
    assert_eq!(em.get_min_capacity(), 150);
    assert!(em.is_cpu_little(1));
    assert!(em.is_cpu_big(2));
    assert!(!em.is_cpu_big(7));
    assert_eq!(em.get_pd_for_cpu(2).unwrap().id, 1);
    assert!(em.get_pd_for_cpu(5000).is_none());
    em.get_pd_for_cpu_mut(2).unwrap().set_active_state_idx(1);
    assert_eq!(em.domains[1].get_active_state_idx(), 1);
    assert!(em.get_pd_for_cpu_mut(700).is_none());
    em.invert_capacity_for_thermal(2, 400);
    assert_eq!(em.domains[1].get_effective_capacity(), 2000);
    em.clear_thermal_pressure();
    assert_eq!(em.domains[1].get_effective_capacity(), 2400);
    assert_eq!(em.find_best_state_for_domain(5, 100), None);
    assert!(em.find_best_state_for_domain(0, 512).is_some());
    assert_eq!(em.compute_task_energy_on_cpu(100, 9), u32::MAX);
    let e = em.compute_task_energy_on_cpu(1024, 0);
    assert!(e > 0 && e < u32::MAX);
    let total = em.compute_system_energy(1);
    assert!(total > 0);
    assert_eq!(em.total_system_power_mw, total);
    em.init();
    assert_eq!(em.nr_domains, 0);
    em.dump_state();
}

#[test]
fn registry_tracks_online_cpus_and_siblings() {
    let mut reg = CpuRegistry::new();
    registry::mark_possible(&mut reg, 3);
    registry::mark_present(&mut reg, 3);
    registry::mark_online(&mut reg, 3);
    registry::mark_online(&mut reg, 4);
    registry::set_topology(&mut reg, 3, 0, 1);
    registry::set_topology(&mut reg, 4, 0, 1);
    assert!(registry::is_online(&reg, 3));
    assert_eq!(registry::online_mask(&reg).weight(), 2);
    assert_eq!(registry::sibling_mask(&reg, 3).weight(), 2);
    registry::mark_offline(&mut reg, 4);
    assert_eq!(registry::sibling_mask(&reg, 3).weight(), 1);
    assert!(!registry::active_mask(&reg).test(4));
    assert!(registry::sibling_mask(&reg, 9).is_empty());
}

#[test]
fn task_states_and_flags() {
    assert!(TaskState::Runnable.can_transition_to(TaskState::Zombie));
    assert!(!TaskState::Zombie.can_transition_to(TaskState::Runnable));
    assert!(TaskState::Idle.is_runnable());
    assert!(TaskState::Dead.is_terminal());
    assert_eq!(TaskState::from_u8(4), TaskState::Dead);
    assert_eq!(TaskState::Zombie.to_u8(), 5);
    assert_eq!(SchedClass::from(SchedPolicy::RoundRobin), SchedClass::RealTime);
    assert!(SchedClass::Stop.is_above(SchedClass::Deadline));
    let pc = rb_make_parent_color(0x1000, 1);
    assert_eq!(rb_parent(pc), 0x1000);
    assert_eq!(rb_color(pc), 1);
    let mut l = SpinLock::new();
    l.lock();
    assert!(l.is_locked());
    l.unlock();
    assert!(!l.is_locked());
}

#[test]
fn load_average_accumulates() {
    let mut la = LoadAvg::default();
    la.accumulate(5, 0, 1024, true);
    assert_eq!(la.last_update, 5);
    la.accumulate(10, 500_000_000, 1024, true);
    assert_eq!(la.load_avg, 512);
    assert_eq!(la.util_avg, 500);
    la.accumulate(20, 2_000_000_000, 2048, false);
    assert_eq!(la.load_avg, 512 - (512 >> 10) + 2048);
    assert_eq!(la.util_avg, 500);
    assert_eq!(la.load_sum, 2_500_000_000);
}

#[test]
fn run_queues_and_global_statistics() {
    let mut a = RunQueue::new(0, 77);
    let mut b = RunQueue::new(1, 78);
    assert_eq!(a.current(), 77);
    a.advance_clock(100);
    assert_eq!(a.now(), 100);
    a.stats.record_switch(true);
    a.stats.record_switch(false);
    b.stats.record_migration();
    b.stats.add_user(10);
    b.stats.add_sys(3);
    b.stats.add_idle(4);
    let g = collect_global(&[a, b]);
    assert_eq!(g.total_switches, 2);
    assert_eq!(g.total_voluntary, 1);
    assert_eq!(g.total_migrations, 1);
    assert_eq!((g.total_user, g.total_sys, g.total_idle), (10, 3, 4));
    let rt = RtRq::new();
    assert!(rt.is_empty());
    assert_eq!(rt.pick_first(), 0);
    assert_eq!(PerCpuStats::new().switches, 0);
}

#[test]
fn scheduling_decisions() {
    assert_eq!(fair_vruntime_delta(1000, 1024, 0), 1000);
    assert_eq!(fair_vruntime_delta(1000, 2048, 1 << 31), 500);
    assert_eq!(fair_min_vruntime(10, 20, None), 20);
    assert_eq!(fair_min_vruntime(10, 20_000_000, Some(5)), 20_000_000 - 6_000_000);
    assert!(should_preempt(10_000_000, 1_000_000, 0, 1_000));
    assert!(!should_preempt(100, 0, 0, 200));
    assert_eq!(dl_bandwidth(1, 2), (1 << 20) / 2);
    assert_eq!(dl_bandwidth(1, 0), 0);
    let b = DlBudget { runtime: 5, deadline: 100, throttled: false, replenish_at: 0 };
    let c = dl_update_curr(b, 50, 200, 10, 40);
    assert_eq!(c, DlBudget { runtime: -5, deadline: 100, throttled: true, replenish_at: 100 });
    let d = dl_update_curr(b, 50, 200, 10, 150);
    assert_eq!(d, DlBudget { runtime: 50, deadline: 350, throttled: false, replenish_at: 0 });
    assert_eq!(pick_next_task(true, 1, false, 2, false, 3, 4), 2);
    assert_eq!(pick_next_task(true, 1, true, 2, true, 3, 4), 4);
    let fair = PreemptView { class: SchedClass::Fair, deadline: 0, prio: 0, vruntime: 100, sum_exec_runtime: 0, prev_sum_exec_runtime: 0 };
    let rt = PreemptView { class: SchedClass::RealTime, ..fair };
    assert!(check_preempt(&fair, &rt));
    assert!(!check_preempt(&rt, &fair));
    let reg = vec![
        Some(RqLoad { online: true, nr_running: 3 }),
        Some(RqLoad { online: true, nr_running: 1 }),
        None,
        Some(RqLoad { online: false, nr_running: 0 }),
    ];
    assert_eq!(select_task_rq(&CpuMask::full(), 0, &reg), 1);
    assert_eq!(select_task_rq(&CpuMask::single(3), 3, &reg), 3);
    assert_eq!(select_task_rq(&CpuMask::single(2), u32::MAX, &reg), 0);
    assert_eq!(find_busiest(&reg, 1), Some(0));
    assert_eq!(find_busiest(&reg, 0), None);
    let cands = [
        PullCandidate { task: 7, allowed_here: true },
        PullCandidate { task: 8, allowed_here: false },
        PullCandidate { task: 9, allowed_here: true },
    ];
    assert_eq!(choose_task_to_pull(&cands, 7), Some(2));
    assert_eq!(choose_task_to_pull(&cands[..2], 7), None);
    assert!(should_pull(3, 1));
    assert!(!should_pull(2, 1));
}

#[test]
fn fpu_setup_enables_available_extensions() {
    let mut st = SwitchState::new();
    let s = init_fpu_context_switching(&mut st, 0, 832, 1, 3, 1 << 5, 1 << 16);
    assert_eq!(s.cr4, 0x200);
    assert!(s.xsave_enabled && s.avx_enabled && s.avx512_enabled && !s.mpx_enabled);
    assert_eq!(s.xsave_size, 832);
    assert_eq!(s.xcr0_writes, vec![3 | 0x4, 3 | 0xe0]);
    let plain = init_fpu_context_switching(&mut st, 0, 832, 0, 3, 1 << 5, 1 << 16);
    assert!(!plain.xsave_enabled && plain.xcr0_writes.is_empty());
    assert_eq!(plain.xsave_size, 512);
}

#[test]
fn rt_priority_bitmap() {
    let mut a = RtArray::new();
    assert_eq!(a.highest_prio(), None);
    a.set_bit(70);
    a.set_bit(5);
    assert_eq!(a.highest_prio(), Some(5));
    a.clear_bit(5);
    assert_eq!(a.highest_prio(), Some(70));
    let dl = RqDl::default();
    assert!(dl.admission_control(1, 2));
    assert!(!dl.admission_control(1, 1));
    assert!(!dl.admission_control(1, 0));
}

#[test]
fn accounting_and_histograms() {
    let mut g = GlobalCounters::new();
    let mut rq = RqStats::new();
    rq.record_switch(&mut g, true);
    rq.add_user_time(&mut g, 30);
    rq.add_idle_time(&mut g, 70);
    assert_eq!(rq.load_percent(), 30);
    assert_eq!(trangorge::sched::accounting::total_switches(&g), 1);
    assert_eq!(trangorge::sched::accounting::total_running_time_ns(&g), 30);
    let mut h = ExecTimeHistogram::new();
    h.add_sample(100);
    h.add_sample(5000);
    h.add_sample(1 << 25);
    h.add_sample(1 << 27);
    assert_eq!(h.total_samples(), 4);
    let mut s = CpuStats::default();
    s.on_tick(300);
    s.on_idle(700);
    assert_eq!(s.utilization_ppm(), 300_000);
}

#[test]
fn capability_self_test_passes_on_a_started_system() {
    let mut s = trangorge::caps::system::CapSystem::new();
    trangorge::caps::selftest::init(&mut s).unwrap();
    assert_eq!(trangorge::caps::selftest::self_test(&mut s), Ok("sets+hierarchy+store+grant/revoke+audit"));
    assert_eq!(trangorge::caps::store::world_count(&s.store), 1);
}

fn rt_task(pid: u64, prio: i32) -> trangorge::scheduler::task::TaskStruct {
    TaskStruct {
        pid,
        tgid: pid,
        state: 0,
        flags: 0,
        policy: SchedPolicy::Fifo,
        sched_class: SchedClass::RealTime,
        prio,
        se: SchedEntity::default(),
        rt: RtEntity::default(),
        dl: DlEntity::default(),
        on_cpu: false,
        cpu: 0,
        rq: 0,
        stack_base: 0,
        stack_size: 0,
        context: CpuContext::default(),
        preempt_count: 0,
        stats: TaskStats::default(),
        parent: 0,
        children: 0,
        sibling: 0,
        comm: vec![0u8; 16],
        task_lock: SpinLock::new(),
    }
}

#[test]
fn real_time_lists_keep_fifo_order_per_priority() {
    let mut tasks = vec![rt_task(1, 5), rt_task(2, 5), rt_task(3, 2)];
    let mut rq = RtRq::new();
    rq.enqueue(&mut tasks, 1);
    rq.enqueue(&mut tasks, 2);
    assert_eq!(rq.highest_prio, 5);
    assert_eq!(rq.pick_first(), 1);
    rq.enqueue(&mut tasks, 3);
    assert_eq!(rq.highest_prio, 2);
    assert_eq!(rq.pick_first(), 3);
    assert_eq!(rq.nr_running, 3);
    assert!(tasks[2].se.on_rq);
    rq.dequeue(&mut tasks, 3);
    assert_eq!(rq.highest_prio, 5);
    assert_eq!(rq.pick_first(), 1);
    assert!(!tasks[2].se.on_rq);
    assert_eq!(tasks[2].rt.queued_prio, 100);
    rq.requeue(&mut tasks, 1);
    assert_eq!(rq.pick_first(), 2);
    assert_eq!(tasks[1].rt.list_next, 1);
    assert_eq!(tasks[0].rt.list_prev, 2);
    rq.dequeue(&mut tasks, 2);
    rq.dequeue(&mut tasks, 1);
    assert!(rq.is_empty());
    assert_eq!(rq.pick_first(), 0);
    assert_eq!(rq.highest_prio, 100);
}

#[test]
fn run_queue_charges_picks_and_switches() {
    let mut tasks = vec![rt_task(1, 0), rt_task(2, 3), rt_task(3, 0)];
    tasks[0].sched_class = SchedClass::Idle;
    tasks[2].sched_class = SchedClass::Fair;
    tasks[2].se.vruntime = 100;
    let mut rq = RunQueue::new(4, 1);
    rq.fair.enqueue(&mut tasks, 3, false);
    assert_eq!(rq.pick_next_task(), 3);
    rq.rt.enqueue(&mut tasks, 2);
    assert_eq!(rq.pick_next_task(), 2);
    let (prev, next) = rq.schedule(&mut tasks);
    assert_eq!((prev, next), (1, 2));
    assert!(tasks[1].on_cpu && tasks[1].cpu == 4);
    assert_eq!(rq.current(), 2);
    rq.rt.dequeue(&mut tasks, 2);
    rq.curr = 3;
    rq.advance_clock(5000);
    rq.update_curr(&mut tasks);
    assert_eq!(tasks[2].se.sum_exec_runtime, 5000);
    assert_eq!(tasks[2].se.vruntime, 5100);
    assert_eq!(rq.fair.min_vruntime, 5100);
    tasks[1].sched_class = SchedClass::RealTime;
    rq.check_preempt(&mut tasks, 2);
    assert!(tasks[2].needs_resched());
    let (prev, next) = rq.schedule(&mut tasks);
    assert_eq!((prev, next), (3, 3));
    assert!(!tasks[2].needs_resched());
}

#[test]
fn deadline_tasks_are_charged_and_replenished() {
    let mut tasks = vec![rt_task(1, 0)];
    tasks[0].dl.runtime = 10;
    tasks[0].dl.deadline = 100;
    tasks[0].dl.dl_runtime = 50;
    tasks[0].dl.dl_deadline = 200;
    let mut dl = trangorge::scheduler::runqueue::DlRq::default();
    dl.update_curr(&mut tasks, 1, 15, 50);
    assert!(tasks[0].dl.throttled);
    assert_eq!(tasks[0].dl.runtime, -5);
    dl.update_curr(&mut tasks, 1, 1, 120);
    assert!(!tasks[0].dl.throttled);
    assert_eq!((tasks[0].dl.runtime, tasks[0].dl.deadline), (50, 320));
}
