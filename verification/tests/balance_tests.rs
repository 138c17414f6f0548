use trangorge::scheduler::decide::{balance_decision, RqLoad, IMBALANCE_THRESHOLD};
use trangorge::scheduler::runqueue::RunQueue;
use trangorge::scheduler::migration::{can_migrate_task, find_migratable, idle_balance, load_balance, PF_NO_MIGRATE};
use trangorge::scheduler::smp;
use trangorge::scheduler::cpumask::CpuMask;
use trangorge::scheduler::task::{
    CpuContext, DlEntity, RtEntity, SchedClass, SchedEntity, SchedPolicy, SpinLock, TaskStats, TaskStruct,
};

fn fair_task(pid: u64, vruntime: u64) -> TaskStruct {
    let mut se = SchedEntity::default();
    se.vruntime = vruntime;
    TaskStruct {
        pid,
        tgid: pid,
        state: 0,
        flags: 0,
        policy: SchedPolicy::Normal,
        sched_class: SchedClass::Fair,
        prio: 120,
        se,
        rt: RtEntity::default(),
        dl: DlEntity::default(),
        on_cpu: false,
        cpu: 0,
        rq: 0,
        stack_base: 0,
        stack_size: 0,
        context: CpuContext::default(),
        preempt_count: 0,
        stats: TaskStats::default(),
        parent: 0,
        children: 0,
        sibling: 0,
        comm: vec![0u8; 16],
        task_lock: SpinLock::new(),
    }
}

fn activate(rq: &mut RunQueue, tasks: &mut Vec<TaskStruct>, h: usize) {
    rq.fair.enqueue(tasks, h, true);
    rq.nr_running += 1;
}

#[test]
fn load_balance_moves_task_across_uneven_queues() {
    let mut tasks: Vec<TaskStruct> = (1..=6).map(|i| fair_task(i, 0)).collect();
    let mut rq0 = RunQueue::new(0, 5);
    let rq1 = RunQueue::new(1, 6);
    for h in 1..=4 {
        activate(&mut rq0, &mut tasks, h);
    }
    let mut rqs = vec![rq0, rq1];
    let moved = load_balance(&mut rqs, &mut tasks);
    assert_eq!(moved, 1);
    assert_eq!(rqs[0].nr_running, 3);
    assert_eq!(rqs[1].nr_running, 1);
    assert_eq!(rqs[1].fair.queue, vec![1]);
    assert_eq!(rqs[0].fair.queue, vec![2, 3, 4]);
    assert_eq!(tasks[0].cpu, 1);
    assert_eq!(tasks[0].stats.nr_migrations, 1);
    assert!(tasks[0].se.on_rq);
}

#[test]
fn load_balance_is_noop_below_threshold() {
    let mut tasks: Vec<TaskStruct> = (1..=3).map(|i| fair_task(i, 0)).collect();
    let mut rq0 = RunQueue::new(0, 2);
    let rq1 = RunQueue::new(1, 3);
    activate(&mut rq0, &mut tasks, 1);
    let mut rqs = vec![rq0, rq1];
    let moved = load_balance(&mut rqs, &mut tasks);
    assert_eq!(moved, 0);
    assert_eq!(rqs[0].nr_running, 1);
    assert_eq!(rqs[1].nr_running, 0);
}

#[test]
fn load_balance_skips_pinned_and_running_tasks() {
    let mut tasks: Vec<TaskStruct> = (1..=5).map(|i| fair_task(i, 10 * i)).collect();
    tasks[0].flags = PF_NO_MIGRATE;
    tasks[1].on_cpu = true;
    let mut rq0 = RunQueue::new(0, 5);
    let rq1 = RunQueue::new(1, 4);
    for h in 1..=3 {
        activate(&mut rq0, &mut tasks, h);
    }
    assert!(!can_migrate_task(&tasks[0], 1));
    assert!(!can_migrate_task(&tasks[1], 1));
    assert!(can_migrate_task(&tasks[2], 1));
    assert_eq!(find_migratable(&rq0, &tasks, 1), Some(2));
    let mut rqs = vec![rq0, rq1];
    assert_eq!(load_balance(&mut rqs, &mut tasks), 1);
    assert_eq!(rqs[0].fair.queue, vec![1, 2]);
    assert_eq!(rqs[1].fair.queue, vec![3]);
    assert_eq!(tasks[2].cpu, 1);
}

#[test]
fn load_balance_moves_nothing_when_all_are_pinned() {
    let mut tasks: Vec<TaskStruct> = (1..=4).map(|i| fair_task(i, 0)).collect();
    tasks[0].flags = PF_NO_MIGRATE;
    tasks[1].flags = PF_NO_MIGRATE;
    let mut rq0 = RunQueue::new(0, 3);
    let rq1 = RunQueue::new(1, 4);
    activate(&mut rq0, &mut tasks, 1);
    activate(&mut rq0, &mut tasks, 2);
    let mut rqs = vec![rq0, rq1];
    assert_eq!(load_balance(&mut rqs, &mut tasks), 0);
    assert_eq!(rqs[0].fair.queue, vec![1, 2]);
    assert_eq!(tasks[0].cpu, 0);
}

#[test]
fn balance_decision_picks_first_busiest_and_idlest() {
    let on = |n: u32| Some(RqLoad { online: true, nr_running: n });
    let off = |n: u32| Some(RqLoad { online: false, nr_running: n });
    assert_eq!(IMBALANCE_THRESHOLD, 2);
    assert_eq!(balance_decision(&[on(4), on(0)]), Some((0, 1)));
    assert_eq!(balance_decision(&[on(1), on(0)]), None);
    assert_eq!(balance_decision(&[on(1), on(5), None, on(5), on(1)]), Some((1, 0)));
    assert_eq!(balance_decision(&[off(9), on(3), off(0), on(1)]), Some((1, 3)));
    assert_eq!(balance_decision(&[on(0), on(0)]), None);
    assert_eq!(balance_decision(&[on(7)]), None);
    assert_eq!(balance_decision(&[]), None);
}

#[test]
fn fair_queue_orders_by_virtual_time() {
    let mut tasks: Vec<TaskStruct> = vec![fair_task(1, 50), fair_task(2, 20), fair_task(3, 50), fair_task(4, 5)];
    let mut rq = RunQueue::new(0, 4);
    rq.fair.min_vruntime = 10;
    rq.fair.enqueue(&mut tasks, 1, true);
    rq.fair.enqueue(&mut tasks, 2, true);
    rq.fair.enqueue(&mut tasks, 3, true);
    rq.fair.enqueue(&mut tasks, 4, true);
    assert_eq!(rq.fair.queue, vec![4, 2, 1, 3]);
    assert_eq!(tasks[3].se.vruntime, 10);
    assert_eq!(rq.fair.pick_first(), 4);
    assert_eq!(rq.fair.nr_running, 4);
    assert_eq!(rq.fair.load_weight, 4 * 1024);
    rq.fair.dequeue(&mut tasks, 2);
    assert_eq!(rq.fair.queue, vec![4, 1, 3]);
    assert!(!tasks[1].se.on_rq);
    assert_eq!(rq.fair.nr_running, 3);
    rq.fair.dequeue(&mut tasks, 4);
    assert_eq!(rq.fair.pick_first(), 1);
    let mut t5 = fair_task(5, 3);
    t5.se.vruntime = 3;
    tasks.push(t5);
    rq.fair.enqueue(&mut tasks, 5, false);
    assert_eq!(rq.fair.queue, vec![5, 1, 3]);
    assert_eq!(tasks[4].se.vruntime, 3);
}

#[test]
fn no_migration_when_cpus_allowed_forbids_it() {
    let mut tasks: Vec<TaskStruct> = (1..=4).map(|i| fair_task(i, 0)).collect();
    tasks[0].se.cpus_allowed = CpuMask::single(0);
    tasks[1].se.cpus_allowed = CpuMask::single(0);
    let mut rq0 = RunQueue::new(0, 3);
    let rq1 = RunQueue::new(1, 4);
    activate(&mut rq0, &mut tasks, 1);
    activate(&mut rq0, &mut tasks, 2);
    let mut rqs = vec![rq0, rq1];
    let pulled = idle_balance(1, &mut rqs, &mut tasks);
    assert!(!pulled);
    assert_eq!(rqs[0].nr_running, 2);
    assert_eq!(rqs[1].nr_running, 0);
}

#[test]
fn idle_balance_pulls_a_task_to_the_idle_cpu() {
    let mut tasks: Vec<TaskStruct> = (1..=4).map(|i| fair_task(i, 0)).collect();
    let mut rq0 = RunQueue::new(0, 3);
    let rq1 = RunQueue::new(1, 4);
    activate(&mut rq0, &mut tasks, 1);
    activate(&mut rq0, &mut tasks, 2);
    let mut rqs = vec![rq0, rq1];
    let pulled = idle_balance(1, &mut rqs, &mut tasks);
    assert!(pulled);
    let moved = if tasks[0].cpu == 1 { &tasks[0] } else { &tasks[1] };
    assert_eq!(moved.cpu, 1);
    assert!(moved.stats.nr_migrations >= 1);
    assert_eq!(rqs[0].nr_running, 1);
    assert_eq!(rqs[1].nr_running, 1);
    assert_eq!(rqs[1].fair.queue, vec![1]);
}

#[test]
fn pf_no_migrate_blocks_migration() {
    let mut tasks: Vec<TaskStruct> = (1..=4).map(|i| fair_task(i, 0)).collect();
    tasks[0].flags = PF_NO_MIGRATE;
    tasks[1].flags = PF_NO_MIGRATE;
    let mut rq0 = RunQueue::new(0, 3);
    let rq1 = RunQueue::new(1, 4);
    activate(&mut rq0, &mut tasks, 1);
    activate(&mut rq0, &mut tasks, 2);
    let mut rqs = vec![rq0, rq1];
    assert!(!idle_balance(1, &mut rqs, &mut tasks));
}

#[test]
fn idle_balance_needs_a_gap_and_a_known_cpu() {
    let mut tasks: Vec<TaskStruct> = (1..=5).map(|i| fair_task(i, 0)).collect();
    let mut rq0 = RunQueue::new(0, 4);
    let mut rq1 = RunQueue::new(1, 5);
    activate(&mut rq0, &mut tasks, 1);
    activate(&mut rq0, &mut tasks, 2);
    activate(&mut rq1, &mut tasks, 3);
    let mut rqs = vec![rq0, rq1];
    assert!(!idle_balance(1, &mut rqs, &mut tasks));
    assert!(!idle_balance(7, &mut rqs, &mut tasks));
    assert_eq!(rqs[0].nr_running, 2);
}

#[test]
fn deadline_queue_books_bandwidth_and_orders_by_deadline() {
    let mut tasks: Vec<TaskStruct> = (1..=3).map(|i| fair_task(i, 0)).collect();
    for t in tasks.iter_mut() {
        t.sched_class = SchedClass::Deadline;
        t.dl.dl_runtime = 1_000;
        t.dl.dl_period = 4_000;
    }
    tasks[0].dl.dl_deadline = 3_000;
    tasks[1].dl.dl_deadline = 1_000;
    tasks[2].dl.deadline = 2_500;
    let mut dl = trangorge::scheduler::runqueue::DlRq::default();
    dl.enqueue(&mut tasks, 1, 100);
    assert_eq!(tasks[0].dl.deadline, 3_100);
    assert_eq!(tasks[0].dl.replenish_at, 4_100);
    assert_eq!(tasks[0].dl.runtime, 1_000);
    assert_eq!(dl.running_bw, (1_000u64 << 20) / 4_000);
    dl.enqueue(&mut tasks, 2, 100);
    assert_eq!(tasks[1].dl.deadline, 1_100);
    dl.enqueue(&mut tasks, 3, 100);
    assert_eq!(tasks[2].dl.deadline, 2_500);
    assert_eq!(dl.running_bw, 2 * ((1_000u64 << 20) / 4_000));
    assert_eq!(dl.queue, vec![2, 3, 1]);
    assert_eq!(dl.pick_first(), 2);
    assert_eq!(dl.nr_running, 3);
    dl.dequeue(&mut tasks, 2, false);
    assert_eq!(dl.running_bw, 2 * ((1_000u64 << 20) / 4_000));
    dl.dequeue(&mut tasks, 1, true);
    assert_eq!(dl.running_bw, (1_000u64 << 20) / 4_000);
    assert_eq!(dl.queue, vec![3]);
    assert!(!tasks[0].se.on_rq);
    assert_eq!(dl.nr_running, 1);
}

#[test]
fn smp_idle_balance_marks_the_pulled_task() {
    let mut tasks: Vec<TaskStruct> = (1..=5).map(|i| fair_task(i, 10 * i)).collect();
    tasks[0].flags = PF_NO_MIGRATE;
    tasks[1].se.cpus_allowed = CpuMask::single(0);
    let mut rq0 = RunQueue::new(0, 4);
    let mut rq1 = RunQueue::new(1, 5);
    for h in 1..=3 {
        activate(&mut rq0, &mut tasks, h);
    }
    rq1.fair.min_vruntime = 500;
    let mut rqs = vec![rq0, rq1];
    assert!(smp::idle_balance(1, &mut rqs, &mut tasks));
    assert_eq!(rqs[0].fair.queue, vec![2, 3]);
    assert_eq!(rqs[1].fair.queue, vec![1]);
    assert_eq!(tasks[0].se.last_cpu, 1);
    assert_eq!(tasks[0].se.nr_migrations, 1);
    assert_eq!(tasks[0].se.vruntime, 500);
    assert!(tasks[0].se.on_rq);
    assert_eq!(rqs[0].nr_running, 3);
    assert_eq!(rqs[1].nr_running, 0);
    assert_eq!(rqs[1].fair.nr_running, 1);
}

#[test]
fn smp_idle_balance_needs_an_allowed_task_and_a_gap() {
    let mut tasks: Vec<TaskStruct> = (1..=4).map(|i| fair_task(i, 0)).collect();
    tasks[0].se.cpus_allowed = CpuMask::single(0);
    tasks[1].se.cpus_allowed = CpuMask::single(0);
    let mut rq0 = RunQueue::new(0, 3);
    let rq1 = RunQueue::new(1, 4);
    activate(&mut rq0, &mut tasks, 1);
    activate(&mut rq0, &mut tasks, 2);
    let mut rqs = vec![rq0, rq1];
    assert!(!smp::idle_balance(1, &mut rqs, &mut tasks));
    assert_eq!(rqs[0].fair.queue, vec![1, 2]);
    assert!(!smp::idle_balance(0, &mut rqs, &mut tasks));
}

#[test]
fn enqueue_and_dequeue_task_follow_the_class() {
    let mut tasks: Vec<TaskStruct> = (1..=4).map(|i| fair_task(i, 5)).collect();
    tasks[1].sched_class = SchedClass::RealTime;
    tasks[1].prio = 10;
    tasks[2].sched_class = SchedClass::Deadline;
    tasks[2].dl.dl_runtime = 100;
    tasks[2].dl.dl_period = 1000;
    tasks[2].dl.dl_deadline = 800;
    tasks[3].sched_class = SchedClass::Idle;
    let mut rq = RunQueue::new(2, 4);
    rq.fair.min_vruntime = 50;
    rq.advance_clock(7);
    for h in 1..=4 {
        rq.enqueue_task(&mut tasks, h, 0xABC0);
    }
    assert_eq!(rq.nr_running, 4);
    assert!(tasks.iter().all(|t| t.rq == 0xABC0 && t.se.on_rq));
    assert_eq!(rq.fair.queue, vec![1]);
    assert_eq!(tasks[0].se.vruntime, 50);
    assert_eq!(rq.rt.pick_first(), 2);
    assert_eq!(rq.dl.queue, vec![3]);
    assert_eq!(tasks[2].dl.deadline, 807);
    assert_eq!(rq.dl.running_bw, (100u64 << 20) / 1000);
    for h in 1..=4 {
        rq.dequeue_task(&mut tasks, h);
    }
    assert_eq!(rq.nr_running, 0);
    assert!(tasks.iter().all(|t| t.rq == 0 && !t.se.on_rq));
    assert!(rq.fair.queue.is_empty() && rq.dl.queue.is_empty() && rq.rt.is_empty());
    assert_eq!(rq.dl.running_bw, 0);
}
