use trangorge::scheduler::cpumask::CpuMask;
use trangorge::scheduler::topology::{build_sched_domains, TopologyState, SD_NUMA, SD_SHARE_CPUCAPACITY, SD_SHARE_PKG_RESOURCES};

fn mask(cpus: &[u32]) -> CpuMask {
    let mut m = CpuMask::empty();
    for c in cpus {
        m.set(*c);
    }
    m
}

#[test]
fn sched_domains_for_two_cores_of_two_threads() {
    let mut st = TopologyState::empty();
    for c in 0..4u32 {
        let base = c - c % 2;
        st.cpus[c as usize].thread_siblings = mask(&[base, base + 1]);
        st.cpus[c as usize].core_siblings = mask(&[0, 1, 2, 3]);
    }
    st.nodes[0].cpus = mask(&[0, 1, 2, 3]);
    build_sched_domains(&mut st, &mask(&[0, 1, 2, 3]));
    assert_eq!(st.sd_used, 8);
    for c in 0..4usize {
        assert_eq!(st.per_cpu_domains[c], 2 * c + 2);
        let smt = &st.sd_pool[2 * c];
        let mc = &st.sd_pool[2 * c + 1];
        assert_eq!((smt.level, smt.domain_name, smt.cache_nice_tries), (0, "SMT", 1));
        assert!(smt.flags & SD_SHARE_CPUCAPACITY != 0);
        assert_eq!((smt.child, smt.parent), (0, 2 * c + 2));
        assert_eq!((mc.level, mc.domain_name, mc.cache_nice_tries), (1, "MC", 2));
        assert!(mc.flags & SD_SHARE_PKG_RESOURCES != 0);
        assert_eq!((mc.child, mc.parent), (2 * c + 1, 0));
        assert_eq!(mc.span.weight(), 4);
    }
    assert_eq!(st.per_cpu_domains[4], 0);
}

#[test]
fn sched_domains_skip_offline_and_single_cpu_levels() {
    let mut st = TopologyState::empty();
    st.cpus[0].thread_siblings = mask(&[0]);
    st.cpus[0].core_siblings = mask(&[0, 1]);
    st.cpus[1].thread_siblings = mask(&[1]);
    st.cpus[1].core_siblings = mask(&[0, 1]);
    st.nodes[0].cpus = mask(&[0, 1, 2, 3]);
    build_sched_domains(&mut st, &mask(&[1]));
    assert_eq!(st.sd_used, 2);
    assert_eq!(st.per_cpu_domains[0], 0);
    assert_eq!(st.per_cpu_domains[1], 2);
    let mc = &st.sd_pool[0];
    let numa = &st.sd_pool[1];
    assert_eq!((mc.level, mc.domain_name, mc.child, mc.parent), (1, "MC", 0, 2));
    assert_eq!((numa.level, numa.domain_name, numa.child, numa.parent), (2, "NUMA", 1, 0));
    assert!(numa.flags & SD_NUMA != 0);
    assert_eq!(numa.cache_nice_tries, 3);
}
