use trangorge::caps::audit::{self, AuditLog, EventKind};
use trangorge::caps::check;
use trangorge::caps::grant;
use trangorge::caps::hierarchy::{self, depth, expand_hierarchy, set_implies};
use trangorge::caps::presets;
use trangorge::caps::revoke;
use trangorge::caps::selftest::{init, self_test, snapshot};
use trangorge::caps::store::{self, StoreInner};
use trangorge::caps::system::CapSystem;
use trangorge::caps::types::{Capability, CapabilitySet, CapCategory};

fn started() -> CapSystem {
    let mut s = CapSystem::new();
    init(&mut s).unwrap();
    s
}

#[test]
fn test_audit() {
    let mut a = AuditLog::new();
    audit::init_audit_log(&mut a).unwrap();

    audit::log_check(&mut a, 1, Capability::User, true);
    audit::log_check(&mut a, 1, Capability::Driver, false);
    audit::log_grant(&mut a, 0, 1, Capability::User, true);

    assert_eq!(audit::count(&a), 3);
    assert_eq!(audit::deny_count(&a), 1);

    let r = audit::recent(&a, 3);
    assert_eq!(r.len(), 3);
}

#[test]
fn test_require() {
    let mut s = started();
    let wid = store::register_world(&mut s.store, None, presets::standard_user()).unwrap();
    assert!(store::world_has_cap(&s.store, wid, Capability::User));
    assert!(!store::world_has_cap(&s.store, wid, Capability::Driver));
}

#[test]
fn test_inherit() {
    let mut s = started();
    let parent = store::register_world(&mut s.store, None, presets::privileged_user()).unwrap();
    let child_set = grant::inherit_set(&s, parent);

    assert!(child_set.has(Capability::User));
    assert!(child_set.has(Capability::Spawn));
    assert!(!child_set.has(Capability::Admin));
    assert!(!child_set.has(Capability::SyscallAll));
}

#[test]
fn test_hierarchy() {
    assert!(hierarchy::implies(Capability::Root, Capability::Driver));
    assert!(hierarchy::implies(Capability::Driver, Capability::DevPci));
    assert!(!hierarchy::implies(Capability::DevPci, Capability::Driver));

    let driver_set = CapabilitySet::single(Capability::Driver);
    assert!(set_implies(driver_set, Capability::DevPci));
    assert!(!set_implies(driver_set, Capability::Admin));

    let expanded = expand_hierarchy(CapabilitySet::single(Capability::DevPci));
    assert!(expanded.has(Capability::DevPci));
    assert!(expanded.has(Capability::Driver));
    assert!(expanded.has(Capability::Ring0));
    assert!(expanded.has(Capability::Root));
}

#[test]
fn test_depth() {
    assert_eq!(depth(Capability::Root), 0);
    assert_eq!(depth(Capability::Driver), 2);
    assert_eq!(depth(Capability::DevPci), 3);
}

#[test]
fn test_revoke() {
    let mut s = started();
    let wid = store::register_world(&mut s.store, None, presets::driver()).unwrap();
    assert!(store::world_has_cap(&s.store, wid, Capability::DevPci));

    revoke::revoke_from_world(&mut s, wid, Capability::Driver).unwrap();

    assert!(!store::world_has_cap(&s.store, wid, Capability::Driver));
}

#[test]
fn test_world_registration() {
    let mut st = StoreInner::new();
    store::init_store(&mut st).unwrap();

    let wid = store::register_world(&mut st, None, presets::standard_user()).unwrap();
    assert!(store::world_has_cap(&st, wid, Capability::User));
    assert!(!store::world_has_cap(&st, wid, Capability::Driver));

    let child_result = store::register_world(&mut st, Some(wid), CapabilitySet::single(Capability::DevPci));
    assert!(child_result.is_err());
}

#[test]
fn test_hierarchy_enforcement() {
    let mut s = started();
    let parent = store::register_world(&mut s.store, None, presets::standard_user()).unwrap();
    let bad = store::register_world(&mut s.store, Some(parent), CapabilitySet::single(Capability::DevPci));
    assert!(bad.is_err());
}

#[test]
fn test_global_revocation() {
    let mut s = started();
    let wid = store::register_world(&mut s.store, None, presets::driver()).unwrap();
    assert!(store::world_has_cap(&s.store, wid, Capability::Dma));

    revoke::revoke_global(&mut s, Capability::Dma);
    assert!(!store::world_has_cap(&s.store, wid, Capability::Dma));

    revoke::restore_global(&mut s, Capability::Dma);
    assert!(store::world_has_cap(&s.store, wid, Capability::Dma));
}

#[test]
fn test_audit_trail() {
    let mut s = started();
    let wid = store::register_world(&mut s.store, None, presets::standard_user()).unwrap();
    store::world_has_cap(&s.store, wid, Capability::User);
    assert!(audit::count(&s.audit) > 0);
}

#[test]
fn test_set_operations() {
    let s1 = CapabilitySet::empty().add(Capability::Root);
    let s2 = CapabilitySet::empty().add(Capability::Driver);

    assert!(s1.has(Capability::Root));
    assert!(!s1.has(Capability::Driver));
    assert_eq!(s1.union(s2).count(), 2);
    assert_eq!(s1.intersect(s2).count(), 0);
}

#[test]
fn capability_ids_names_and_categories() {
    assert_eq!(Capability::DevPci.id(), 24);
    assert_eq!(Capability::DevPci.bit(), 1 << 24);
    assert_eq!(Capability::IpcBroadcast.name(), "IPC_BROADCAST");
    assert_eq!(Capability::Sched.category(), CapCategory::Process);
    assert_eq!(CapCategory::Fs.name(), "Filesystem");
    assert_eq!(Capability::iter_all().len(), 30);
    let set = CapabilitySet::from_bits(0b1010);
    assert_eq!(set.bits(), 0b1010);
    assert_eq!(set.iter(), vec![Capability::Ring0, Capability::User]);
    assert!(CapabilitySet::all().contains(set));
    assert!(!set.contains(CapabilitySet::all()));
    assert!(set.diff(set).is_empty());
    assert_eq!(CapabilitySet::all().count(), 30);
}

#[test]
fn hierarchy_paths_and_subtrees() {
    assert_eq!(
        hierarchy::path_to_root(Capability::Ptrace),
        vec![Capability::Root, Capability::Ring0, Capability::Admin, Capability::Debug, Capability::Ptrace]
    );
    let sub = hierarchy::subtree(Capability::Admin);
    assert_eq!(sub[0], Capability::Admin);
    assert_eq!(sub.len(), 5);
    assert!(sub.contains(&Capability::Ptrace));
    assert!(!sub.contains(&Capability::Driver));
    assert_eq!(hierarchy::parent(Capability::Kill), Some(Capability::User));
    assert!(hierarchy::can_delegate(presets::standard_user(), Capability::FsCreate));
}

#[test]
fn store_errors_and_counts() {
    let mut s = started();
    assert_eq!(store::world_count(&s.store), 1);
    assert_eq!(store::get_world_caps(&s.store, 999).err(), Some("world not found"));
    assert_eq!(store::unregister_world(&mut s.store, 999), Err("world not found"));
    let k = check::kernel_world_id(&s);
    let child = grant::spawn_child(&mut s, k).unwrap();
    assert!(store::world_has_cap(&s.store, child, Capability::User));
    assert!(store::world_has_cap(&s.store, child, Capability::Admin));
    assert_eq!(store::set_world_caps(&mut s.store, child, presets::kernel()), Ok(()));
    let user = store::register_world(&mut s.store, Some(k), presets::standard_user()).unwrap();
    let grandchild = store::register_world(&mut s.store, Some(user), CapabilitySet::single(Capability::FsRead)).unwrap();
    assert_eq!(
        store::set_world_caps(&mut s.store, grandchild, presets::kernel()),
        Err("cannot grant capability exceeding parent")
    );
    store::unregister_world(&mut s.store, grandchild).unwrap();
    store::unregister_world(&mut s.store, user).unwrap();
    assert_eq!(store::world_count(&s.store), 2);
    assert_eq!(store::iter_worlds(&s.store).len(), 2);
    store::unregister_world(&mut s.store, child).unwrap();
    assert_eq!(store::world_count(&s.store), 1);
}

#[test]
fn require_and_temporary_grants() {
    let mut s = started();
    let k = check::kernel_world_id(&s);
    let u = store::register_world(&mut s.store, Some(k), presets::standard_user()).unwrap();
    check::set_current_world(&mut s, u);
    assert!(check::require_cap(&mut s, Capability::FsRead).is_ok());
    let e = check::require_cap(&mut s, Capability::DevIrq).unwrap_err();
    assert_eq!(e.required, Capability::DevIrq);
    assert_eq!(e.world_id, Some(u));
    assert!(check::require_caps(&mut s, &[Capability::User, Capability::Admin]).is_err());
    assert_eq!(check::if_cap(&s, Capability::Admin, || 1, 2), 2);
    assert_eq!(check::with_cap(&mut s, Capability::User, || 7).unwrap(), 7);

    s.tick = 100;
    grant::grant_temporary(&mut s, k, u, Capability::DevMmio, 10).unwrap();
    assert!(grant::is_temporary(&s, u, Capability::DevMmio));
    assert!(store::world_has_cap(&s.store, u, Capability::DevMmio));
    s.tick = 109;
    grant::prune_expired(&mut s);
    assert!(store::world_has_cap(&s.store, u, Capability::DevMmio));
    s.tick = 110;
    grant::prune_expired(&mut s);
    assert!(!store::world_has_cap(&s.store, u, Capability::DevMmio));
    assert!(!grant::is_temporary(&s, u, Capability::DevMmio));
}

#[test]
fn lockdown_and_global_lists() {
    let mut s = started();
    let w = store::register_world(&mut s.store, None, presets::privileged_user()).unwrap();
    revoke::lockdown(&mut s, w);
    let caps = store::get_world_caps(&s.store, w).unwrap();
    assert_eq!(caps.iter(), vec![Capability::User, Capability::IpcRecv, Capability::FsRead]);
    revoke::revoke_global(&mut s, Capability::Kill);
    assert!(revoke::is_globally_revoked(&s, Capability::Kill));
    assert_eq!(revoke::revoked_list(&s), vec![Capability::Kill]);
    let snap = snapshot(&s);
    assert_eq!(snap.revoked, vec![Capability::Kill]);
    assert_eq!(snap.world_count, 2);
    assert_eq!(snap.global_caps.count(), 29);
    assert_eq!(audit::by_kind(&s.audit, EventKind::Revoke, 10).len(), 2);
    assert_eq!(audit::by_world(&s.audit, w, 10).len(), 1);
}

#[test]
fn install_defaults_records_kernel_world() {
    let s = started();
    let k = check::kernel_world_id(&s);
    assert_eq!(k, 1);
    for c in Capability::iter_all() {
        assert!(store::world_has_cap(&s.store, k, c));
    }
}

#[test]
fn recent_gives_at_most_the_ring() {
    let mut a = AuditLog::new();
    audit::init_audit_log(&mut a).unwrap();
    for i in 0..3000u32 {
        audit::log_check(&mut a, i, Capability::User, i % 3 != 0);
    }
    assert_eq!(audit::count(&a), 3000);
    let r = audit::recent(&a, 3000);
    assert_eq!(r.len(), 2048);
    for (i, e) in r.iter().enumerate() {
        assert_eq!(e.seq, 2999 - i as u64);
    }
    assert_eq!(audit::recent(&a, 5).len(), 5);
    assert_eq!(audit::recent(&a, 0).len(), 0);
}

#[test]
fn deny_count_grows_with_each_denial() {
    let mut a = AuditLog::new();
    audit::init_audit_log(&mut a).unwrap();
    audit::log_check(&mut a, 1, Capability::User, false);
    assert_eq!(audit::deny_count(&a), 1);
    audit::log_check(&mut a, 1, Capability::User, true);
    assert_eq!(audit::deny_count(&a), 1);
    audit::log_check(&mut a, 2, Capability::Driver, false);
    assert_eq!(audit::deny_count(&a), 2);
}

#[test]
fn self_test_restores_the_store() {
    let mut s = started();
    let before = store::world_count(&s.store);
    let next = s.store.next_id;
    let logged = audit::count(&s.audit);
    let kernel = check::kernel_world_id(&s);
    assert!(self_test(&mut s).is_ok());
    assert_eq!(store::world_count(&s.store), before);
    assert_eq!(s.store.next_id, next + 1);
    assert_eq!(audit::count(&s.audit), logged + 2);
    let r = audit::recent(&s.audit, 2);
    assert_eq!(r[0].kind, EventKind::Revoke);
    assert_eq!(r[1].kind, EventKind::Grant);
    assert_eq!(r[0].cap, Capability::DevMmio);
    assert_eq!(check::kernel_world_id(&s), kernel);
}

#[test]
fn temporary_caps_are_undone_on_a_child_world() {
    let mut s = started();
    let k = check::kernel_world_id(&s);
    let u = store::register_world(&mut s.store, Some(k), presets::standard_user().add(Capability::Admin)).unwrap();
    check::set_current_world(&mut s, u);
    let saved = store::get_world_caps(&s.store, u).unwrap();
    let t = check::TemporaryCaps::enter(&mut s, CapabilitySet::single(Capability::DevPci)).unwrap();
    assert!(store::world_has_cap(&s.store, u, Capability::DevPci));
    t.release(&mut s);
    assert!(store::get_world_caps(&s.store, u).unwrap() == saved);
    assert!(!store::world_has_cap(&s.store, u, Capability::DevPci));
}

#[test]
fn hierarchy_laws_on_examples() {
    assert_eq!(hierarchy::subtree(Capability::Root).len(), 30);
    let path = hierarchy::path_to_root(Capability::DevPci);
    for c in Capability::iter_all() {
        assert_eq!(hierarchy::implies(c, Capability::DevPci), path.contains(&c));
    }
    let e = expand_hierarchy(CapabilitySet::single(Capability::DevPci));
    assert_eq!(e.iter(), vec![Capability::Root, Capability::Ring0, Capability::Driver, Capability::DevPci]);
    assert!(expand_hierarchy(e) == e);
    let s = presets::standard_user();
    assert_eq!(s.iter().len(), s.count());
}

#[test]
fn unregister_removes_one_world() {
    let mut s = started();
    let w = store::register_world(&mut s.store, None, presets::standard_user()).unwrap();
    let n = store::world_count(&s.store);
    store::unregister_world(&mut s.store, w).unwrap();
    assert_eq!(store::world_count(&s.store), n - 1);
    assert!(store::get_world_caps(&s.store, w).is_err());
    assert!(store::unregister_world(&mut s.store, w).is_err());
}

#[test]
fn delegation_grants_in_order_and_stops_at_the_first_refusal() {
    let mut s = started();
    let k = check::kernel_world_id(&s);
    let drv = store::register_world(&mut s.store, Some(k), presets::driver()).unwrap();
    let usr = store::register_world(&mut s.store, None, presets::standard_user()).unwrap();
    let logged = audit::count(&s.audit);
    let set = CapabilitySet::single(Capability::DevPci).add(Capability::Dma);
    assert!(grant::delegate_caps(&mut s, drv, usr, set).is_ok());
    assert!(store::world_has_cap(&s.store, usr, Capability::DevPci));
    assert!(store::world_has_cap(&s.store, usr, Capability::Dma));
    assert_eq!(audit::count(&s.audit), logged + 2);
    let r = audit::recent(&s.audit, 2);
    assert_eq!((r[1].cap, r[0].cap), (Capability::Dma, Capability::DevPci));
    let other = store::register_world(&mut s.store, None, presets::standard_user()).unwrap();
    let mixed = CapabilitySet::single(Capability::DevPci).add(Capability::Dma).add(Capability::Ptrace);
    let before = audit::count(&s.audit);
    let e = grant::delegate_caps(&mut s, drv, other, mixed).unwrap_err();
    assert_eq!(e.required, Capability::Ptrace);
    assert_eq!(e.world_id, Some(drv));
    assert!(store::world_has_cap(&s.store, other, Capability::Dma));
    assert!(!store::world_has_cap(&s.store, other, Capability::Ptrace));
    assert!(!store::world_has_cap(&s.store, other, Capability::DevPci));
    assert_eq!(audit::count(&s.audit), before + 1);
}

#[test]
fn ring_worlds_under_a_parent() {
    let mut s = started();
    let k = check::kernel_world_id(&s);
    let w = trangorge::caps::defaults::register_for_ring(&mut s, 1, Some(k)).unwrap();
    assert!(store::world_has_cap(&s.store, w, Capability::DevPci));
    let u = store::register_world(&mut s.store, None, presets::standard_user()).unwrap();
    assert_eq!(
        trangorge::caps::defaults::register_for_ring(&mut s, 1, Some(u)),
        Err("child capability exceeds parent")
    );
    assert_eq!(trangorge::caps::defaults::register_for_ring(&mut s, 3, Some(9999)), Err("world not found"));
    assert!(trangorge::caps::defaults::register_for_ring(&mut s, 3, Some(u)).is_ok());
}

#[test]
fn policy_is_asked_only_after_the_capability_check() {
    let mut s = started();
    let u = store::register_world(&mut s.store, None, presets::standard_user()).unwrap();
    assert!(trangorge::caps::policy::policy_needed(&s, u, Capability::FsRead));
    assert!(!trangorge::caps::policy::policy_needed(&s, u, Capability::DevPci));
    assert!(trangorge::caps::policy::enforce(&s, u, Capability::FsRead, true).is_ok());
    assert!(trangorge::caps::policy::enforce(&s, u, Capability::FsRead, false).is_err());
}

#[test]
fn temporary_caps_refused_beyond_the_parent() {
    let mut s = started();
    let p = store::register_world(&mut s.store, None, presets::standard_user().add(Capability::Admin)).unwrap();
    let c = store::register_world(&mut s.store, Some(p), presets::standard_user().add(Capability::Admin)).unwrap();
    check::set_current_world(&mut s, c);
    let logged = audit::count(&s.audit);
    let e = check::TemporaryCaps::enter(&mut s, CapabilitySet::single(Capability::DevPci)).err().unwrap();
    assert_eq!(e.required, Capability::Admin);
    assert_eq!(audit::count(&s.audit), logged + 1);
    assert!(!store::world_has_cap(&s.store, c, Capability::DevPci));
}
