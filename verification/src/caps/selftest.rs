//! Start-up of the capability system, snapshots and its self-test.
use vstd::prelude::*;
use super::types::{Capability, CapabilitySet, cap_index};
use super::store::{self, init_store, global_caps, world_count, count_used, WorldCaps};
use super::audit::{self, init_audit_log};
use super::defaults::{install_defaults, register_event};
use super::revoke::{revoked_list, revoke_from_world};
use super::grant::grant_cap;
use super::hierarchy::depth;
use super::presets::{standard_user, standard_user_member};
use super::system::{CapSystem, grant_event};

verus! {

/// Start the capability system: empty store and audit trail, then the kernel world.
pub fn init(s: &mut CapSystem) -> (r: Result<(), &'static str>)
    requires
        old(s).wf(),
    ensures
        final(s).wf(),
        r is Ok,
        final(s).store.next_id == old(s).store.next_id.wrapping_add(1),
        final(s).store.worlds@[0] matches Some(w) && w.world_id == old(s).store.next_id
            && w.inherited_from is None && w.revokable && forall|c: Capability| #[trigger] w.caps.holds(c),
        forall|i: int| 0 < i < store::MAX_WORLDS ==> final(s).store.worlds@[i] is None,
        final(s).audit.history@ == seq![register_event(0, old(s).audit.clock, 0)],
        final(s).store.global_revoked == old(s).store.global_revoked,
        final(s).kernel_world == old(s).store.next_id,
{
    init_store(&mut s.store)?;
    init_audit_log(&mut s.audit)?;
    proof {
        store::lemma_first_free_at(s.store.worlds@, 0);
    }
    let r = install_defaults(s);
    proof {
        assert(s.audit.history@ =~= seq![register_event(0, old(s).audit.clock, 0)]);
    }
    r
}

/// Summary of the capability system, for diagnostics and tests.
#[derive(Clone)]
pub struct SystemSnapshot {
    pub global_caps: CapabilitySet,
    pub revoked: Vec<Capability>,
    pub audit_count: usize,
    pub world_count: usize,
}

/// Take a snapshot of the capability system.
pub fn snapshot(s: &CapSystem) -> (r: SystemSnapshot)
    ensures
        r.global_caps@ == Set::new(|i: int| 0 <= i < 30).difference(s.store.global_revoked@),
        forall|c: Capability| r.revoked@.contains(c) <==> s.store.global_revoked.holds(c),
        forall|i: int, j: int| 0 <= i < j < r.revoked.len() ==> cap_index(#[trigger] r.revoked@[i]) < cap_index(#[trigger] r.revoked@[j]),
        r.audit_count == s.audit.total as usize,
        r.world_count == count_used(s.store.worlds@),
{
    SystemSnapshot {
        global_caps: global_caps(&s.store),
        revoked: revoked_list(s),
        audit_count: audit::count(&s.audit),
        world_count: world_count(&s.store),
    }
}


/// The state right after start-up: the kernel world alone, in the first slot,
/// holding every capability; nothing revoked globally; the next identifier unused;
/// a short audit trail.
pub open spec fn freshly_started(s: &CapSystem) -> bool {
    &&& s.store.worlds@[0] matches Some(w) && w.world_id == s.kernel_world && forall|c: Capability|
        #[trigger] w.caps.holds(c)
    &&& forall|i: int| 1 <= i < store::MAX_WORLDS ==> (#[trigger] s.store.worlds@[i]) is None
    &&& s.store.global_revoked@ == Set::<int>::empty()
    &&& s.store.next_id != s.kernel_world
    &&& s.audit.total < 0xFFFF_0000
}

/// What the self-test logs on a freshly started system: the kernel world's grant of
/// `DevMmio` to the test world `wid`, then its revocation.
pub open spec fn self_test_events(a: audit::AuditLog, kw: u32, wid: u32) -> Seq<audit::AuditEvent> {
    seq![
        grant_event(a, kw, wid, Capability::DevMmio),
        audit::AuditEvent {
            seq: (a.total + 1) as u64,
            tick: a.clock,
            world_id: wid,
            target_world: wid,
            cap: Capability::DevMmio,
            kind: audit::EventKind::Revoke,
        },
    ]
}

/// The capabilities that imply `DevPci` or `DevMmio` are the device capability itself,
/// `Driver`, `Ring0` and `Root`.
proof fn lemma_device_ancestors(c: Capability, dev: Capability)
    requires
        dev == Capability::DevPci || dev == Capability::DevMmio,
        crate::caps::hierarchy::implies_spec(c, dev),
    ensures
        c == dev || c == Capability::Driver || c == Capability::Ring0 || c == Capability::Root,
{
    crate::caps::hierarchy::lemma_implies_unfold(c, dev);
    crate::caps::hierarchy::lemma_implies_unfold(c, Capability::Driver);
    crate::caps::hierarchy::lemma_implies_unfold(c, Capability::Ring0);
    crate::caps::hierarchy::lemma_implies_unfold(c, Capability::Root);
}

/// Exercise the capability system end to end: set algebra, the hierarchy, a
/// temporary user world (registration, the parent limit on a child, a grant from
/// the kernel world and its revocation) and the audit trail. The temporary world is
/// unregistered afterwards.
pub fn self_test(s: &mut CapSystem) -> (r: Result<&'static str, &'static str>)
    requires
        old(s).wf(),
        old(s).audit.total + 2 < u64::MAX,
    ensures
        final(s).wf(),
        r == Ok::<&'static str, &'static str>("sets+hierarchy+store+grant/revoke+audit") || r == Err::<
            &'static str,
            &'static str,
        >("store: register_world failed") || r == Err::<&'static str, &'static str>(
            "capability self-check failed",
        ),
        store::first_free(old(s).store.worlds@) == store::MAX_WORLDS ==> r == Err::<&'static str, &'static str>(
            "store: register_world failed",
        ),
        store::first_free(old(s).store.worlds@) < store::MAX_WORLDS ==> r != Err::<&'static str, &'static str>(
            "store: register_world failed",
        ),
        final(s).store.global_revoked == old(s).store.global_revoked,
        final(s).kernel_world == old(s).kernel_world,
        final(s).current_world == old(s).current_world,
        final(s).temp == old(s).temp,
        freshly_started(old(s)) ==> r == Ok::<&'static str, &'static str>("sets+hierarchy+store+grant/revoke+audit"),
        freshly_started(old(s)) ==> final(s).store.worlds@ == old(s).store.worlds@,
        freshly_started(old(s)) ==> final(s).store.next_id == old(s).store.next_id.wrapping_add(1),
        freshly_started(old(s)) ==> final(s).audit.history@ == old(s).audit.history@ + self_test_events(
            old(s).audit,
            old(s).kernel_world,
            old(s).store.next_id,
        ),
{
    let ghost fresh = freshly_started(s);
    let ghost s0 = *s;
    proof {
        if fresh {
            store::lemma_first_free_at(s.store.worlds@, 1);
        }
    }
    let a = CapabilitySet::empty().add(Capability::User);
    let b = CapabilitySet::single(Capability::Driver);
    let u = a.union(b);
    proof {
        assert(u@ =~= Set::<int>::empty().insert(3).insert(2));
        assert(Set::<int>::empty().insert(3).len() == 1);
        assert(Set::<int>::empty().insert(3).insert(2).len() == 2);
    }
    let mut ok = u.count() == 2;
    let i = a.intersect(b);
    assert(i@ =~= Set::<int>::empty());
    ok = ok && i.is_empty();
    ok = ok && CapabilitySet::all().contains(a);
    proof {
        crate::caps::hierarchy::law_root_implies_all(Capability::DevPci);
        crate::caps::hierarchy::lemma_implies_unfold(Capability::DevPci, Capability::Driver);
        crate::caps::hierarchy::lemma_implies_unfold(Capability::DevPci, Capability::Ring0);
        crate::caps::hierarchy::lemma_implies_unfold(Capability::DevPci, Capability::Root);
    }
    ok = ok && crate::caps::hierarchy::implies(Capability::Root, Capability::DevPci);
    ok = ok && !crate::caps::hierarchy::implies(Capability::DevPci, Capability::Driver);
    ok = ok && depth(Capability::DevPci) == 3;
    let std_caps = standard_user();
    let wid = match store::register_world(&mut s.store, None, std_caps) {
        Ok(id) => id,
        Err(_) => return Err("store: register_world failed"),
    };
    let ghost nw = s.store.worlds@[1];
    proof {
        if fresh {
            assert(s.store.worlds@ == s0.store.worlds@.update(1, nw));
            assert(!store::slot_matches(s.store.worlds@[0], wid));
            store::lemma_first_match_at(s.store.worlds@, wid, 1);
            store::lemma_first_match_at(s.store.worlds@, s.kernel_world, 0);
            assert(s.store.world(wid) == nw);
            crate::caps::hierarchy::law_implies_reflexive(Capability::FsRead);
            assert(s.store.effective(nw->0) =~= nw->0.caps@);
            assert(nw->0.caps == std_caps);
            assert(standard_user_member(Capability::FsRead));
            assert(std_caps.holds(Capability::FsRead));
            assert(s.store.effective(nw->0).contains(cap_index(Capability::FsRead)));
            assert forall|c: Capability| s.store.effective(nw->0).contains(cap_index(c)) implies !#[trigger] crate::caps::hierarchy::implies_spec(c, Capability::DevPci) by {
                assert(std_caps.holds(c) == standard_user_member(c));
                if crate::caps::hierarchy::implies_spec(c, Capability::DevPci) {
                    lemma_device_ancestors(c, Capability::DevPci);
                }
            }
        }
    }
    ok = ok && store::world_has_cap(&s.store, wid, Capability::FsRead);
    ok = ok && !store::world_has_cap(&s.store, wid, Capability::DevPci);
    let refused = store::register_world(&mut s.store, Some(wid), CapabilitySet::single(Capability::DevPci)).is_err();
    ok = ok && refused;
    let kw = super::check::kernel_world_id(s);
    let ghost mmio = cap_index(Capability::DevMmio);
    proof {
        if fresh {
            crate::caps::hierarchy::law_implies_reflexive(Capability::DevMmio);
            assert(s.store.world(kw) == s0.store.worlds@[0]);
            assert(s0.store.worlds@[0]->0.caps.holds(Capability::DevMmio));
            assert(s.store.effective(s.store.world(kw)->0).contains(mmio));
            assert(s.store.has_cap_spec(kw, Capability::DevMmio));
            assert(s.store.world(wid) == nw);
            assert(nw->0.inherited_from is None);
            assert(s.store.grant_ok(wid, Capability::DevMmio));
        }
    }
    let ghost w1 = s.store.worlds@;
    let ghost a1 = s.audit;
    let granted = grant_cap(s, kw, wid, Capability::DevMmio).is_ok();
    ok = ok && granted;
    proof {
        if fresh {
            assert(w1 == s0.store.worlds@.update(1, nw));
            store::lemma_first_match_at(w1, wid, 1);
            let w2 = s.store.worlds@;
            assert(w2 == w1.update(1, s.store.world(wid)));
            store::lemma_first_match(w2, wid);
            assert(!store::slot_matches(w2[0], wid));
            store::lemma_first_match_at(w2, wid, 1);
        }
    }
    let ghost after_grant = s.store.world(wid);
    proof {
        if fresh {
            assert(after_grant->0.caps@ == std_caps@.insert(mmio));
            assert(s.store.effective(after_grant->0) =~= after_grant->0.caps@);
            assert(s.store.effective(after_grant->0).contains(mmio));
            assert(s.store.has_cap_spec(wid, Capability::DevMmio));
            assert(s.store.revokable_world(wid));
        }
    }
    ok = ok && store::world_has_cap(&s.store, wid, Capability::DevMmio);
    let ghost w2 = s.store.worlds@;
    let ghost a2 = s.audit;
    let revoked = revoke_from_world(s, wid, Capability::DevMmio).is_ok();
    ok = ok && revoked;
    proof {
        if fresh {
            let w3 = s.store.worlds@;
            assert(w3 == w2.update(1, s.store.world(wid)));
            store::lemma_first_match(w3, wid);
            assert(!store::slot_matches(w3[0], wid));
            store::lemma_first_match_at(w3, wid, 1);
            assert(s.audit.history@ =~= s0.audit.history@ + self_test_events(s0.audit, s0.kernel_world, wid));
        }
    }
    proof {
        if fresh {
            let w = s.store.world(wid)->0;
            after_grant->0.caps.lemma_remove_spec(Capability::DevMmio);
            assert(!standard_user_member(Capability::DevMmio));
            assert(!std_caps.holds(Capability::DevMmio));
            assert(w.caps@ =~= std_caps@);
            assert(s.store.effective(w) =~= std_caps@);
            assert forall|c: Capability| s.store.effective(w).contains(cap_index(c)) implies !#[trigger] crate::caps::hierarchy::implies_spec(c, Capability::DevMmio) by {
                assert(std_caps.holds(c) == standard_user_member(c));
                if crate::caps::hierarchy::implies_spec(c, Capability::DevMmio) {
                    lemma_device_ancestors(c, Capability::DevMmio);
                }
            }
            assert(s.audit.total > 0);
            assert(s.audit.total <= s0.audit.total + 2);
        }
    }
    ok = ok && !store::world_has_cap(&s.store, wid, Capability::DevMmio);
    ok = ok && audit::count(&s.audit) > 0;
    let ghost w3 = s.store.worlds@;
    let _ = store::unregister_world(&mut s.store, wid);
    proof {
        if fresh {
            assert(s.store.worlds@ =~= s0.store.worlds@);
        }
    }
    if ok {
        Ok("sets+hierarchy+store+grant/revoke+audit")
    } else {
        Err("capability self-check failed")
    }
}

} // verus!
