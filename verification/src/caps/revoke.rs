//! Taking capabilities away: from one world, a whole subtree, or from everybody.
use vstd::prelude::*;
use super::types::{Capability, CapabilitySet, CapabilityError, CapResult, cap_index, lemma_cap_index};
use super::hierarchy::{implies_spec, subtree};
use super::store::{self, remove_world_cap, global_caps, add_global_revoked, remove_global_revoked};
use super::audit::log_revoke;
use super::system::{CapSystem, revoke_event};

verus! {

/// Take `cap` from world `world_id`.
pub fn revoke_from_world(s: &mut CapSystem, world_id: u32, cap: Capability) -> (r: CapResult<()>)
    requires
        old(s).wf(),
        old(s).audit.total < u64::MAX,
    ensures
        final(s).wf(),
        final(s).temp == old(s).temp,
        final(s).current_world == old(s).current_world,
        final(s).kernel_world == old(s).kernel_world,
        final(s).store.global_revoked == old(s).store.global_revoked,
        (r is Ok) == old(s).store.revokable_world(world_id),
        r is Err ==> r == Err::<(), CapabilityError>(
            CapabilityError { required: cap, world_id: Some(world_id) },
        ) && final(s).store == old(s).store && final(s).audit == old(s).audit,
        r is Ok ==> final(s).store.world(world_id) == Some(
            store::WorldCaps {
                caps: old(s).store.world(world_id)->0.caps.remove_spec(cap),
                ..old(s).store.world(world_id)->0
            },
        ) && final(s).audit.history@ == old(s).audit.history@.push(
            revoke_event(old(s).audit, world_id, cap),
        ),
        forall|other: u32|
            other != world_id ==> #[trigger] final(s).store.world(other) == old(s).store.world(other),
        r is Ok ==> final(s).store.worlds@ == old(s).store.worlds@.update(
            super::store::first_match(old(s).store.worlds@, world_id),
            final(s).store.world(world_id),
        ),
        r is Ok ==> final(s).audit.total == old(s).audit.total + 1,
        final(s).store.next_id == old(s).store.next_id,
{
    match remove_world_cap(&mut s.store, world_id, cap) {
        Ok(()) => {},
        Err(_) => {
            return Err(CapabilityError { required: cap, world_id: Some(world_id) });
        },
    }
    log_revoke(&mut s.audit, world_id, cap, true);
    Ok(())
}

/// Take `cap` and everything below it from world `world_id`.
pub fn revoke_subtree(s: &mut CapSystem, world_id: u32, cap: Capability) -> (r: CapResult<()>)
    requires
        old(s).wf(),
        old(s).audit.total < u64::MAX,
    ensures
        final(s).wf(),
        r is Ok,
        final(s).temp == old(s).temp,
        final(s).store.global_revoked == old(s).store.global_revoked,
        forall|other: u32|
            other != world_id ==> #[trigger] final(s).store.world(other) == old(s).store.world(other),
        old(s).store.revokable_world(world_id) ==> final(s).store.world(world_id) is Some
            && final(s).store.world(world_id)->0.inherited_from == old(s).store.world(world_id)->0.inherited_from
            && forall|c: Capability| #[trigger] final(s).store.world(world_id)->0.caps.holds(c) == (old(
                s,
            ).store.world(world_id)->0.caps.holds(c) && !implies_spec(cap, c)),
        !old(s).store.revokable_world(world_id) ==> final(s).store == old(s).store,
        final(s).audit.history@ == old(s).audit.history@.push(revoke_event(old(s).audit, world_id, cap)),
{
    let list = subtree(cap);
    let mut i: usize = 0;
    while i < list.len()
        invariant
            s.wf(),
            i <= list.len(),
            forall|c: Capability| list@.contains(c) <==> implies_spec(cap, c),
            s.audit == old(s).audit,
            s.temp == old(s).temp,
            s.store.global_revoked == old(s).store.global_revoked,
            forall|other: u32|
                other != world_id ==> #[trigger] s.store.world(other) == old(s).store.world(other),
            old(s).store.revokable_world(world_id) ==> s.store.world(world_id) is Some
                && s.store.world(world_id)->0.revokable
                && s.store.world(world_id)->0.inherited_from == old(s).store.world(world_id)->0.inherited_from
                && forall|c: Capability| #[trigger] s.store.world(world_id)->0.caps.holds(c) == (old(
                    s,
                ).store.world(world_id)->0.caps.holds(c) && !exists|j: int| 0 <= j < i && list@[j] == c),
            !old(s).store.revokable_world(world_id) ==> s.store == old(s).store,
        decreases list.len() - i,
    {
        let c = list[i];
        let ghost before = s.store;
        let _ = remove_world_cap(&mut s.store, world_id, c);
        proof {
            if old(s).store.revokable_world(world_id) {
                let wb = before.world(world_id)->0;
                wb.caps.lemma_remove_spec(c);
                assert(s.store.world(world_id)->0.caps == wb.caps.remove_spec(c));
                assert forall|d: Capability| #[trigger] s.store.world(world_id)->0.caps.holds(d) == (old(
                    s,
                ).store.world(world_id)->0.caps.holds(d) && !exists|j: int| 0 <= j < i + 1 && list@[j] == d) by {
                    lemma_cap_index(d);
                    lemma_cap_index(c);
                    assert(s.store.world(world_id)->0.caps.holds(d) == (wb.caps.holds(d) && cap_index(d) != cap_index(c)));
                    if cap_index(d) == cap_index(c) {
                        super::types::lemma_cap_at(cap_index(d));
                        assert(list@[i as int] == d);
                    } else {
                        if exists|j: int| 0 <= j < i + 1 && list@[j] == d {
                            let j = choose|j: int| 0 <= j < i + 1 && list@[j] == d;
                            assert(j < i);
                        }
                    }
                }
            }
        }
        i = i + 1;
    }
    proof {
        if old(s).store.revokable_world(world_id) {
            assert forall|c: Capability| #[trigger] s.store.world(world_id)->0.caps.holds(c) == (old(
                s,
            ).store.world(world_id)->0.caps.holds(c) && !implies_spec(cap, c)) by {
                if implies_spec(cap, c) {
                    assert(list@.contains(c));
                }
                if exists|j: int| 0 <= j < i && list@[j] == c {
                    let j = choose|j: int| 0 <= j < i && list@[j] == c;
                    assert(list@.contains(c));
                }
            }
        }
    }
    log_revoke(&mut s.audit, world_id, cap, true);
    Ok(())
}

/// Revoke `cap` from every world.
pub fn revoke_global(s: &mut CapSystem, cap: Capability)
    requires
        old(s).wf(),
        old(s).audit.total < u64::MAX,
    ensures
        final(s).wf(),
        final(s).store.global_revoked@ == old(s).store.global_revoked@.insert(cap_index(cap)),
        final(s).store.worlds == old(s).store.worlds,
        final(s).audit.history@ == old(s).audit.history@.push(revoke_event(old(s).audit, 0, cap)),
        final(s).temp == old(s).temp,
{
    add_global_revoked(&mut s.store, cap);
    log_revoke(&mut s.audit, 0, cap, true);
}

/// Lift the global revocation of `cap`.
pub fn restore_global(s: &mut CapSystem, cap: Capability)
    requires
        old(s).wf(),
    ensures
        final(s).wf(),
        final(s).store.global_revoked@ == old(s).store.global_revoked@.remove(cap_index(cap)),
        final(s).store.worlds == old(s).store.worlds,
        final(s).audit == old(s).audit,
        final(s).temp == old(s).temp,
{
    remove_global_revoked(&mut s.store, cap);
}

/// The globally revoked capabilities, in identifier order.
pub fn revoked_list(s: &CapSystem) -> (r: Vec<Capability>)
    ensures
        forall|c: Capability| r@.contains(c) <==> s.store.global_revoked.holds(c),
        forall|i: int, j: int| 0 <= i < j < r.len() ==> cap_index(#[trigger] r@[i]) < cap_index(#[trigger] r@[j]),
{
    let revoked = CapabilitySet::all().diff(global_caps(&s.store));
    let list = revoked.iter();
    proof {
        assert forall|c: Capability| list@.contains(c) <==> s.store.global_revoked.holds(c) by {
            lemma_cap_index(c);
            assert(list@.contains(c) <==> revoked.holds(c));
        }
    }
    list
}

/// `cap` is revoked from everybody.
pub fn is_globally_revoked(s: &CapSystem, cap: Capability) -> (r: bool)
    ensures
        r == s.store.global_revoked.holds(cap),
{
    proof {
        lemma_cap_index(cap);
    }
    !global_caps(&s.store).has(cap)
}

/// Capabilities a world keeps under lockdown.
pub open spec fn kept_in_lockdown(c: Capability) -> bool {
    c == Capability::User || c == Capability::FsRead || c == Capability::IpcRecv
}

/// Strip world `world_id` down to `User`, `FsRead` and `IpcRecv`.
pub fn lockdown(s: &mut CapSystem, world_id: u32)
    requires
        old(s).wf(),
        old(s).audit.total < u64::MAX,
    ensures
        final(s).wf(),
        final(s).temp == old(s).temp,
        final(s).store.global_revoked == old(s).store.global_revoked,
        forall|other: u32|
            other != world_id ==> #[trigger] final(s).store.world(other) == old(s).store.world(other),
        old(s).store.revokable_world(world_id) ==> final(s).store.world(world_id) is Some
            && forall|c: Capability| #[trigger] final(s).store.world(world_id)->0.caps.holds(c) == (old(
                s,
            ).store.world(world_id)->0.caps.holds(c) && kept_in_lockdown(c)),
        !old(s).store.revokable_world(world_id) ==> final(s).store == old(s).store,
        final(s).audit.history@ == old(s).audit.history@.push(
            revoke_event(old(s).audit, world_id, Capability::Root),
        ),
{
    let keep = CapabilitySet::empty().add(Capability::User).add(Capability::FsRead).add(Capability::IpcRecv);
    proof {
        assert forall|c: Capability| keep.holds(c) == kept_in_lockdown(c) by {
            lemma_cap_index(c);
        }
    }
    let all = Capability::iter_all();
    let mut i: usize = 0;
    while i < all.len()
        invariant
            s.wf(),
            i <= all.len(),
            all.len() == 30,
            forall|t: int| 0 <= t < 30 ==> cap_index(#[trigger] all@[t]) == t,
            forall|c: Capability| keep.holds(c) == kept_in_lockdown(c),
            s.audit == old(s).audit,
            s.temp == old(s).temp,
            s.store.global_revoked == old(s).store.global_revoked,
            forall|other: u32|
                other != world_id ==> #[trigger] s.store.world(other) == old(s).store.world(other),
            old(s).store.revokable_world(world_id) ==> s.store.world(world_id) is Some
                && s.store.world(world_id)->0.revokable
                && forall|c: Capability| #[trigger] s.store.world(world_id)->0.caps.holds(c) == (old(
                    s,
                ).store.world(world_id)->0.caps.holds(c) && (kept_in_lockdown(c) || cap_index(c) >= i)),
            !old(s).store.revokable_world(world_id) ==> s.store == old(s).store,
        decreases all.len() - i,
    {
        let cap = all[i];
        if !keep.has(cap) {
            let ghost before = s.store;
            let _ = remove_world_cap(&mut s.store, world_id, cap);
            proof {
                if old(s).store.revokable_world(world_id) {
                    let wb = before.world(world_id)->0;
                    wb.caps.lemma_remove_spec(cap);
                    assert(s.store.world(world_id)->0.caps == wb.caps.remove_spec(cap));
                    assert forall|d: Capability| #[trigger] s.store.world(world_id)->0.caps.holds(d) == (old(
                        s,
                    ).store.world(world_id)->0.caps.holds(d) && (kept_in_lockdown(d) || cap_index(d) >= i + 1)) by {
                        lemma_cap_index(d);
                        lemma_cap_index(cap);
                        assert(s.store.world(world_id)->0.caps.holds(d) == (wb.caps.holds(d) && cap_index(d) != cap_index(cap)));
                        if cap_index(d) == i {
                            super::types::lemma_cap_at(i as int);
                            assert(d == cap);
                        }
                    }
                }
            }
        } else {
            proof {
                if old(s).store.revokable_world(world_id) {
                    assert forall|d: Capability| #[trigger] s.store.world(world_id)->0.caps.holds(d) == (old(
                        s,
                    ).store.world(world_id)->0.caps.holds(d) && (kept_in_lockdown(d) || cap_index(d) >= i + 1)) by {
                        lemma_cap_index(d);
                        if cap_index(d) == i {
                            super::types::lemma_cap_at(i as int);
                            assert(d == cap);
                        }
                    }
                }
            }
        }
        i = i + 1;
    }
    proof {
        if old(s).store.revokable_world(world_id) {
            assert forall|c: Capability| #[trigger] s.store.world(world_id)->0.caps.holds(c) == (old(
                s,
            ).store.world(world_id)->0.caps.holds(c) && kept_in_lockdown(c)) by {
                lemma_cap_index(c);
            }
        }
    }
    log_revoke(&mut s.audit, world_id, Capability::Root, true);
}

} // verus!
