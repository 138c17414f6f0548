//! Default capability sets per privilege ring, used when worlds are registered.
use vstd::prelude::*;
use super::types::{Capability, CapabilitySet};
use super::presets::{self, driver_member, privileged_user_member, standard_user_member};
use super::store::{register_world, first_free, MAX_WORLDS, WorldCaps, StoreInner};
use super::hierarchy::set_implies_spec;
use super::audit::{log_register, AuditEvent, EventKind};
use super::system::CapSystem;

verus! {

/// Membership of the default set of ring `ring`.
pub open spec fn ring_member(ring: u8, c: Capability) -> bool {
    if ring == 0 {
        true
    } else if ring == 1 {
        driver_member(c)
    } else if ring == 2 {
        privileged_user_member(c)
    } else {
        standard_user_member(c)
    }
}

/// Default capability set for ring `ring` (0 kernel, 1 driver, 2 privileged user, else user).
pub fn default_for_ring(ring: u8) -> (r: CapabilitySet)
    ensures
        forall|c: Capability| #[trigger] r.holds(c) <==> ring_member(ring, c),
        forall|i: int| !(0 <= i < 30) ==> !r@.contains(i),
{
    match ring {
        0 => presets::kernel(),
        1 => presets::driver(),
        2 => presets::privileged_user(),
        _ => presets::standard_user(),
    }
}

/// The audit record of a registration of `world`.
pub open spec fn register_event(total: u64, clock: u64, world: u32) -> AuditEvent {
    AuditEvent {
        seq: total,
        tick: clock,
        world_id: world,
        target_world: world,
        cap: Capability::User,
        kind: EventKind::Register,
    }
}

/// Install the kernel world, which holds every capability, and record it as the
/// kernel's world.
pub fn install_defaults(s: &mut CapSystem) -> (r: Result<(), &'static str>)
    requires
        old(s).wf(),
        old(s).audit.total < u64::MAX,
    ensures
        final(s).wf(),
        final(s).temp == old(s).temp,
        final(s).kernel_world == if r is Ok {
            old(s).store.next_id
        } else {
            old(s).kernel_world
        },
        final(s).current_world == old(s).current_world,
        final(s).store.global_revoked == old(s).store.global_revoked,
        final(s).store.next_id == old(s).store.next_id.wrapping_add(1),
        first_free(old(s).store.worlds@) == MAX_WORLDS ==> r == Err::<(), &'static str>(
            "no free world slots",
        ) && final(s).audit == old(s).audit,
        first_free(old(s).store.worlds@) < MAX_WORLDS ==> r is Ok && (match final(s).store.worlds@[first_free(old(s).store.worlds@)] {
            Some(w) => w.world_id == old(s).store.next_id && w.inherited_from is None && w.revokable
                && forall|c: Capability| #[trigger] w.caps.holds(c),
            None => false,
        }) && final(s).audit.history@ == old(s).audit.history@.push(
            register_event(old(s).audit.total, old(s).audit.clock, 0),
        ),
        forall|i: int|
            0 <= i < MAX_WORLDS && i != first_free(old(s).store.worlds@) ==> #[trigger] final(s).store.worlds@[i]
                == old(s).store.worlds@[i],
{
    proof {
        super::store::lemma_first_free(s.store.worlds@);
    }
    let k = presets::kernel();
    let wid = register_world(&mut s.store, None, k)?;
    super::check::set_kernel_world_id(s, wid);
    log_register(&mut s.audit, 0);
    Ok(())
}

/// `parent`, if any, exists and holds (after global revocation) everything ring
/// `ring`'s default set holds.
pub open spec fn ring_parent_ok(s: StoreInner, ring: u8, parent: Option<u32>) -> bool {
    match parent {
        None => true,
        Some(p) => s.world(p) is Some && forall|c: Capability|
            ring_member(ring, c) ==> #[trigger] set_implies_spec(s.effective(s.world(p)->0), c),
    }
}

/// Register a world for ring `ring` under `parent`, with the ring's default set.
pub fn register_for_ring(s: &mut CapSystem, ring: u8, parent: Option<u32>) -> (r: Result<u32, &'static str>)
    requires
        old(s).wf(),
        old(s).audit.total < u64::MAX,
    ensures
        final(s).wf(),
        final(s).temp == old(s).temp,
        final(s).store.global_revoked == old(s).store.global_revoked,
        r is Err ==> final(s).audit == old(s).audit,
        r matches Ok(wid) ==> wid == old(s).store.next_id && first_free(old(s).store.worlds@) < MAX_WORLDS
            && (match final(s).store.worlds@[first_free(old(s).store.worlds@)] {
                Some(w) => w.world_id == wid && w.inherited_from == parent && w.revokable
                    && forall|c: Capability| #[trigger] w.caps.holds(c) <==> ring_member(ring, c),
                None => false,
            }) && final(s).audit.history@ == old(s).audit.history@.push(
            register_event(old(s).audit.total, old(s).audit.clock, wid),
        ),
        (r is Ok) == (ring_parent_ok(old(s).store, ring, parent) && first_free(old(s).store.worlds@) < MAX_WORLDS),
        parent matches Some(p) && old(s).store.world(p) is None ==> r == Err::<u32, &'static str>("world not found"),
        parent is Some && old(s).store.world(parent->0) is Some && !ring_parent_ok(old(s).store, ring, parent)
            ==> r == Err::<u32, &'static str>("child capability exceeds parent"),
        ring_parent_ok(old(s).store, ring, parent) && first_free(old(s).store.worlds@) == MAX_WORLDS
            ==> r == Err::<u32, &'static str>("no free world slots"),
{
    proof {
        super::store::lemma_first_free(s.store.worlds@);
    }
    let set = default_for_ring(ring);
    proof {
        if let Some(p) = parent {
            if let Some(pw) = s.store.world(p) {
                assert(s.store.within_parent(pw, set) == ring_parent_ok(s.store, ring, parent));
            }
        }
    }
    let wid = register_world(&mut s.store, parent, set)?;
    log_register(&mut s.audit, wid);
    Ok(wid)
}

} // verus!
