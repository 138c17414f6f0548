//! Run-time capability checks for the current world and for given worlds.
use vstd::prelude::*;
use super::types::{Capability, CapabilitySet, CapabilityError, CapResult};
use super::store::{self, set_world_caps, get_world_caps};
use super::audit::log_check;
use super::system::{CapSystem, check_event};

verus! {

/// World of the kernel.
pub fn kernel_world_id(s: &CapSystem) -> (r: u32)
    ensures
        r == s.kernel_world,
{
    s.kernel_world
}

/// Record which world is the kernel's.
pub fn set_kernel_world_id(s: &mut CapSystem, id: u32)
    ensures
        final(s).kernel_world == id,
        final(s).store == old(s).store,
        final(s).audit == old(s).audit,
        final(s).temp == old(s).temp,
        final(s).current_world == old(s).current_world,
        final(s).tick == old(s).tick,
{
    s.kernel_world = id;
}

/// World on whose behalf the current code runs.
pub fn current_world_id_pub(s: &CapSystem) -> (r: u32)
    ensures
        r == s.current_world,
{
    s.current_world
}

/// Switch the current world.
pub fn set_current_world(s: &mut CapSystem, world_id: u32)
    ensures
        final(s).current_world == world_id,
        final(s).store == old(s).store,
        final(s).audit == old(s).audit,
        final(s).temp == old(s).temp,
        final(s).kernel_world == old(s).kernel_world,
        final(s).tick == old(s).tick,
{
    s.current_world = world_id;
}

/// World on whose behalf the current code runs.
fn current_world_id(s: &CapSystem) -> (r: u32)
    ensures
        r == s.current_world,
{
    current_world_id_pub(s)
}

/// The current world holds `cap`.
pub fn has_cap(s: &CapSystem, cap: Capability) -> (r: bool)
    ensures
        r == s.has(s.current_world, cap),
{
    let wid = current_world_id(s);
    store::world_has_cap(&s.store, wid, cap)
}

/// World `world_id` holds `cap`.
pub fn world_has_cap(s: &CapSystem, world_id: u32, cap: Capability) -> (r: bool)
    ensures
        r == s.has(world_id, cap),
{
    store::world_has_cap(&s.store, world_id, cap)
}

/// Demand `cap` of the current world; the check is audited.
pub fn require_cap(s: &mut CapSystem, cap: Capability) -> (r: CapResult<()>)
    requires
        old(s).wf(),
        old(s).audit.total < u64::MAX,
    ensures
        final(s).wf(),
        final(s).same_but_audit(old(s)),
        r == if old(s).has(old(s).current_world, cap) {
            Ok::<(), CapabilityError>(())
        } else {
            Err(CapabilityError { required: cap, world_id: Some(old(s).current_world) })
        },
        final(s).audit.total == old(s).audit.total + 1,
        final(s).audit.history@ == old(s).audit.history@.push(
            check_event(old(s).audit, old(s).current_world, cap, r is Ok),
        ),
{
    let wid = current_world_id(s);
    if store::world_has_cap(&s.store, wid, cap) {
        log_check(&mut s.audit, wid, cap, true);
        Ok(())
    } else {
        log_check(&mut s.audit, wid, cap, false);
        Err(CapabilityError { required: cap, world_id: Some(wid) })
    }
}

/// Demand `cap` of world `world_id`; the check is audited.
pub fn require_world_cap(s: &mut CapSystem, world_id: u32, cap: Capability) -> (r: CapResult<()>)
    requires
        old(s).wf(),
        old(s).audit.total < u64::MAX,
    ensures
        final(s).wf(),
        final(s).same_but_audit(old(s)),
        r == if old(s).has(world_id, cap) {
            Ok::<(), CapabilityError>(())
        } else {
            Err(CapabilityError { required: cap, world_id: Some(world_id) })
        },
        final(s).audit.total == old(s).audit.total + 1,
        final(s).audit.history@ == old(s).audit.history@.push(
            check_event(old(s).audit, world_id, cap, r is Ok),
        ),
{
    if store::world_has_cap(&s.store, world_id, cap) {
        log_check(&mut s.audit, world_id, cap, true);
        Ok(())
    } else {
        log_check(&mut s.audit, world_id, cap, false);
        Err(CapabilityError { required: cap, world_id: Some(world_id) })
    }
}

/// Demand every capability of `caps` of the current world, stopping at the first one missing.
pub fn require_caps(s: &mut CapSystem, caps: &[Capability]) -> (r: CapResult<()>)
    requires
        old(s).wf(),
        old(s).audit.total + caps@.len() <= u64::MAX,
    ensures
        final(s).wf(),
        final(s).same_but_audit(old(s)),
        (r is Ok) == forall|k: int| 0 <= k < caps@.len() ==> old(s).has(old(s).current_world, #[trigger] caps@[k]),
        r matches Err(e) ==> exists|k: int|
            0 <= k < caps@.len() && !old(s).has(old(s).current_world, caps@[k]) && (forall|j: int|
                0 <= j < k ==> old(s).has(old(s).current_world, #[trigger] caps@[j])) && e
                == (CapabilityError { required: caps@[k], world_id: Some(old(s).current_world) })
                && final(s).audit.total == old(s).audit.total + k + 1,
        r is Ok ==> final(s).audit.total == old(s).audit.total + caps@.len(),
{
    let mut i: usize = 0;
    while i < caps.len()
        invariant
            s.wf(),
            s.same_but_audit(old(s)),
            i <= caps@.len(),
            s.audit.total == old(s).audit.total + i,
            old(s).audit.total + caps@.len() <= u64::MAX,
            forall|j: int| 0 <= j < i ==> old(s).has(old(s).current_world, #[trigger] caps@[j]),
        decreases caps@.len() - i,
    {
        let r = require_cap(s, caps[i]);
        if r.is_err() {
            return Err(CapabilityError { required: caps[i], world_id: Some(s.current_world) });
        }
        i = i + 1;
    }
    Ok(())
}

/// Run `f` when the current world holds `cap` (the check is audited).
pub fn with_cap<T, F: FnOnce() -> T>(s: &mut CapSystem, cap: Capability, f: F) -> (r: CapResult<T>)
    requires
        old(s).wf(),
        old(s).audit.total < u64::MAX,
        f.requires(()),
    ensures
        final(s).wf(),
        final(s).same_but_audit(old(s)),
        (r is Ok) == old(s).has(old(s).current_world, cap),
        r matches Ok(v) ==> f.ensures((), v),
        r matches Err(e) ==> e == (CapabilityError { required: cap, world_id: Some(old(s).current_world) }),
{
    match require_cap(s, cap) {
        Ok(()) => Ok(f()),
        Err(e) => Err(e),
    }
}

/// Run `f` when the current world holds every capability of `caps`.
pub fn with_caps<T, F: FnOnce() -> T>(s: &mut CapSystem, caps: &[Capability], f: F) -> (r: CapResult<T>)
    requires
        old(s).wf(),
        old(s).audit.total + caps@.len() <= u64::MAX,
        f.requires(()),
    ensures
        final(s).wf(),
        final(s).same_but_audit(old(s)),
        (r is Ok) == forall|k: int| 0 <= k < caps@.len() ==> old(s).has(old(s).current_world, #[trigger] caps@[k]),
        r matches Ok(v) ==> f.ensures((), v),
{
    match require_caps(s, caps) {
        Ok(()) => Ok(f()),
        Err(e) => Err(e),
    }
}

/// Assert that the current world holds `cap` (callers guarantee it).
pub fn assert_cap(s: &CapSystem, cap: Capability)
    requires
        s.has(s.current_world, cap),
{
    let ok = has_cap(s, cap);
    assert(ok);
}

/// Check without auditing, for hot paths.
pub fn fast_check(s: &CapSystem, cap: Capability) -> (r: bool)
    ensures
        r == s.has(s.current_world, cap),
{
    store::world_has_cap(&s.store, current_world_id(s), cap)
}

/// `f()` when the current world holds `cap`, otherwise `default`.
pub fn if_cap<T, F: FnOnce() -> T>(s: &CapSystem, cap: Capability, f: F, default: T) -> (r: T)
    requires
        f.requires(()),
    ensures
        s.has(s.current_world, cap) ==> f.ensures((), r),
        !s.has(s.current_world, cap) ==> r == default,
{
    if has_cap(s, cap) {
        f()
    } else {
        default
    }
}

/// Capabilities added to the current world for a while; `release` puts the original set back.
pub struct TemporaryCaps {
    world_id: u32,
    original: CapabilitySet,
}

impl TemporaryCaps {
    /// The world whose capabilities were extended.
    pub closed spec fn world(&self) -> u32 {
        self.world_id
    }

    /// Its capabilities before the extension.
    pub closed spec fn saved(&self) -> CapabilitySet {
        self.original
    }

    /// Extend the current world's capabilities by `extra`; needs `Admin`.
    pub fn enter(s: &mut CapSystem, extra: CapabilitySet) -> (r: CapResult<Self>)
        requires
            old(s).wf(),
            old(s).audit.total < u64::MAX,
        ensures
            final(s).wf(),
            final(s).current_world == old(s).current_world,
            final(s).kernel_world == old(s).kernel_world,
            final(s).temp == old(s).temp,
            final(s).tick == old(s).tick,
            old(s).store.world(old(s).current_world) is None ==> r == Err::<Self, CapabilityError>(
                CapabilityError { required: Capability::User, world_id: Some(old(s).current_world) },
            ) && *final(s) == *old(s),
            old(s).store.world(old(s).current_world) is Some && !old(s).has(old(s).current_world, Capability::Admin)
                ==> r == Err::<Self, CapabilityError>(
                CapabilityError { required: Capability::Admin, world_id: Some(old(s).current_world) },
            ) && final(s).store == old(s).store,
            old(s).store.world(old(s).current_world) is Some ==> final(s).audit.history@ == old(s).audit.history@.push(
                check_event(old(s).audit, old(s).current_world, Capability::Admin, old(s).has(old(s).current_world, Capability::Admin)),
            ),
            old(s).has(old(s).current_world, Capability::Admin) && old(s).store.extend_allowed(old(s).current_world, extra)
                ==> r is Ok,
            old(s).has(old(s).current_world, Capability::Admin) && !old(s).store.extend_allowed(old(s).current_world, extra)
                ==> r == Err::<Self, CapabilityError>(
                CapabilityError { required: Capability::Admin, world_id: Some(old(s).current_world) },
            ) && final(s).store == old(s).store,
            r matches Ok(t) ==> t.world() == old(s).current_world && t.saved()@ == old(s).store.effective(
                old(s).store.world(old(s).current_world)->0,
            ) && final(s).store.world(old(s).current_world) is Some
                && final(s).store.world(old(s).current_world)->0.caps@ == t.saved()@.union(extra@),
    {
        let wid = current_world_id(s);
        let original = match get_world_caps(&s.store, wid) {
            Ok(c) => c,
            Err(_) => {
                return Err(CapabilityError { required: Capability::User, world_id: Some(wid) });
            },
        };
        require_cap(s, Capability::Admin)?;
        let u = original.union(extra);
        proof {
            let w = s.store.world(wid)->0;
            if let Some(pid) = w.inherited_from {
                if let Some(pw) = s.store.world(pid) {
                    assert(s.store.within_parent(pw, u) == s.store.extend_allowed(wid, extra));
                }
            }
        }
        match set_world_caps(&mut s.store, wid, u) {
            Ok(()) => {},
            Err(_) => {
                return Err(CapabilityError { required: Capability::Admin, world_id: Some(wid) });
            },
        }
        Ok(Self { world_id: wid, original })
    }

    /// Put back the world's original capabilities.
    pub fn release(self, s: &mut CapSystem)
        requires
            old(s).wf(),
        ensures
            final(s).wf(),
            final(s).audit == old(s).audit,
            final(s).current_world == old(s).current_world,
            old(s).store.set_allowed(self.world(), self.saved()) ==> final(s).store.world(self.world()) is Some
                && final(s).store.world(self.world())->0.caps == self.saved() && forall|other: u32|
                other != self.world() ==> #[trigger] final(s).store.world(other) == old(s).store.world(other),
            !old(s).store.set_allowed(self.world(), self.saved()) ==> final(s).store == old(s).store,
    {
        let _ = set_world_caps(&mut s.store, self.world_id, self.original);
    }
}

} // verus!
