//! The meeting point of capabilities (what a world may do) and the policy
//! engine (what it should do): an operation goes ahead only when both agree.
use vstd::prelude::*;
use super::types::{Capability, CapabilityError, CapResult};
use super::store;
use super::system::CapSystem;

verus! {

/// Whether the policy hook is to be asked about (`world`, `cap`): only once the
/// capability check has passed.
pub fn policy_needed(s: &CapSystem, world: u32, cap: Capability) -> (r: bool)
    ensures
        r == s.has(world, cap),
{
    store::world_has_cap(&s.store, world, cap)
}

/// Decide an operation: world `world` must hold `cap`, and the policy hook must agree.
///
/// `policy_ok` is the verdict of the policy hook for (`world`, `cap`), or `true` when none is set.
pub fn enforce(s: &CapSystem, world: u32, cap: Capability, policy_ok: bool) -> (r: CapResult<()>)
    ensures
        r == if s.has(world, cap) && policy_ok {
            Ok::<(), CapabilityError>(())
        } else {
            Err(CapabilityError { required: cap, world_id: Some(world) })
        },
{
    if !store::world_has_cap(&s.store, world, cap) {
        return Err(CapabilityError { required: cap, world_id: Some(world) });
    }
    if !policy_ok {
        return Err(CapabilityError { required: cap, world_id: Some(world) });
    }
    Ok(())
}

/// `enforce` for the current world.
pub fn enforce_self(s: &CapSystem, cap: Capability, policy_ok: bool) -> (r: CapResult<()>)
    ensures
        r == if s.has(s.current_world, cap) && policy_ok {
            Ok::<(), CapabilityError>(())
        } else {
            Err(CapabilityError { required: cap, world_id: Some(s.current_world) })
        },
{
    let wid = super::check::current_world_id_pub(s);
    enforce(s, wid, cap, policy_ok)
}

/// Whether the operation is allowed.
pub fn allowed(s: &CapSystem, world: u32, cap: Capability, policy_ok: bool) -> (r: bool)
    ensures
        r == (s.has(world, cap) && policy_ok),
{
    enforce(s, world, cap, policy_ok).is_ok()
}

} // verus!
