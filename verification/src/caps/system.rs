//! The state of the capability system: the store, the audit trail, the
//! temporary grants and the current and kernel worlds.
use vstd::prelude::*;
use super::types::Capability;
use super::store::StoreInner;
use super::audit::{AuditLog, AuditEvent, EventKind};
use super::grant::{TempGrant, MAX_TEMP};

verus! {

/// Everything the capability system keeps.
pub struct CapSystem {
    pub store: StoreInner,
    pub audit: AuditLog,
    pub temp: Vec<TempGrant>,
    /// World of the kernel (the first one the defaults install; identifiers start at 1).
    pub kernel_world: u32,
    /// World on whose behalf the current code runs.
    pub current_world: u32,
    /// Scheduler tick, for temporary grants.
    pub tick: u64,
}

impl CapSystem {
    /// The parts fit together.
    pub open spec fn wf(&self) -> bool {
        &&& self.store.wf()
        &&& self.audit.wf()
        &&& self.temp.len() == MAX_TEMP
    }

    /// World `world` holds `cap`.
    pub open spec fn has(&self, world: u32, cap: Capability) -> bool {
        self.store.has_cap_spec(world, cap)
    }

    /// Only the audit trail differs.
    pub open spec fn same_but_audit(&self, other: &Self) -> bool {
        &&& self.store == other.store
        &&& self.temp == other.temp
        &&& self.kernel_world == other.kernel_world
        &&& self.current_world == other.current_world
        &&& self.tick == other.tick
        &&& self.audit.clock == other.audit.clock
    }

    /// A fresh system: empty store and audit trail, kernel and current world 1.
    pub fn new() -> (r: Self)
        ensures
            r.wf(),
            r.kernel_world == 1,
            r.current_world == 1,
            r.tick == 0,
            r.store.next_id == 1,
            r.store.global_revoked@ == Set::<int>::empty(),
            forall|i: int| 0 <= i < super::store::MAX_WORLDS ==> r.store.worlds@[i] is None,
            r.audit.total == 0,
            r.audit.history@ == Seq::<AuditEvent>::empty(),
            forall|i: int| 0 <= i < MAX_TEMP ==> !(#[trigger] r.temp@[i]).active,
    {
        let mut temp: Vec<TempGrant> = Vec::new();
        let mut i: usize = 0;
        while i < MAX_TEMP
            invariant
                i <= MAX_TEMP,
                temp.len() == i,
                forall|j: int| 0 <= j < i ==> !(#[trigger] temp@[j]).active,
            decreases MAX_TEMP - i,
        {
            temp.push(TempGrant { world_id: 0, cap: Capability::User, expires_tick: 0, active: false });
            i = i + 1;
        }
        let r = CapSystem {
            store: StoreInner::new(),
            audit: AuditLog::new(),
            temp,
            kernel_world: 1,
            current_world: 1,
            tick: 0,
        };
        assert(r.audit.history@ =~= Seq::<AuditEvent>::empty());
        r
    }
}

/// The audit record of a check of `cap` by `world`.
pub open spec fn check_event(a: AuditLog, world: u32, cap: Capability, ok: bool) -> AuditEvent {
    AuditEvent {
        seq: a.total,
        tick: a.clock,
        world_id: world,
        target_world: world,
        cap,
        kind: if ok {
            EventKind::CheckOk
        } else {
            EventKind::CheckDeny
        },
    }
}

/// The audit record of a revocation of `cap` from `world`.
pub open spec fn revoke_event(a: AuditLog, world: u32, cap: Capability) -> AuditEvent {
    AuditEvent {
        seq: a.total,
        tick: a.clock,
        world_id: world,
        target_world: world,
        cap,
        kind: EventKind::Revoke,
    }
}

/// The audit record of a grant of `cap` from `granter` to `target`.
pub open spec fn grant_event(a: AuditLog, granter: u32, target: u32, cap: Capability) -> AuditEvent {
    AuditEvent {
        seq: a.total,
        tick: a.clock,
        world_id: granter,
        target_world: target,
        cap,
        kind: EventKind::Grant,
    }
}

} // verus!
