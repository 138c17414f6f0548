//! Granting capabilities: single grants, delegation, inheritance at spawn and
//! temporary grants that expire after a number of ticks.
use vstd::prelude::*;
use super::types::{Capability, CapabilitySet, CapabilityError, CapResult, cap_index, lemma_cap_index};
use super::hierarchy::{set_implies_spec, implies_spec};
use super::store::{self, StoreInner, WorldCaps, add_world_cap, get_world_caps, register_world, remove_world_cap, first_free, MAX_WORLDS};
use super::audit::{log_grant, log_revoke, AuditLog, AuditEvent, EventKind};
use super::system::{CapSystem, grant_event, revoke_event};

verus! {

/// Capabilities that a child never inherits at spawn.
pub open spec fn non_inheritable(c: Capability) -> bool {
    c == Capability::Root || c == Capability::Admin || c == Capability::Kill || c
        == Capability::Debug || c == Capability::Ptrace || c == Capability::FsMount || c
        == Capability::IpcPrivileged || c == Capability::SyscallAll
}

/// Grant `cap` from `granter` to `target`; the granter must hold it itself.
pub fn grant_cap(s: &mut CapSystem, granter: u32, target: u32, cap: Capability) -> (r: CapResult<()>)
    requires
        old(s).wf(),
        old(s).audit.total < u64::MAX,
    ensures
        final(s).wf(),
        final(s).temp == old(s).temp,
        final(s).kernel_world == old(s).kernel_world,
        final(s).current_world == old(s).current_world,
        final(s).tick == old(s).tick,
        final(s).audit.clock == old(s).audit.clock,
        final(s).store.global_revoked == old(s).store.global_revoked,
        final(s).store.next_id == old(s).store.next_id,
        !old(s).has(granter, cap) ==> r == Err::<(), CapabilityError>(
            CapabilityError { required: cap, world_id: Some(granter) },
        ),
        (r is Ok) == (old(s).has(granter, cap) && old(s).store.grant_ok(target, cap)),
        old(s).has(granter, cap) && r is Err ==> r == Err::<(), CapabilityError>(
            CapabilityError { required: cap, world_id: Some(target) },
        ),
        r is Err ==> final(s).store == old(s).store && final(s).audit == old(s).audit,
        r is Ok ==> final(s).store.world(target) is Some && final(s).store.world(target)->0.caps@
            == old(s).store.effective(old(s).store.world(target)->0).insert(cap_index(cap))
            && final(s).store.world(target)->0.revokable == old(s).store.world(target)->0.revokable
            && final(s).store.world(target)->0.inherited_from == old(s).store.world(target)->0.inherited_from
            && final(s).audit.history@ == old(s).audit.history@.push(
            grant_event(old(s).audit, granter, target, cap),
        ) && final(s).audit.total == old(s).audit.total + 1,
        r is Ok ==> forall|other: u32|
            other != target ==> #[trigger] final(s).store.world(other) == old(s).store.world(other),
        r is Ok ==> final(s).store.worlds@ == old(s).store.worlds@.update(
            store::first_match(old(s).store.worlds@, target),
            final(s).store.world(target),
        ),
{
    if !store::world_has_cap(&s.store, granter, cap) {
        log_grant(&mut s.audit, granter, target, cap, false);
        return Err(CapabilityError { required: cap, world_id: Some(granter) });
    }
    match add_world_cap(&mut s.store, target, cap) {
        Ok(()) => {},
        Err(_) => {
            return Err(CapabilityError { required: cap, world_id: Some(target) });
        },
    }
    log_grant(&mut s.audit, granter, target, cap, true);
    Ok(())
}

/// A set that holds `c` holds something implying `c`; so does any larger set.
proof fn lemma_set_implies_grows(a: Set<int>, b: Set<int>, c: Capability)
    requires
        set_implies_spec(a, c),
        a.subset_of(b),
    ensures
        set_implies_spec(b, c),
{
    let d = choose|d: Capability| a.contains(cap_index(d)) && #[trigger] implies_spec(d, c);
    assert(b.contains(cap_index(d)) && implies_spec(d, c));
}

/// After a grant of `c1` to `target` that was allowed, a grant of `c2` that `granter`
/// could make and `target` could take is still possible: capabilities only grow.
proof fn lemma_grant_keeps_delegation(s0: StoreInner, s1: StoreInner, granter: u32, target: u32, c1: Capability, c2: Capability)
    requires
        s0.grant_ok(target, c1),
        s1.global_revoked == s0.global_revoked,
        forall|other: u32| other != target ==> #[trigger] s1.world(other) == s0.world(other),
        s1.world(target) is Some,
        s1.world(target)->0.caps@ == s0.effective(s0.world(target)->0).insert(cap_index(c1)),
        s1.world(target)->0.inherited_from == s0.world(target)->0.inherited_from,
        s0.has_cap_spec(granter, c2),
        s0.grant_ok(target, c2),
    ensures
        s1.has_cap_spec(granter, c2),
        s1.grant_ok(target, c2),
{
    let w0 = s0.world(target)->0;
    let w1 = s1.world(target)->0;
    assert(s0.effective(w0).subset_of(s1.effective(w1)));
    if granter == target {
        lemma_set_implies_grows(s0.effective(w0), s1.effective(w1), c2);
    }
    if let Some(pid) = w0.inherited_from {
        let pw0 = s0.world(pid)->0;
        let pw1 = s1.world(pid)->0;
        assert(s0.effective(pw0).subset_of(s1.effective(pw1)));
        assert forall|c: Capability| (s1.effective(w1).contains(cap_index(c)) || c == c2) implies #[trigger] set_implies_spec(
            s1.effective(pw1),
            c,
        ) by {
            lemma_cap_index(c);
            lemma_cap_index(c1);
            if c != c2 && !s0.effective(w0).contains(cap_index(c)) {
                assert(c == c1);
                assert(set_implies_spec(s0.effective(pw0), c1));
            } else {
                assert(set_implies_spec(s0.effective(pw0), c));
            }
            lemma_set_implies_grows(s0.effective(pw0), s1.effective(pw1), c);
        }
    }
}

/// Every grant of `caps` from `granter` to `target` would succeed now.
pub open spec fn delegate_ok(s: CapSystem, granter: u32, target: u32, caps: CapabilitySet) -> bool {
    forall|c: Capability| caps.holds(c) ==> s.has(granter, c) && #[trigger] s.store.grant_ok(target, c)
}

/// The `k`-th grant event that a delegation from `granter` to `target` logs after
/// `a`, for `cap`.
pub open spec fn delegation_event(a: AuditLog, granter: u32, target: u32, k: int, cap: Capability) -> AuditEvent {
    AuditEvent { seq: (a.total + k) as u64, tick: a.clock, world_id: granter, target_world: target, cap, kind: EventKind::Grant }
}

/// `a1` is `a0` followed by one grant event for each capability of `caps` whose
/// position is below `bound`, in order of position.
pub open spec fn delegation_logged(a0: AuditLog, a1: AuditLog, granter: u32, target: u32, caps: CapabilitySet, bound: int) -> bool {
    let n0 = a0.history@.len();
    let h = a1.history@;
    &&& n0 <= h.len() && h.subrange(0, n0 as int) == a0.history@
    &&& forall|m: int| n0 <= m < h.len() ==> #[trigger] h[m] == delegation_event(a0, granter, target, m - n0, h[m].cap)
        && caps.holds(h[m].cap) && cap_index(h[m].cap) < bound
    &&& forall|m1: int, m2: int| n0 <= m1 < m2 < h.len() ==> cap_index(#[trigger] h[m1].cap) < cap_index(#[trigger] h[m2].cap)
    &&& forall|c: Capability| caps.holds(c) && cap_index(c) < bound ==> exists|m: int| n0 <= m < h.len() && #[trigger] h[m].cap == c
}

/// Grant every capability of `caps`, in order of position, stopping at the first
/// refusal, which is returned.
pub fn delegate_caps(s: &mut CapSystem, granter: u32, target: u32, caps: CapabilitySet) -> (r: CapResult<()>)
    requires
        old(s).wf(),
        old(s).audit.total + 30 <= u64::MAX,
    ensures
        final(s).wf(),
        final(s).temp == old(s).temp,
        final(s).kernel_world == old(s).kernel_world,
        final(s).current_world == old(s).current_world,
        final(s).store.global_revoked == old(s).store.global_revoked,
        forall|other: u32|
            other != target ==> #[trigger] final(s).store.world(other) == old(s).store.world(other),
        delegate_ok(*old(s), granter, target, caps) ==> r is Ok,
        r is Ok ==> forall|c: Capability|
            caps.holds(c) && !old(s).store.global_revoked.holds(c) ==> final(s).store.world(target) is Some
                && #[trigger] final(s).store.world(target)->0.caps.holds(c),
        r is Ok ==> delegation_logged(old(s).audit, final(s).audit, granter, target, caps, 30),
        r matches Err(e) ==> {
            &&& caps.holds(e.required)
            &&& forall|c: Capability|
                caps.holds(c) && cap_index(c) < cap_index(e.required) && !old(s).store.global_revoked.holds(c)
                    ==> final(s).store.world(target) is Some && #[trigger] final(s).store.world(target)->0.caps.holds(c)
            &&& e.world_id == Some(granter) && !final(s).has(granter, e.required)
                || e.world_id == Some(target) && final(s).has(granter, e.required)
                && !final(s).store.grant_ok(target, e.required)
            &&& delegation_logged(old(s).audit, final(s).audit, granter, target, caps, cap_index(e.required))
        },
{
    let list = caps.iter();
    let ghost a0 = s.audit;
    let ghost n0 = s.audit.history@.len();
    proof {
        assert(s.audit.history@.subrange(0, n0 as int) =~= a0.history@);
        if delegate_ok(*old(s), granter, target, caps) {
            assert forall|j: int| 0 <= j < list.len() implies s.has(granter, #[trigger] list@[j]) && s.store.grant_ok(
                target,
                list@[j],
            ) by {
                assert(list@.contains(list@[j]));
                assert(caps.holds(list@[j]));
                assert(s.store.grant_ok(target, list@[j]));
            }
        }
    }
    let mut i: usize = 0;
    while i < list.len()
        invariant
            s.wf(),
            i <= list.len(),
            list.len() <= 30,
            s.audit.total == old(s).audit.total + i,
            s.audit.clock == old(s).audit.clock,
            a0 == old(s).audit,
            n0 == a0.history@.len(),
            s.audit.history@.len() == n0 + i,
            s.audit.history@.subrange(0, n0 as int) == a0.history@,
            forall|k: int| 0 <= k < i ==> #[trigger] s.audit.history@[n0 + k] == delegation_event(a0, granter, target, k, list@[k]),
            old(s).audit.total + 30 <= u64::MAX,
            forall|c: Capability| list@.contains(c) <==> caps.holds(c),
            forall|a: int, b: int| 0 <= a < b < list.len() ==> cap_index(#[trigger] list@[a]) < cap_index(#[trigger] list@[b]),
            s.temp == old(s).temp,
            s.kernel_world == old(s).kernel_world,
            s.current_world == old(s).current_world,
            s.store.global_revoked == old(s).store.global_revoked,
            forall|other: u32|
                other != target ==> #[trigger] s.store.world(other) == old(s).store.world(other),
            forall|j: int|
                0 <= j < i && !old(s).store.global_revoked.holds(#[trigger] list@[j]) ==> s.store.world(target) is Some
                    && s.store.world(target)->0.caps.holds(list@[j]),
            delegate_ok(*old(s), granter, target, caps) ==> forall|j: int| i <= j < list.len() ==> s.has(granter, #[trigger] list@[j])
                && s.store.grant_ok(target, list@[j]),
        decreases list.len() - i,
    {
        let cap = list[i];
        let ghost before = *s;
        assert(s.audit.history@.len() == s.audit.total);
        match grant_cap(s, granter, target, cap) {
            Ok(()) => {},
            Err(e) => {
                proof {
                    assert(list@.contains(cap));
                    lemma_delegation_logged(a0, s.audit, granter, target, caps, list@, i as int, cap_index(cap));
                    assert forall|c: Capability|
                        caps.holds(c) && cap_index(c) < cap_index(e.required) && !old(s).store.global_revoked.holds(c)
                            implies s.store.world(target) is Some && #[trigger] s.store.world(target)->0.caps.holds(c) by {
                        assert(list@.contains(c));
                        let j = choose|j: int| 0 <= j < list.len() && list@[j] == c;
                        if j >= i {
                            if j > i {
                                assert(cap_index(list@[i as int]) < cap_index(list@[j]));
                            }
                        }
                        assert(!old(s).store.global_revoked.holds(list@[j]));
                    }
                }
                return Err(e);
            },
        }
        proof {
            assert forall|j: int|
                0 <= j < i + 1 && !old(s).store.global_revoked.holds(#[trigger] list@[j]) implies s.store.world(target) is Some
                    && s.store.world(target)->0.caps.holds(list@[j]) by {
                lemma_cap_index(list@[j]);
                if j < i {
                    assert(before.store.world(target)->0.caps.holds(list@[j]));
                }
            }
            assert forall|k: int| 0 <= k < i + 1 implies #[trigger] s.audit.history@[n0 + k] == delegation_event(
                a0,
                granter,
                target,
                k,
                list@[k],
            ) by {
                if k < i {
                    assert(s.audit.history@[n0 + k] == before.audit.history@[n0 + k]);
                }
            }
            assert(s.audit.history@.subrange(0, n0 as int) =~= a0.history@) by {
                assert(before.audit.history@.subrange(0, n0 as int) == a0.history@);
                assert forall|m: int| 0 <= m < n0 implies s.audit.history@[m] == before.audit.history@[m] by {}
            }
            if delegate_ok(*old(s), granter, target, caps) {
                assert forall|j: int| i + 1 <= j < list.len() implies s.has(granter, #[trigger] list@[j])
                    && s.store.grant_ok(target, list@[j]) by {
                    lemma_grant_keeps_delegation(before.store, s.store, granter, target, cap, list@[j]);
                }
            }
        }
        i = i + 1;
    }
    proof {
        assert forall|c: Capability|
            caps.holds(c) && !old(s).store.global_revoked.holds(c) implies s.store.world(target) is Some
                && #[trigger] s.store.world(target)->0.caps.holds(c) by {
            assert(list@.contains(c));
            let j = choose|j: int| 0 <= j < list.len() && list@[j] == c;
            assert(!old(s).store.global_revoked.holds(list@[j]));
        }
        lemma_delegation_logged(a0, s.audit, granter, target, caps, list@, i as int, 30);
    }
    Ok(())
}

/// The events a delegation logged for the first `i` capabilities of `list` (all
/// those of `caps` below position `bound`) are what `delegation_logged` describes.
proof fn lemma_delegation_logged(a0: AuditLog, a1: AuditLog, granter: u32, target: u32, caps: CapabilitySet, list: Seq<Capability>, i: int, bound: int)
    requires
        0 <= i <= list.len(),
        a1.history@.len() == a0.history@.len() + i,
        a1.history@.subrange(0, a0.history@.len() as int) == a0.history@,
        forall|k: int| 0 <= k < i ==> #[trigger] a1.history@[a0.history@.len() + k] == delegation_event(a0, granter, target, k, list[k]),
        forall|c: Capability| list.contains(c) <==> caps.holds(c),
        forall|a: int, b: int| 0 <= a < b < list.len() ==> cap_index(#[trigger] list[a]) < cap_index(#[trigger] list[b]),
        i < list.len() ==> bound == cap_index(list[i]),
        i == list.len() ==> bound == 30,
    ensures
        delegation_logged(a0, a1, granter, target, caps, bound),
{
    let n0 = a0.history@.len();
    let h = a1.history@;
    assert forall|m: int| n0 <= m < h.len() implies #[trigger] h[m] == delegation_event(a0, granter, target, m - n0, h[m].cap)
        && caps.holds(h[m].cap) && cap_index(h[m].cap) < bound by {
        let k = m - n0;
        assert(h[n0 + k] == delegation_event(a0, granter, target, k, list[k]));
        assert(list.contains(list[k]));
        lemma_cap_index(list[k]);
        if i < list.len() {
            assert(cap_index(list[k]) < cap_index(list[i]));
        }
    }
    assert forall|m1: int, m2: int| n0 <= m1 < m2 < h.len() implies cap_index(#[trigger] h[m1].cap) < cap_index(
        #[trigger] h[m2].cap,
    ) by {
        assert(h[n0 + (m1 - n0)] == delegation_event(a0, granter, target, m1 - n0, list[m1 - n0]));
        assert(h[n0 + (m2 - n0)] == delegation_event(a0, granter, target, m2 - n0, list[m2 - n0]));
    }
    assert forall|c: Capability| caps.holds(c) && cap_index(c) < bound implies exists|m: int| n0 <= m < h.len() && #[trigger] h[m].cap == c by {
        assert(list.contains(c));
        let j = choose|j: int| 0 <= j < list.len() && list[j] == c;
        lemma_cap_index(c);
        if j >= i && i < list.len() {
            if j > i {
                assert(cap_index(list[i]) < cap_index(list[j]));
            }
        }
        assert(h[n0 + j] == delegation_event(a0, granter, target, j, list[j]));
        assert(n0 <= n0 + j < h.len() && h[n0 + j].cap == c);
    }
}


/// The capabilities a child of `parent_world` inherits: the parent's effective set without the
/// non-inheritable ones (empty when the parent is unknown).
pub fn inherit_set(s: &CapSystem, parent_world: u32) -> (r: CapabilitySet)
    ensures
        forall|c: Capability| #[trigger] r.holds(c) == (match s.store.world(parent_world) {
            Some(w) => s.store.effective(w).contains(cap_index(c)),
            None => false,
        } && !non_inheritable(c)),
        forall|i: int| r@.contains(i) ==> match s.store.world(parent_world) {
            Some(w) => s.store.effective(w).contains(i),
            None => false,
        },
{
    let parent = match get_world_caps(&s.store, parent_world) {
        Ok(c) => c,
        Err(_) => CapabilitySet::empty(),
    };
    let child = parent.remove(Capability::Root).remove(Capability::Admin).remove(Capability::Kill).remove(
        Capability::Debug,
    ).remove(Capability::Ptrace).remove(Capability::FsMount).remove(Capability::IpcPrivileged).remove(
        Capability::SyscallAll,
    );
    proof {
        assert forall|c: Capability| #[trigger] child.holds(c) == (parent.holds(c) && !non_inheritable(c)) by {
            lemma_cap_index(c);
        }
    }
    child
}

/// Register a child world that inherits from `parent_world`.
pub fn spawn_child(s: &mut CapSystem, parent_world: u32) -> (r: Result<u32, &'static str>)
    requires
        old(s).wf(),
    ensures
        final(s).wf(),
        final(s).audit == old(s).audit,
        final(s).temp == old(s).temp,
        final(s).store.global_revoked == old(s).store.global_revoked,
        old(s).store.world(parent_world) is None ==> r == Err::<u32, &'static str>("world not found"),
        old(s).store.world(parent_world) is Some && first_free(old(s).store.worlds@) < MAX_WORLDS
            ==> r == Ok::<u32, &'static str>(old(s).store.next_id),
        old(s).store.world(parent_world) is Some && first_free(old(s).store.worlds@) == MAX_WORLDS
            ==> r == Err::<u32, &'static str>("no free world slots"),
        r is Ok ==> (match final(s).store.worlds@[first_free(old(s).store.worlds@)] {
            Some(child) => child.world_id == old(s).store.next_id && child.inherited_from == Some(
                parent_world,
            ) && forall|c: Capability|
                #[trigger] child.caps.holds(c) ==> old(s).store.effective(
                    old(s).store.world(parent_world)->0,
                ).contains(cap_index(c)) && !non_inheritable(c),
            None => false,
        }),
{
    let child_set = inherit_set(s, parent_world);
    proof {
        if let Some(pw) = s.store.world(parent_world) {
            assert forall|c: Capability| child_set.holds(c) implies #[trigger] set_implies_spec(s.store.effective(pw), c) by {
                assert(implies_spec(c, c));
            }
        }
    }
    proof {
        store::lemma_first_free(s.store.worlds@);
    }
    register_world(&mut s.store, Some(parent_world), child_set)
}

/// A capability granted until a given tick.
#[derive(Clone, Copy)]
pub struct TempGrant {
    pub world_id: u32,
    pub cap: Capability,
    pub expires_tick: u64,
    pub active: bool,
}

/// Number of temporary grants kept at once.
pub const MAX_TEMP: usize = 128;

/// Current tick for temporary grants.
fn now_tick(s: &CapSystem) -> (r: u64)
    ensures
        r == s.tick,
{
    s.tick
}

/// Index of the first inactive temporary grant (the length when all are active).
pub open spec fn first_inactive(t: Seq<TempGrant>) -> int
    decreases t.len(),
{
    if t.len() == 0 {
        0
    } else if !t[0].active {
        0
    } else {
        1 + first_inactive(t.drop_first())
    }
}

proof fn lemma_first_inactive_at(t: Seq<TempGrant>, k: int)
    requires
        0 <= k <= t.len(),
        forall|j: int| 0 <= j < k ==> (#[trigger] t[j]).active,
        k == t.len() || !t[k].active,
    ensures
        first_inactive(t) == k,
    decreases t.len(),
{
    if t.len() > 0 && k > 0 {
        assert(t[0].active);
        assert forall|j: int| 0 <= j < k - 1 implies (#[trigger] t.drop_first()[j]).active by {
            assert(t.drop_first()[j] == t[j + 1]);
        }
        lemma_first_inactive_at(t.drop_first(), k - 1);
    }
}

/// Grant `cap` to `target` until `ttl_ticks` from now.
///
/// The grant itself stays when no slot is free to remember its expiry.
pub fn grant_temporary(s: &mut CapSystem, granter: u32, target: u32, cap: Capability, ttl_ticks: u64) -> (r: CapResult<()>)
    requires
        old(s).wf(),
        old(s).audit.total < u64::MAX,
        old(s).tick + ttl_ticks <= u64::MAX,
    ensures
        final(s).wf(),
        final(s).tick == old(s).tick,
        (r is Ok) ==> first_inactive(old(s).temp@) < MAX_TEMP && final(s).temp@ == old(s).temp@.update(
            first_inactive(old(s).temp@),
            TempGrant { world_id: target, cap, expires_tick: (old(s).tick + ttl_ticks) as u64, active: true },
        ),
        (old(s).has(granter, cap) && old(s).store.grant_ok(target, cap)) ==> ((r is Ok) == (
        first_inactive(old(s).temp@) < MAX_TEMP)),
        !(old(s).has(granter, cap) && old(s).store.grant_ok(target, cap)) ==> r is Err && final(s).temp == old(s).temp
            && final(s).store == old(s).store,
        r is Err ==> final(s).temp == old(s).temp,
{
    grant_cap(s, granter, target, cap)?;
    let now = now_tick(s);
    let mut i: usize = 0;
    while i < s.temp.len()
        invariant
            s.wf(),
            i <= s.temp.len(),
            s.temp == old(s).temp,
            s.tick == old(s).tick,
            now == old(s).tick,
            now + ttl_ticks <= u64::MAX,
            old(s).has(granter, cap) && old(s).store.grant_ok(target, cap),
            forall|j: int| 0 <= j < i ==> (#[trigger] s.temp@[j]).active,
        decreases s.temp.len() - i,
    {
        if !s.temp[i].active {
            proof {
                lemma_first_inactive_at(s.temp@, i as int);
            }
            s.temp.set(i, TempGrant { world_id: target, cap, expires_tick: now + ttl_ticks, active: true });
            return Ok(());
        }
        i = i + 1;
    }
    proof {
        lemma_first_inactive_at(s.temp@, s.temp@.len() as int);
    }
    Err(CapabilityError { required: cap, world_id: Some(target) })
}

/// The temporary grant has expired at tick `now`.
pub open spec fn expired(g: TempGrant, now: u64) -> bool {
    g.active && now >= g.expires_tick
}

/// Take back every temporary grant whose time has come.
pub fn prune_expired(s: &mut CapSystem)
    requires
        old(s).wf(),
        old(s).audit.total + MAX_TEMP <= u64::MAX,
    ensures
        final(s).wf(),
        final(s).tick == old(s).tick,
        final(s).store.global_revoked == old(s).store.global_revoked,
        forall|i: int| 0 <= i < MAX_TEMP ==> #[trigger] final(s).temp@[i] == (TempGrant {
            active: old(s).temp@[i].active && !expired(old(s).temp@[i], old(s).tick),
            ..old(s).temp@[i]
        }),
        forall|id: u32|
            (forall|i: int| 0 <= i < MAX_TEMP ==> !(expired(#[trigger] old(s).temp@[i], old(s).tick)
                && old(s).temp@[i].world_id == id)) ==> #[trigger] final(s).store.world(id) == old(s).store.world(id),
        forall|i: int|
            0 <= i < MAX_TEMP && expired(#[trigger] old(s).temp@[i], old(s).tick) && old(s).store.revokable_world(
                old(s).temp@[i].world_id,
            ) ==> final(s).store.world(old(s).temp@[i].world_id) is Some
                && !final(s).store.world(old(s).temp@[i].world_id)->0.caps.holds(old(s).temp@[i].cap),
{
    let t_now = now_tick(s);
    let mut i: usize = 0;
    while i < s.temp.len()
        invariant
            s.wf(),
            i <= s.temp.len(),
            s.tick == old(s).tick,
            t_now == old(s).tick,
            s.store.global_revoked == old(s).store.global_revoked,
            s.audit.total <= old(s).audit.total + i,
            old(s).audit.total + MAX_TEMP <= u64::MAX,
            forall|j: int| i <= j < MAX_TEMP ==> #[trigger] s.temp@[j] == old(s).temp@[j],
            forall|j: int| 0 <= j < i ==> #[trigger] s.temp@[j] == (TempGrant {
                active: old(s).temp@[j].active && !expired(old(s).temp@[j], old(s).tick),
                ..old(s).temp@[j]
            }),
            forall|id: u32|
                (forall|j: int| 0 <= j < i ==> !(expired(#[trigger] old(s).temp@[j], old(s).tick)
                    && old(s).temp@[j].world_id == id)) ==> #[trigger] s.store.world(id) == old(s).store.world(id),
            forall|j: int|
                0 <= j < i && expired(#[trigger] old(s).temp@[j], old(s).tick) && old(s).store.revokable_world(
                    old(s).temp@[j].world_id,
                ) ==> s.store.world(old(s).temp@[j].world_id) is Some
                    && !s.store.world(old(s).temp@[j].world_id)->0.caps.holds(old(s).temp@[j].cap),
            forall|id: u32| old(s).store.world(id) is Some ==> (#[trigger] s.store.world(id)) is Some
                && s.store.world(id)->0.revokable == old(s).store.world(id)->0.revokable
                && s.store.world(id)->0.caps@.subset_of(old(s).store.world(id)->0.caps@),
            forall|id: u32| old(s).store.world(id) is None ==> #[trigger] s.store.world(id) is None,
        decreases s.temp.len() - i,
    {
        let g = s.temp[i];
        if g.active && t_now >= g.expires_tick {
            let ghost before = s.store;
            let _ = remove_world_cap(&mut s.store, g.world_id, g.cap);
            proof {
                if let Some(w) = before.world(g.world_id) {
                    if w.revokable {
                        w.caps.lemma_remove_spec(g.cap);
                    }
                }
                assert forall|id: u32| old(s).store.world(id) is Some implies (#[trigger] s.store.world(id)) is Some
                    && s.store.world(id)->0.revokable == old(s).store.world(id)->0.revokable
                    && s.store.world(id)->0.caps@.subset_of(old(s).store.world(id)->0.caps@) by {
                    if id == g.world_id {
                        if let Some(wb) = before.world(id) {
                            if wb.revokable {
                                wb.caps.lemma_remove_spec(g.cap);
                            }
                        }
                    }
                }
                assert forall|j: int|
                    0 <= j < i + 1 && expired(#[trigger] old(s).temp@[j], old(s).tick) && old(s).store.revokable_world(
                        old(s).temp@[j].world_id,
                    ) implies s.store.world(old(s).temp@[j].world_id) is Some
                        && !s.store.world(old(s).temp@[j].world_id)->0.caps.holds(old(s).temp@[j].cap) by {
                    let id = old(s).temp@[j].world_id;
                    if id == g.world_id && j < i {
                        let wb = before.world(id)->0;
                        if wb.revokable {
                            wb.caps.lemma_remove_spec(g.cap);
                        }
                    }
                }
            }
            log_revoke(&mut s.audit, g.world_id, g.cap, true);
            s.temp.set(i, TempGrant { active: false, ..g });
        }
        i = i + 1;
    }
}

/// Some active temporary grant gave `cap` to `world_id`.
pub fn is_temporary(s: &CapSystem, world_id: u32, cap: Capability) -> (r: bool)
    ensures
        r == exists|i: int|
            0 <= i < s.temp.len() && (#[trigger] s.temp@[i]).active && s.temp@[i].world_id == world_id
                && s.temp@[i].cap == cap,
{
    let mut i: usize = 0;
    while i < s.temp.len()
        invariant
            i <= s.temp.len(),
            forall|j: int| 0 <= j < i ==> !((#[trigger] s.temp@[j]).active && s.temp@[j].world_id == world_id
                && s.temp@[j].cap == cap),
        decreases s.temp.len() - i,
    {
        let g = s.temp[i];
        if g.active && g.world_id == world_id && g.cap == cap {
            assert(s.temp@[i as int].active);
            return true;
        }
        i = i + 1;
    }
    false
}

/// What a child inherits never holds Root, Admin, Kill, Debug, Ptrace, FsMount,
/// IpcPrivileged or SyscallAll, whatever the parent holds; every other capability
/// that the parent effectively holds is inherited.
pub proof fn law_inherit_set_withholds(s: CapSystem, parent_world: u32, r: CapabilitySet)
    requires
        forall|c: Capability| #[trigger] r.holds(c) == (match s.store.world(parent_world) {
            Some(w) => s.store.effective(w).contains(cap_index(c)),
            None => false,
        } && !non_inheritable(c)),
    ensures
        !r.holds(Capability::Root) && !r.holds(Capability::Admin) && !r.holds(Capability::Kill),
        !r.holds(Capability::Debug) && !r.holds(Capability::Ptrace) && !r.holds(Capability::FsMount),
        !r.holds(Capability::IpcPrivileged) && !r.holds(Capability::SyscallAll),
        forall|c: Capability|
            c != Capability::Root && c != Capability::Admin && c != Capability::Kill && c != Capability::Debug && c
                != Capability::Ptrace && c != Capability::FsMount && c != Capability::IpcPrivileged && c
                != Capability::SyscallAll && s.store.world(parent_world) is Some
                && s.store.effective(s.store.world(parent_world)->0).contains(cap_index(c)) ==> #[trigger] r.holds(c),
{
    assert(!r.holds(Capability::Root));
    assert(!r.holds(Capability::Admin));
    assert(!r.holds(Capability::Kill));
    assert(!r.holds(Capability::Debug));
    assert(!r.holds(Capability::Ptrace));
    assert(!r.holds(Capability::FsMount));
    assert(!r.holds(Capability::IpcPrivileged));
    assert(!r.holds(Capability::SyscallAll));
}

} // verus!
