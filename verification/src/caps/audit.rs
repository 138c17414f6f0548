//! Audit trail: who checked, received or lost which capability, and when.
//!
//! Events go to a ring of `AUDIT_CAP` slots; the ring keeps the newest ones.
use vstd::prelude::*;
use super::types::Capability;

verus! {

/// What happened.
#[derive(Debug, Clone, Copy, PartialEq, Eq, Structural)]
pub enum EventKind {
    CheckOk,
    CheckDeny,
    Grant,
    Revoke,
    Register,
    Unregister,
}

/// One audit record.
#[derive(Debug, Clone, Copy, PartialEq, Eq, Structural)]
pub struct AuditEvent {
    pub seq: u64,
    pub tick: u64,
    pub world_id: u32,
    pub target_world: u32,
    pub cap: Capability,
    pub kind: EventKind,
}

/// Number of slots in the ring.
pub const AUDIT_CAP: usize = 2048;

/// The audit ring. `history` is every event recorded since the last reset.
pub struct AuditLog {
    pub buf: Vec<Option<AuditEvent>>,
    pub head: usize,
    pub seq: u64,
    pub total: u64,
    /// Current time, as read by the caller from the architecture clock.
    pub clock: u64,
    pub history: Ghost<Seq<AuditEvent>>,
}

/// Index in the history of the event that ring slot `j` holds after `total` events.
pub open spec fn slot_event_index(total: int, j: int) -> int {
    total - 1 - ((total - 1 - j) % (AUDIT_CAP as int))
}

/// The number of events `recent(n)` gives: `n`, at most the events logged and at most
/// what the ring holds.
pub open spec fn recent_len(total: nat, n: nat) -> nat {
    let m = if n < total { n } else { total };
    if m < AUDIT_CAP as nat { m } else { AUDIT_CAP as nat }
}

/// The newest events, newest first: `n` of them, at most the events logged and at most
/// what the ring holds, each once.
pub open spec fn recent_spec(history: Seq<AuditEvent>, n: nat) -> Seq<AuditEvent> {
    let total = history.len();
    Seq::new(recent_len(total, n), |t: int| history[total - 1 - t])
}

/// The first `limit` events of `s` that satisfy `p`.
pub open spec fn first_matching(s: Seq<AuditEvent>, p: spec_fn(AuditEvent) -> bool, limit: nat) -> Seq<
    AuditEvent,
> {
    let f = s.filter(p);
    if limit < f.len() {
        f.take(limit as int)
    } else {
        f
    }
}

impl AuditLog {
    /// The ring holds the newest events of `history`, each in slot `seq % AUDIT_CAP`.
    pub open spec fn wf(&self) -> bool {
        &&& self.buf.len() == AUDIT_CAP
        &&& self.seq == self.total
        &&& self.history@.len() == self.total
        &&& self.head == self.total % (AUDIT_CAP as u64)
        &&& forall|k: int| 0 <= k < self.total ==> (#[trigger] self.history@[k]).seq == k
        &&& forall|j: int|
            0 <= j < AUDIT_CAP ==> #[trigger] self.buf@[j] == if slot_event_index(
                self.total as int,
                j,
            ) >= 0 {
                Some(self.history@[slot_event_index(self.total as int, j)])
            } else {
                None
            }
    }

    /// An empty log.
    pub fn new() -> (r: Self)
        ensures
            r.wf(),
            r.total == 0,
            r.clock == 0,
    {
        let mut buf: Vec<Option<AuditEvent>> = Vec::new();
        let mut i: usize = 0;
        while i < AUDIT_CAP
            invariant
                i <= AUDIT_CAP,
                buf.len() == i,
                forall|j: int| 0 <= j < i ==> buf@[j] is None,
            decreases AUDIT_CAP - i,
        {
            buf.push(None);
            i = i + 1;
        }
        AuditLog { buf, head: 0, seq: 0, total: 0, clock: 0, history: Ghost(Seq::empty()) }
    }
}

/// Clear the log.
pub fn init_audit_log(a: &mut AuditLog) -> (r: Result<(), &'static str>)
    requires
        old(a).buf.len() == AUDIT_CAP,
    ensures
        final(a).wf(),
        final(a).total == 0,
        final(a).history@ == Seq::<AuditEvent>::empty(),
        final(a).clock == old(a).clock,
        r is Ok,
{
    a.head = 0;
    a.seq = 0;
    a.total = 0;
    a.history = Ghost(Seq::empty());
    let mut i: usize = 0;
    while i < AUDIT_CAP
        invariant
            i <= AUDIT_CAP,
            a.buf.len() == AUDIT_CAP,
            a.head == 0,
            a.seq == 0,
            a.total == 0,
            a.history@ == Seq::<AuditEvent>::empty(),
            a.clock == old(a).clock,
            forall|j: int| 0 <= j < i ==> a.buf@[j] is None,
        decreases AUDIT_CAP - i,
    {
        a.buf.set(i, None);
        i = i + 1;
    }
    Ok(())
}

/// Current time for audit records.
pub fn now_tick(a: &AuditLog) -> (r: u64)
    ensures
        r == a.clock,
{
    a.clock
}

/// Slot indices shift by one when an event is added.
proof fn lemma_slot_shift(total: int, j: int)
    requires
        total >= 0,
        0 <= j < AUDIT_CAP,
    ensures
        j == total % (AUDIT_CAP as int) ==> slot_event_index(total + 1, j) == total,
        j != total % (AUDIT_CAP as int) ==> slot_event_index(total + 1, j) == slot_event_index(total, j),
{
    let c = AUDIT_CAP as int;
    let x = total - 1 - j;
    assert((x + 1) % c == if x % c == c - 1 { 0 } else { x % c + 1 }) by {
        vstd::arithmetic::div_mod::lemma_fundamental_div_mod(x, c);
        vstd::arithmetic::div_mod::lemma_fundamental_div_mod(x + 1, c);
        vstd::arithmetic::div_mod::lemma_mod_bound(x, c);
        vstd::arithmetic::div_mod::lemma_mod_bound(x + 1, c);
        if x % c == c - 1 {
            vstd::arithmetic::div_mod::lemma_mod_multiples_vanish(x / c + 1, 0, c);
            assert(x + 1 == c * (x / c + 1));
            vstd::arithmetic::div_mod::lemma_mod_multiples_basic(x / c + 1, c);
        } else {
            vstd::arithmetic::div_mod::lemma_mod_multiples_vanish(x / c, x % c + 1, c);
            assert(x + 1 == c * (x / c) + (x % c + 1));
            vstd::arithmetic::div_mod::lemma_small_mod((x % c + 1) as nat, c as nat);
        }
    }
    assert(j == total % c <==> x % c == c - 1) by {
        vstd::arithmetic::div_mod::lemma_fundamental_div_mod(x, c);
        vstd::arithmetic::div_mod::lemma_fundamental_div_mod(total, c);
        vstd::arithmetic::div_mod::lemma_mod_bound(x, c);
        vstd::arithmetic::div_mod::lemma_mod_bound(total, c);
        if x % c == c - 1 {
            assert(total == c * (x / c + 1) + j);
            vstd::arithmetic::div_mod::lemma_mod_multiples_vanish(x / c + 1, j, c);
            vstd::arithmetic::div_mod::lemma_small_mod(j as nat, c as nat);
        }
        if j == total % c {
            assert(x == c * (total / c) - 1);
            assert(x == c * (total / c - 1) + (c - 1));
            vstd::arithmetic::div_mod::lemma_mod_multiples_vanish(total / c - 1, c - 1, c);
            vstd::arithmetic::div_mod::lemma_small_mod((c - 1) as nat, c as nat);
        }
    }
}

/// Record an event in the ring.
fn push(a: &mut AuditLog, kind: EventKind, world: u32, target: u32, cap: Capability)
    requires
        old(a).wf(),
        old(a).total < u64::MAX,
    ensures
        final(a).wf(),
        final(a).clock == old(a).clock,
        final(a).total == old(a).total + 1,
        final(a).history@ == old(a).history@.push(
            AuditEvent {
                seq: old(a).total,
                tick: old(a).clock,
                world_id: world,
                target_world: target,
                cap,
                kind,
            },
        ),
{
    let idx = a.head % AUDIT_CAP;
    let ev = AuditEvent {
        seq: a.seq,
        tick: now_tick(a),
        world_id: world,
        target_world: target,
        cap,
        kind,
    };
    let ghost old_total = a.total as int;
    a.buf.set(idx, Some(ev));
    a.head = (idx + 1) % AUDIT_CAP;
    a.seq = a.seq + 1;
    a.total = a.total + 1;
    a.history = Ghost(a.history@.push(ev));
    proof {
        assert forall|j: int| 0 <= j < AUDIT_CAP implies #[trigger] a.buf@[j] == if slot_event_index(
            a.total as int,
            j,
        ) >= 0 {
            Some(a.history@[slot_event_index(a.total as int, j)])
        } else {
            None
        } by {
            lemma_slot_shift(old_total, j);
            if j != idx {
                assert(a.buf@[j] == old(a).buf@[j]);
                if slot_event_index(old_total, j) >= 0 {
                    assert(a.history@[slot_event_index(old_total, j)] == old(
                        a,
                    ).history@[slot_event_index(old_total, j)]);
                }
            }
        }
        assert forall|k: int| 0 <= k < a.total implies (#[trigger] a.history@[k]).seq == k by {
            if k < old_total {
                assert(a.history@[k] == old(a).history@[k]);
            }
        }
    }
}

/// Record a capability check and its outcome.
pub fn log_check(a: &mut AuditLog, world: u32, cap: Capability, ok: bool)
    requires
        old(a).wf(),
        old(a).total < u64::MAX,
    ensures
        final(a).wf(),
        final(a).clock == old(a).clock,
        final(a).total == old(a).total + 1,
        final(a).history@ == old(a).history@.push(
            AuditEvent {
                seq: old(a).total,
                tick: old(a).clock,
                world_id: world,
                target_world: world,
                cap,
                kind: if ok {
                    EventKind::CheckOk
                } else {
                    EventKind::CheckDeny
                },
            },
        ),
{
    push(
        a,
        if ok {
            EventKind::CheckOk
        } else {
            EventKind::CheckDeny
        },
        world,
        world,
        cap,
    );
}

/// Record a successful grant (failed grants are not recorded).
pub fn log_grant(a: &mut AuditLog, granter: u32, target: u32, cap: Capability, ok: bool)
    requires
        old(a).wf(),
        old(a).total < u64::MAX,
    ensures
        final(a).wf(),
        final(a).clock == old(a).clock,
        final(a).history@ == if ok {
            old(a).history@.push(
                AuditEvent {
                    seq: old(a).total,
                    tick: old(a).clock,
                    world_id: granter,
                    target_world: target,
                    cap,
                    kind: EventKind::Grant,
                },
            )
        } else {
            old(a).history@
        },
        final(a).total == old(a).total + if ok {
            1int
        } else {
            0int
        },
        !ok ==> *final(a) == *old(a),
{
    if ok {
        push(a, EventKind::Grant, granter, target, cap);
    }
}

/// Record a successful revocation.
pub fn log_revoke(a: &mut AuditLog, world: u32, cap: Capability, ok: bool)
    requires
        old(a).wf(),
        old(a).total < u64::MAX,
    ensures
        final(a).wf(),
        final(a).clock == old(a).clock,
        final(a).history@ == if ok {
            old(a).history@.push(
                AuditEvent {
                    seq: old(a).total,
                    tick: old(a).clock,
                    world_id: world,
                    target_world: world,
                    cap,
                    kind: EventKind::Revoke,
                },
            )
        } else {
            old(a).history@
        },
        final(a).total == old(a).total + if ok {
            1int
        } else {
            0int
        },
        !ok ==> *final(a) == *old(a),
{
    if ok {
        push(a, EventKind::Revoke, world, world, cap);
    }
}

/// Record the registration of a world.
pub fn log_register(a: &mut AuditLog, world: u32)
    requires
        old(a).wf(),
        old(a).total < u64::MAX,
    ensures
        final(a).wf(),
        final(a).clock == old(a).clock,
        final(a).total == old(a).total + 1,
        final(a).history@ == old(a).history@.push(
            AuditEvent {
                seq: old(a).total,
                tick: old(a).clock,
                world_id: world,
                target_world: world,
                cap: Capability::User,
                kind: EventKind::Register,
            },
        ),
{
    push(a, EventKind::Register, world, world, Capability::User);
}

/// Record the removal of a world.
pub fn log_unregister(a: &mut AuditLog, world: u32)
    requires
        old(a).wf(),
        old(a).total < u64::MAX,
    ensures
        final(a).wf(),
        final(a).clock == old(a).clock,
        final(a).total == old(a).total + 1,
        final(a).history@ == old(a).history@.push(
            AuditEvent {
                seq: old(a).total,
                tick: old(a).clock,
                world_id: world,
                target_world: world,
                cap: Capability::User,
                kind: EventKind::Unregister,
            },
        ),
{
    push(a, EventKind::Unregister, world, world, Capability::User);
}

/// Number of events recorded since the last reset.
pub fn count(a: &AuditLog) -> (r: usize)
    ensures
        r == a.total as usize,
{
    a.total as usize
}

/// The `n` newest events, newest first.
pub fn recent(a: &AuditLog, n: usize) -> (r: Vec<AuditEvent>)
    requires
        a.wf(),
    ensures
        r@ == recent_spec(a.history@, n as nat),
{
    let mut out: Vec<AuditEvent> = Vec::new();
    let mut idx: usize = if a.head == 0 {
        AUDIT_CAP - 1
    } else {
        a.head - 1
    };
    let ghost total = a.total as int;
    let ghost c = AUDIT_CAP as int;
    let mut it: usize = 0;
    proof {
        vstd::arithmetic::div_mod::lemma_fundamental_div_mod(total, c);
        vstd::arithmetic::div_mod::lemma_mod_bound(total, c);
        if a.head == 0 {
            if total > 0 {
                assert(total - 1 == c * (total / c - 1) + (c - 1));
                vstd::arithmetic::div_mod::lemma_mod_multiples_vanish(total / c - 1, c - 1, c);
            } else {
                assert(-1 == c * (-1) + (c - 1));
                vstd::arithmetic::div_mod::lemma_mod_multiples_vanish(-1, c - 1, c);
            }
            vstd::arithmetic::div_mod::lemma_small_mod((c - 1) as nat, c as nat);
        } else {
            assert(total - 1 == c * (total / c) + (a.head - 1));
            vstd::arithmetic::div_mod::lemma_mod_multiples_vanish(total / c, a.head - 1, c);
            vstd::arithmetic::div_mod::lemma_small_mod((a.head - 1) as nat, c as nat);
        }
    }
    while it < n
        invariant
            a.wf(),
            total == a.total,
            c == AUDIT_CAP,
            it <= n,
            it <= c,
            out.len() == it,
            it <= total,
            idx < AUDIT_CAP,
            idx as int == (total - 1 - it) % c,
            forall|t: int| 0 <= t < it ==> out@[t] == a.history@[total - 1 - (t % c)],
        ensures
            out.len() == recent_len(total as nat, n as nat),
            out.len() <= c,
            forall|t: int| 0 <= t < out.len() ==> out@[t] == a.history@[total - 1 - (t % c)],
        decreases n - it,
    {
        if it as u64 >= a.total {
            break;
        }
        if it >= AUDIT_CAP {
            break;
        }
        proof {
            let x = total - 1 - it;
            let s = slot_event_index(total, idx as int);
            assert(s == total - 1 - ((it as int) % c)) by {
                vstd::arithmetic::div_mod::lemma_fundamental_div_mod(x, c);
                vstd::arithmetic::div_mod::lemma_mod_bound(x, c);
                vstd::arithmetic::div_mod::lemma_fundamental_div_mod(it as int, c);
                vstd::arithmetic::div_mod::lemma_mod_bound(it as int, c);
                let y = total - 1 - idx;
                assert(y == it + c * (x / c));
                vstd::arithmetic::div_mod::lemma_mod_multiples_vanish(x / c, it as int, c);
            }
            assert(s >= 0) by {
                vstd::arithmetic::div_mod::lemma_mod_bound(it as int, c);
                if total >= c {
                } else {
                    vstd::arithmetic::div_mod::lemma_small_mod(it as nat, c as nat);
                }
            }
        }
        match a.buf[idx] {
            Some(ev) => {
                out.push(ev);
            },
            None => {},
        }
        proof {
            let x = total - 1 - it;
            vstd::arithmetic::div_mod::lemma_fundamental_div_mod(x, c);
            vstd::arithmetic::div_mod::lemma_mod_bound(x, c);
            vstd::arithmetic::div_mod::lemma_fundamental_div_mod(x - 1, c);
            vstd::arithmetic::div_mod::lemma_mod_bound(x - 1, c);
            if idx == 0 {
                assert((x - 1) % c == c - 1) by {
                    assert(x - 1 == c * (x / c - 1) + (c - 1));
                    vstd::arithmetic::div_mod::lemma_mod_multiples_vanish(x / c - 1, c - 1, c);
                    vstd::arithmetic::div_mod::lemma_small_mod((c - 1) as nat, c as nat);
                }
            } else {
                assert((x - 1) % c == idx - 1) by {
                    assert(x - 1 == c * (x / c) + (idx - 1));
                    vstd::arithmetic::div_mod::lemma_mod_multiples_vanish(x / c, idx - 1, c);
                    vstd::arithmetic::div_mod::lemma_small_mod((idx - 1) as nat, c as nat);
                }
            }
        }
        if idx == 0 {
            idx = AUDIT_CAP - 1;
        } else {
            idx = idx - 1;
        }
        it = it + 1;
        if out.len() as u64 >= a.total {
            break;
        }
    }
    proof {
        assert forall|t: int| 0 <= t < out.len() implies out@[t] == a.history@[total - 1 - t] by {
            vstd::arithmetic::div_mod::lemma_small_mod(t as nat, c as nat);
        }
        assert(out@ =~= recent_spec(a.history@, n as nat));
    }
    out
}

/// Selects events by kind, or by the world they concern.
pub open spec fn audit_filter(world: u32, kind: EventKind, by_kind: bool) -> spec_fn(AuditEvent) -> bool {
    |e: AuditEvent| if by_kind {
        e.kind == kind
    } else {
        e.world_id == world || e.target_world == world
    }
}

/// The first `limit` events among the ring's newest ones that the filter selects.
fn filter_recent(a: &AuditLog, world: u32, kind: EventKind, by_kind: bool, limit: usize) -> (r: Vec<AuditEvent>)
    requires
        a.wf(),
    ensures
        r@ == first_matching(recent_spec(a.history@, AUDIT_CAP as nat), audit_filter(world, kind, by_kind), limit as nat),
{
    let ghost p = audit_filter(world, kind, by_kind);
    let all = recent(a, AUDIT_CAP);
    let mut out: Vec<AuditEvent> = Vec::new();
    let mut i: usize = 0;
    proof {
        assert(all@.take(all.len() as int) =~= all@);
    }
    while i < all.len()
        invariant
            i <= all.len(),
            all@.take(all.len() as int) == all@,
            out@ == all@.take(i as int).filter(p),
            out.len() <= limit,
            p == audit_filter(world, kind, by_kind),
        ensures
            out@ == first_matching(all@, p, limit as nat),
        decreases all.len() - i,
    {
        if out.len() >= limit {
            proof {
                assert(out@ =~= first_matching(all@, p, limit as nat)) by {
                    lemma_filter_prefix(all@, p, i as int);
                }
            }
            break;
        }
        let e = all[i];
        proof {
            assert(all@.take(i as int + 1) =~= all@.take(i as int).push(e));
            all@.take(i as int).lemma_filter_push(e, p);
        }
        let hit = if by_kind {
            e.kind == kind
        } else {
            e.world_id == world || e.target_world == world
        };
        if hit {
            out.push(e);
        }
        i = i + 1;
    }
    proof {
        if i == all.len() && out.len() < limit {
            assert(all@.take(i as int) =~= all@);
        }
    }
    out
}

/// Filtering a prefix gives a prefix of the filtered sequence.
proof fn lemma_filter_prefix(s: Seq<AuditEvent>, p: spec_fn(AuditEvent) -> bool, i: int)
    requires
        0 <= i <= s.len(),
    ensures
        s.take(i).filter(p).len() <= s.filter(p).len(),
        s.filter(p).take(s.take(i).filter(p).len() as int) == s.take(i).filter(p),
    decreases s.len() - i,
{
    if i == s.len() {
        assert(s.take(i) =~= s);
    } else {
        lemma_filter_prefix(s, p, i + 1);
        assert(s.take(i + 1) =~= s.take(i).push(s[i]));
        s.take(i).lemma_filter_push(s[i], p);
        let a = s.take(i).filter(p);
        let b = s.take(i + 1).filter(p);
        assert(b.take(a.len() as int) =~= a);
        assert(s.filter(p).take(a.len() as int) =~= s.filter(p).take(b.len() as int).take(a.len() as int));
    }
}

/// Events concerning `world` (as actor or target), newest first, at most `limit`.
pub fn by_world(a: &AuditLog, world: u32, limit: usize) -> (r: Vec<AuditEvent>)
    requires
        a.wf(),
    ensures
        r@ == first_matching(
            recent_spec(a.history@, AUDIT_CAP as nat),
            |e: AuditEvent| e.world_id == world || e.target_world == world,
            limit as nat,
        ),
{
    let r = filter_recent(a, world, EventKind::CheckOk, false, limit);
    assert(audit_filter(world, EventKind::CheckOk, false) =~= (|e: AuditEvent| e.world_id == world || e.target_world == world));
    r
}

/// Events of kind `kind`, newest first, at most `limit`.
pub fn by_kind(a: &AuditLog, kind: EventKind, limit: usize) -> (r: Vec<AuditEvent>)
    requires
        a.wf(),
    ensures
        r@ == first_matching(
            recent_spec(a.history@, AUDIT_CAP as nat),
            |e: AuditEvent| e.kind == kind,
            limit as nat,
        ),
{
    let r = filter_recent(a, 0, kind, true, limit);
    assert(audit_filter(0, kind, true) =~= (|e: AuditEvent| e.kind == kind));
    r
}

/// Number of denied checks among the ring's newest events.
pub fn deny_count(a: &AuditLog) -> (r: usize)
    requires
        a.wf(),
    ensures
        r == first_matching(
            recent_spec(a.history@, AUDIT_CAP as nat),
            |e: AuditEvent| e.kind == EventKind::CheckDeny,
            AUDIT_CAP as nat,
        ).len(),
{
    by_kind(a, EventKind::CheckDeny, AUDIT_CAP).len()
}

/// `recent(n)` gives the newest events, newest first and each once: as many as `n`,
/// the events logged and the ring's size allow, the `i`-th being event number
/// `total - 1 - i`.
pub proof fn law_recent_newest_first(a: AuditLog, n: nat)
    requires
        a.wf(),
    ensures
        recent_spec(a.history@, n).len() == recent_len(a.total as nat, n),
        recent_spec(a.history@, n).len() <= AUDIT_CAP,
        forall|i: int| 0 <= i < recent_spec(a.history@, n).len()
            ==> (#[trigger] recent_spec(a.history@, n)[i]).seq == a.total - 1 - i,
{
}

/// The denied checks among the newest events, as `deny_count` counts them.
pub open spec fn denies(history: Seq<AuditEvent>) -> nat {
    first_matching(recent_spec(history, AUDIT_CAP as nat), |e: AuditEvent| e.kind == EventKind::CheckDeny, AUDIT_CAP as nat).len()
}

/// While the ring has not wrapped, each denied check that is logged adds one to the
/// denial count, and each allowed check leaves it as it was.
pub proof fn law_deny_count_grows(history: Seq<AuditEvent>, e: AuditEvent)
    requires
        history.len() < AUDIT_CAP,
    ensures
        denies(history.push(e)) == denies(history) + if e.kind == EventKind::CheckDeny { 1nat } else { 0nat },
{
    let p = |x: AuditEvent| x.kind == EventKind::CheckDeny;
    let h1 = history.push(e);
    let r0 = recent_spec(history, AUDIT_CAP as nat);
    let r1 = recent_spec(h1, AUDIT_CAP as nat);
    assert(r1 =~= seq![e] + r0);
    Seq::filter_distributes_over_add(seq![e], r0, p);
    r0.lemma_filter_len(p);
    r1.lemma_filter_len(p);
    assert(seq![e].filter(p).len() == if e.kind == EventKind::CheckDeny { 1nat } else { 0nat }) by {
        reveal_with_fuel(Seq::filter, 2);
        assert(seq![e].drop_last() =~= Seq::<AuditEvent>::empty());
    }
}

} // verus!
