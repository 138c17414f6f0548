//! Capability store: the capability set of each registered world, plus the
//! capabilities revoked from everybody.
use vstd::prelude::*;
use super::types::{Capability, CapabilitySet, cap_index, lemma_cap_index};
use super::hierarchy::{set_implies, set_implies_spec};

verus! {

/// Number of world slots in the store.
pub const MAX_WORLDS: usize = 256;

/// Capabilities of one world.
#[derive(Clone, Copy)]
pub struct WorldCaps {
    pub world_id: u32,
    pub caps: CapabilitySet,
    pub inherited_from: Option<u32>,
    pub revokable: bool,
}

/// The store: fixed world slots, the globally revoked set and the next identifier.
pub struct StoreInner {
    pub worlds: Vec<Option<WorldCaps>>,
    pub global_revoked: CapabilitySet,
    pub next_id: u32,
}

/// The slot holds the world with identifier `id`.
pub open spec fn slot_matches(slot: Option<WorldCaps>, id: u32) -> bool {
    slot matches Some(w) && w.world_id == id
}

/// Index of the first slot holding world `id` (the length when there is none).
pub open spec fn first_match(s: Seq<Option<WorldCaps>>, id: u32) -> int
    decreases s.len(),
{
    if s.len() == 0 {
        0
    } else if slot_matches(s[0], id) {
        0
    } else {
        1 + first_match(s.drop_first(), id)
    }
}

/// Index of the first free slot (the length when there is none).
pub open spec fn first_free(s: Seq<Option<WorldCaps>>) -> int
    decreases s.len(),
{
    if s.len() == 0 {
        0
    } else if s[0] is None {
        0
    } else {
        1 + first_free(s.drop_first())
    }
}

/// The world that a lookup of `id` finds: the first slot holding it.
pub open spec fn lookup(s: Seq<Option<WorldCaps>>, id: u32) -> Option<WorldCaps> {
    if first_match(s, id) < s.len() {
        s[first_match(s, id)]
    } else {
        None
    }
}

/// Number of occupied slots.
pub open spec fn count_used(s: Seq<Option<WorldCaps>>) -> nat
    decreases s.len(),
{
    if s.len() == 0 {
        0
    } else {
        count_used(s.drop_last()) + if s.last() is Some {
            1nat
        } else {
            0nat
        }
    }
}

/// `first_match` is the first slot holding `id`.
pub proof fn lemma_first_match(s: Seq<Option<WorldCaps>>, id: u32)
    ensures
        0 <= first_match(s, id) <= s.len(),
        first_match(s, id) < s.len() ==> slot_matches(s[first_match(s, id)], id),
        forall|j: int| 0 <= j < first_match(s, id) ==> !slot_matches(#[trigger] s[j], id),
    decreases s.len(),
{
    if s.len() > 0 && !slot_matches(s[0], id) {
        lemma_first_match(s.drop_first(), id);
        assert forall|j: int| 0 <= j < first_match(s, id) implies !slot_matches(#[trigger] s[j], id) by {
            if j > 0 {
                assert(s[j] == s.drop_first()[j - 1]);
            }
        }
    }
}

/// A slot holding `id` with no earlier such slot is the first match.
pub proof fn lemma_first_match_at(s: Seq<Option<WorldCaps>>, id: u32, k: int)
    requires
        0 <= k <= s.len(),
        forall|j: int| 0 <= j < k ==> !slot_matches(#[trigger] s[j], id),
        k == s.len() || slot_matches(s[k], id),
    ensures
        first_match(s, id) == k,
    decreases s.len(),
{
    if s.len() > 0 && k > 0 {
        assert(!slot_matches(s[0], id));
        assert forall|j: int| 0 <= j < k - 1 implies !slot_matches(#[trigger] s.drop_first()[j], id) by {
            assert(s.drop_first()[j] == s[j + 1]);
        }
        lemma_first_match_at(s.drop_first(), id, k - 1);
    }
}

/// `first_free` is the first empty slot.
pub proof fn lemma_first_free(s: Seq<Option<WorldCaps>>)
    ensures
        0 <= first_free(s) <= s.len(),
        first_free(s) < s.len() ==> s[first_free(s)] is None,
        forall|j: int| 0 <= j < first_free(s) ==> (#[trigger] s[j]) is Some,
    decreases s.len(),
{
    if s.len() > 0 && !(s[0] is None) {
        lemma_first_free(s.drop_first());
        assert forall|j: int| 0 <= j < first_free(s) implies (#[trigger] s[j]) is Some by {
            if j > 0 {
                assert(s[j] == s.drop_first()[j - 1]);
            }
        }
    }
}

/// An empty slot with no earlier empty slot is the first free one.
pub proof fn lemma_first_free_at(s: Seq<Option<WorldCaps>>, k: int)
    requires
        0 <= k <= s.len(),
        forall|j: int| 0 <= j < k ==> (#[trigger] s[j]) is Some,
        k == s.len() || s[k] is None,
    ensures
        first_free(s) == k,
    decreases s.len(),
{
    if s.len() > 0 && k > 0 {
        assert(s[0] is Some);
        assert forall|j: int| 0 <= j < k - 1 implies (#[trigger] s.drop_first()[j]) is Some by {
            assert(s.drop_first()[j] == s[j + 1]);
        }
        lemma_first_free_at(s.drop_first(), k - 1);
    }
}

/// Replacing a slot that holds `id` neither before nor after leaves the lookup of `id` alone.
pub proof fn lemma_lookup_update(s: Seq<Option<WorldCaps>>, i: int, x: Option<WorldCaps>, id: u32)
    requires
        0 <= i < s.len(),
        !slot_matches(s[i], id),
        !slot_matches(x, id),
    ensures
        lookup(s.update(i, x), id) == lookup(s, id),
        first_match(s.update(i, x), id) == first_match(s, id),
{
    let t = s.update(i, x);
    lemma_first_match(s, id);
    let k = first_match(s, id);
    assert forall|j: int| 0 <= j < k implies !slot_matches(#[trigger] t[j], id) by {
        assert(!slot_matches(s[j], id));
    }
    if k < s.len() {
        assert(t[k] == s[k]);
    }
    lemma_first_match_at(t, id, k);
}

/// Lookup of `id` in a store whose slot `i` is its first match and is replaced by another world `id`.
pub proof fn lemma_lookup_replace(s: Seq<Option<WorldCaps>>, i: int, x: Option<WorldCaps>, id: u32)
    requires
        0 <= i < s.len(),
        first_match(s, id) == i,
        slot_matches(x, id),
    ensures
        lookup(s.update(i, x), id) == x,
{
    let t = s.update(i, x);
    lemma_first_match(s, id);
    assert forall|j: int| 0 <= j < i implies !slot_matches(#[trigger] t[j], id) by {
        assert(!slot_matches(s[j], id));
    }
    lemma_first_match_at(t, id, i);
}

impl StoreInner {
    /// Well-formed: one slot per possible world.
    pub open spec fn wf(&self) -> bool {
        self.worlds.len() == MAX_WORLDS
    }

    /// The world that a lookup of `id` finds.
    pub open spec fn world(&self, id: u32) -> Option<WorldCaps> {
        lookup(self.worlds@, id)
    }

    /// Capabilities of world `id` that are not revoked globally.
    pub open spec fn effective(&self, w: WorldCaps) -> Set<int> {
        w.caps@.difference(self.global_revoked@)
    }

    /// The world `id` holds `cap` directly or through an ancestor, after global revocation.
    pub open spec fn has_cap_spec(&self, id: u32, cap: Capability) -> bool {
        match self.world(id) {
            Some(w) => set_implies_spec(self.effective(w), cap),
            None => false,
        }
    }

    /// Every capability of `initial` is within the effective set of `parent_world`.
    pub open spec fn within_parent(&self, parent: WorldCaps, initial: CapabilitySet) -> bool {
        forall|c: Capability| initial.holds(c) ==> #[trigger] set_implies_spec(self.effective(parent), c)
    }

    /// Adding `cap` to world `w` keeps it within its parent's effective capabilities.
    pub open spec fn add_allowed(&self, w: WorldCaps, cap: Capability) -> bool {
        match w.inherited_from {
            None => true,
            Some(pid) => match self.world(pid) {
                None => false,
                Some(pw) => forall|c: Capability|
                    (self.effective(w).contains(cap_index(c)) || c == cap) ==> #[trigger] set_implies_spec(
                        self.effective(pw),
                        c,
                    ),
            },
        }
    }

    /// Adding `cap` to world `id` succeeds.
    pub open spec fn grant_ok(&self, id: u32, cap: Capability) -> bool {
        match self.world(id) {
            Some(w) => self.add_allowed(w, cap),
            None => false,
        }
    }

    /// World `id` exists and may be given `caps`: it has no parent, or its parent
    /// exists and grants every capability of `caps`.
    pub open spec fn set_allowed(&self, id: u32, caps: CapabilitySet) -> bool {
        match self.world(id) {
            None => false,
            Some(w) => match w.inherited_from {
                None => true,
                Some(pid) => match self.world(pid) {
                    None => false,
                    Some(pw) => self.within_parent(pw, caps),
                },
            },
        }
    }

    /// World `id` exists and its effective capabilities, extended by `extra`, may be
    /// stored for it: it has no parent, or each of them is within its parent's
    /// effective set.
    pub open spec fn extend_allowed(&self, id: u32, extra: CapabilitySet) -> bool {
        match self.world(id) {
            None => false,
            Some(w) => match w.inherited_from {
                None => true,
                Some(pid) => match self.world(pid) {
                    None => false,
                    Some(pw) => forall|c: Capability|
                        (self.effective(w).contains(cap_index(c)) || extra.holds(c)) ==> #[trigger] set_implies_spec(
                            self.effective(pw),
                            c,
                        ),
                },
            },
        }
    }

    /// World `id` exists and its capabilities may be revoked.
    pub open spec fn revokable_world(&self, id: u32) -> bool {
        match self.world(id) {
            Some(w) => w.revokable,
            None => false,
        }
    }

    /// An empty store: no world, nothing revoked, identifiers starting at 1.
    pub fn new() -> (r: Self)
        ensures
            r.wf(),
            r.next_id == 1,
            r.global_revoked@ == Set::<int>::empty(),
            forall|i: int| 0 <= i < MAX_WORLDS ==> r.worlds@[i] is None,
    {
        let mut worlds: Vec<Option<WorldCaps>> = Vec::new();
        let mut i: usize = 0;
        while i < MAX_WORLDS
            invariant
                i <= MAX_WORLDS,
                worlds.len() == i,
                forall|j: int| 0 <= j < i ==> worlds@[j] is None,
            decreases MAX_WORLDS - i,
        {
            worlds.push(None);
            i = i + 1;
        }
        StoreInner { worlds, global_revoked: CapabilitySet::empty(), next_id: 1 }
    }
}

/// Empty every world slot (the identifier counter and global revocations stay).
pub fn init_store(s: &mut StoreInner) -> (r: Result<(), &'static str>)
    requires
        old(s).wf(),
    ensures
        final(s).wf(),
        r is Ok,
        forall|i: int| 0 <= i < MAX_WORLDS ==> final(s).worlds@[i] is None,
        final(s).next_id == old(s).next_id,
        final(s).global_revoked == old(s).global_revoked,
{
    let mut i: usize = 0;
    while i < MAX_WORLDS
        invariant
            i <= MAX_WORLDS,
            s.worlds.len() == MAX_WORLDS,
            forall|j: int| 0 <= j < i ==> s.worlds@[j] is None,
            s.next_id == old(s).next_id,
            s.global_revoked == old(s).global_revoked,
        decreases MAX_WORLDS - i,
    {
        s.worlds.set(i, None);
        i = i + 1;
    }
    Ok(())
}

/// Every capability minus the globally revoked ones.
pub fn global_caps(s: &StoreInner) -> (r: CapabilitySet)
    ensures
        r@ == Set::new(|i: int| 0 <= i < 30).difference(s.global_revoked@),
{
    CapabilitySet::all().diff(s.global_revoked)
}

/// The world `world_id` (the first slot holding it).
pub fn find_world_inner(s: &StoreInner, world_id: u32) -> (r: Result<WorldCaps, &'static str>)
    ensures
        match r {
            Ok(w) => s.world(world_id) == Some(w),
            Err(e) => s.world(world_id) is None && e == "world not found",
        },
{
    let mut i: usize = 0;
    while i < s.worlds.len()
        invariant
            i <= s.worlds.len(),
            forall|j: int| 0 <= j < i ==> !slot_matches(#[trigger] s.worlds@[j], world_id),
        decreases s.worlds.len() - i,
    {
        match s.worlds[i] {
            Some(wc) => {
                if wc.world_id == world_id {
                    proof {
                        lemma_first_match_at(s.worlds@, world_id, i as int);
                    }
                    return Ok(wc);
                }
            },
            None => {},
        }
        i = i + 1;
    }
    proof {
        lemma_first_match_at(s.worlds@, world_id, s.worlds@.len() as int);
    }
    Err("world not found")
}

/// Check that every capability of `caps` is granted by `parent_eff`.
fn all_within(parent_eff: CapabilitySet, caps: CapabilitySet) -> (r: bool)
    ensures
        r == forall|c: Capability| caps.holds(c) ==> #[trigger] set_implies_spec(parent_eff@, c),
{
    let list = caps.iter();
    let mut i: usize = 0;
    while i < list.len()
        invariant
            i <= list.len(),
            forall|c: Capability| list@.contains(c) <==> caps.holds(c),
            forall|j: int| 0 <= j < i ==> set_implies_spec(parent_eff@, #[trigger] list@[j]),
        decreases list.len() - i,
    {
        if !set_implies(parent_eff, list[i]) {
            assert(caps.holds(list@[i as int])) by {
                assert(list@.contains(list@[i as int]));
            }
            return false;
        }
        i = i + 1;
    }
    assert forall|c: Capability| caps.holds(c) implies #[trigger] set_implies_spec(parent_eff@, c) by {
        assert(list@.contains(c));
        let j = choose|j: int| 0 <= j < list.len() && list@[j] == c;
        assert(set_implies_spec(parent_eff@, list@[j]));
    }
    true
}

/// Register a new world with `initial` capabilities, under `parent_world` when given.
///
/// A child may only receive capabilities that its parent's effective set grants.
/// The identifier counter advances even when no slot is free.
pub fn register_world(s: &mut StoreInner, parent_world: Option<u32>, initial: CapabilitySet) -> (r:
    Result<u32, &'static str>)
    requires
        old(s).wf(),
    ensures
        final(s).wf(),
        final(s).global_revoked == old(s).global_revoked,
        match parent_world {
            Some(pwid) => match old(s).world(pwid) {
                None => r == Err::<u32, &'static str>("world not found") && *final(s) == *old(s),
                Some(pw) => !old(s).within_parent(pw, initial) ==> (r == Err::<u32, &'static str>(
                    "child capability exceeds parent") && *final(s) == *old(s)),
            },
            None => true,
        },
        (match parent_world {
            Some(pwid) => old(s).world(pwid) is Some && old(s).within_parent(
                old(s).world(pwid)->0,
                initial,
            ),
            None => true,
        }) ==> {
            &&& final(s).next_id == old(s).next_id.wrapping_add(1)
            &&& first_free(old(s).worlds@) == MAX_WORLDS ==> (r == Err::<u32, &'static str>(
                "no free world slots") && final(s).worlds == old(s).worlds)
            &&& first_free(old(s).worlds@) < MAX_WORLDS ==> (r == Ok::<u32, &'static str>(
                old(s).next_id) && final(s).worlds@ == old(s).worlds@.update(
                first_free(old(s).worlds@),
                Some(
                    WorldCaps {
                        world_id: old(s).next_id,
                        caps: initial,
                        inherited_from: parent_world,
                        revokable: true,
                    },
                ),
            ))
        },
{
    if let Some(pwid) = parent_world {
        let parent_caps = find_world_inner(s, pwid)?;
        let parent_eff = parent_caps.caps.diff(s.global_revoked);
        let ok = all_within(parent_eff, initial);
        proof {
            assert(parent_eff@ == s.effective(parent_caps));
            assert(ok == s.within_parent(parent_caps, initial));
        }
        if !ok {
            return Err("child capability exceeds parent");
        }
    }
    let id = s.next_id;
    s.next_id = s.next_id.wrapping_add(1);
    let mut i: usize = 0;
    while i < s.worlds.len()
        invariant
            i <= s.worlds.len(),
            s.worlds.len() == MAX_WORLDS,
            s.worlds == old(s).worlds,
            s.global_revoked == old(s).global_revoked,
            s.next_id == old(s).next_id.wrapping_add(1),
            id == old(s).next_id,
            forall|j: int| 0 <= j < i ==> (#[trigger] s.worlds@[j]) is Some,
            match parent_world {
                Some(pwid) => old(s).world(pwid) is Some && old(s).within_parent(
                    old(s).world(pwid)->0,
                    initial,
                ),
                None => true,
            },
        decreases s.worlds.len() - i,
    {
        if s.worlds[i].is_none() {
            proof {
                lemma_first_free_at(s.worlds@, i as int);
            }
            s.worlds.set(
                i,
                Some(
                    WorldCaps { world_id: id, caps: initial, inherited_from: parent_world, revokable: true },
                ),
            );
            return Ok(id);
        }
        i = i + 1;
    }
    proof {
        lemma_first_free_at(s.worlds@, s.worlds@.len() as int);
    }
    Err("no free world slots")
}

/// Effective capabilities of world `world_id` (its set minus the globally revoked ones).
pub fn get_world_caps(s: &StoreInner, world_id: u32) -> (r: Result<CapabilitySet, &'static str>)
    ensures
        match s.world(world_id) {
            Some(w) => r matches Ok(c) && c@ == s.effective(w),
            None => r == Err::<CapabilitySet, &'static str>("world not found"),
        },
{
    let wc = find_world_inner(s, world_id)?;
    Ok(wc.caps.diff(s.global_revoked))
}

/// Replace the capability set of world `world_id`; a world with a parent may only hold what
/// the parent's effective set grants.
pub fn set_world_caps(s: &mut StoreInner, world_id: u32, new_caps: CapabilitySet) -> (r: Result<
    (),
    &'static str,
>)
    requires
        old(s).wf(),
    ensures
        final(s).wf(),
        final(s).next_id == old(s).next_id,
        final(s).global_revoked == old(s).global_revoked,
        match old(s).world(world_id) {
            None => r == Err::<(), &'static str>("world not found") && *final(s) == *old(s),
            Some(w) => match w.inherited_from {
                Some(pid) => match old(s).world(pid) {
                    None => r == Err::<(), &'static str>("world not found") && *final(s) == *old(
                        s,
                    ),
                    Some(pw) => if old(s).within_parent(pw, new_caps) {
                        r is Ok && final(s).worlds@ == old(s).worlds@.update(
                            first_match(old(s).worlds@, world_id),
                            Some(WorldCaps { caps: new_caps, ..w }),
                        )
                    } else {
                        r == Err::<(), &'static str>("cannot grant capability exceeding parent")
                            && *final(s) == *old(s)
                    },
                },
                None => r is Ok && final(s).worlds@ == old(s).worlds@.update(
                    first_match(old(s).worlds@, world_id),
                    Some(WorldCaps { caps: new_caps, ..w }),
                ),
            },
        },
        r is Ok ==> final(s).world(world_id) == Some(
            WorldCaps { caps: new_caps, ..old(s).world(world_id)->0 },
        ),
        r is Ok ==> forall|other: u32|
            other != world_id ==> #[trigger] final(s).world(other) == old(s).world(other),
{
    let wc = find_world_inner(s, world_id)?;
    if let Some(parent_id) = wc.inherited_from {
        let parent_caps = find_world_inner(s, parent_id)?;
        let parent_eff = parent_caps.caps.diff(s.global_revoked);
        let ok = all_within(parent_eff, new_caps);
        proof {
            assert(parent_eff@ == s.effective(parent_caps));
            assert(ok == s.within_parent(parent_caps, new_caps));
        }
        if !ok {
            return Err("cannot grant capability exceeding parent");
        }
    }
    proof {
        lemma_first_match(s.worlds@, world_id);
    }
    let mut i: usize = 0;
    while i < s.worlds.len()
        invariant
            i <= s.worlds.len(),
            s.worlds.len() == MAX_WORLDS,
            s.worlds == old(s).worlds,
            s.global_revoked == old(s).global_revoked,
            s.next_id == old(s).next_id,
            old(s).world(world_id) == Some(wc),
            forall|j: int| 0 <= j < i ==> !slot_matches(#[trigger] s.worlds@[j], world_id),
            match wc.inherited_from {
                Some(pid) => old(s).world(pid) is Some && old(s).within_parent(
                    old(s).world(pid)->0,
                    new_caps,
                ),
                None => true,
            },
        decreases s.worlds.len() - i,
    {
        match s.worlds[i] {
            Some(w) => {
                if w.world_id == world_id {
                    proof {
                        lemma_first_match_at(s.worlds@, world_id, i as int);
                    }
                    let updated = WorldCaps { caps: new_caps, ..w };
                    let ghost prev = s.worlds@;
                    s.worlds.set(i, Some(updated));
                    proof {
                        lemma_lookup_replace(prev, i as int, Some(updated), world_id);
                        assert forall|other: u32| other != world_id implies #[trigger] lookup(
                            s.worlds@,
                            other,
                        ) == lookup(prev, other) by {
                            lemma_lookup_update(prev, i as int, Some(updated), other);
                        }
                    }
                    return Ok(());
                }
            },
            None => {},
        }
        i = i + 1;
    }
    proof {
        lemma_first_match_at(s.worlds@, world_id, s.worlds@.len() as int);
    }
    Err("world not found")
}

/// Add `cap` to the effective set of world `world_id`.
pub fn add_world_cap(s: &mut StoreInner, world_id: u32, cap: Capability) -> (r: Result<
    (),
    &'static str,
>)
    requires
        old(s).wf(),
    ensures
        final(s).wf(),
        final(s).next_id == old(s).next_id,
        final(s).global_revoked == old(s).global_revoked,
        old(s).world(world_id) is None ==> r == Err::<(), &'static str>("world not found")
            && *final(s) == *old(s),
        r is Err ==> *final(s) == *old(s),
        r is Ok ==> old(s).world(world_id) is Some && final(s).world(world_id) is Some
            && final(s).world(world_id)->0.caps@ == old(s).effective(old(s).world(world_id)->0).insert(
            cap_index(cap),
        ) && final(s).world(world_id)->0.inherited_from == old(s).world(
            world_id,
        )->0.inherited_from && final(s).world(world_id)->0.revokable == old(s).world(
            world_id,
        )->0.revokable,
        r is Ok ==> forall|other: u32|
            other != world_id ==> #[trigger] final(s).world(other) == old(s).world(other),
        r is Ok ==> final(s).worlds@ == old(s).worlds@.update(
            first_match(old(s).worlds@, world_id),
            final(s).world(world_id),
        ),
        (r is Ok) == old(s).grant_ok(world_id, cap),
{
    let current = get_world_caps(s, world_id)?;
    let next = current.add(cap);
    let ghost w = old(s).world(world_id)->0;
    proof {
        assert forall|c: Capability| next.holds(c) == (old(s).effective(w).contains(cap_index(c)) || c == cap) by {
            lemma_cap_index(c);
            lemma_cap_index(cap);
            if cap_index(c) == cap_index(cap) {
                super::types::lemma_cap_at(cap_index(c));
            }
        }
        if let Some(pid) = w.inherited_from {
            if let Some(pw) = old(s).world(pid) {
                assert(old(s).within_parent(pw, next) == old(s).add_allowed(w, cap));
            }
        }
    }
    set_world_caps(s, world_id, next)
}

/// Remove `cap` from world `world_id` (refused for non-revokable worlds).
pub fn remove_world_cap(s: &mut StoreInner, world_id: u32, cap: Capability) -> (r: Result<
    (),
    &'static str,
>)
    requires
        old(s).wf(),
    ensures
        final(s).wf(),
        final(s).next_id == old(s).next_id,
        final(s).global_revoked == old(s).global_revoked,
        match old(s).world(world_id) {
            None => r == Err::<(), &'static str>("world not found") && *final(s) == *old(s),
            Some(w) => if w.revokable {
                r is Ok && final(s).worlds@ == old(s).worlds@.update(
                    first_match(old(s).worlds@, world_id),
                    Some(WorldCaps { caps: w.caps.remove_spec(cap), ..w }),
                ) && final(s).world(world_id) == Some(WorldCaps { caps: w.caps.remove_spec(cap), ..w })
            } else {
                r == Err::<(), &'static str>("world capabilities are not revokable") && *final(s)
                    == *old(s)
            },
        },
        forall|other: u32| other != world_id ==> #[trigger] final(s).world(other) == old(s).world(other),
{
    proof {
        lemma_first_match(s.worlds@, world_id);
    }
    let mut i: usize = 0;
    while i < s.worlds.len()
        invariant
            i <= s.worlds.len(),
            s.worlds.len() == MAX_WORLDS,
            s.worlds == old(s).worlds,
            s.global_revoked == old(s).global_revoked,
            s.next_id == old(s).next_id,
            forall|j: int| 0 <= j < i ==> !slot_matches(#[trigger] s.worlds@[j], world_id),
        decreases s.worlds.len() - i,
    {
        match s.worlds[i] {
            Some(w) => {
                if w.world_id == world_id {
                    proof {
                        lemma_first_match_at(s.worlds@, world_id, i as int);
                    }
                    if !w.revokable {
                        return Err("world capabilities are not revokable");
                    }
                    let updated = WorldCaps { caps: w.caps.remove(cap), ..w };
                    let ghost prev = s.worlds@;
                    s.worlds.set(i, Some(updated));
                    proof {
                        lemma_lookup_replace(prev, i as int, Some(updated), world_id);
                        assert forall|other: u32| other != world_id implies #[trigger] lookup(
                            s.worlds@,
                            other,
                        ) == lookup(prev, other) by {
                            lemma_lookup_update(prev, i as int, Some(updated), other);
                        }
                    }
                    return Ok(());
                }
            },
            None => {},
        }
        i = i + 1;
    }
    proof {
        lemma_first_match_at(s.worlds@, world_id, s.worlds@.len() as int);
    }
    Err("world not found")
}

/// Empty the slot of world `world_id`.
pub fn unregister_world(s: &mut StoreInner, world_id: u32) -> (r: Result<(), &'static str>)
    requires
        old(s).wf(),
    ensures
        final(s).wf(),
        final(s).next_id == old(s).next_id,
        final(s).global_revoked == old(s).global_revoked,
        match old(s).world(world_id) {
            None => r == Err::<(), &'static str>("world not found") && *final(s) == *old(s),
            Some(w) => r is Ok && final(s).worlds@ == old(s).worlds@.update(
                first_match(old(s).worlds@, world_id),
                None,
            ),
        },
        forall|other: u32| other != world_id ==> #[trigger] final(s).world(other) == old(s).world(other),
{
    proof {
        lemma_first_match(s.worlds@, world_id);
    }
    let mut i: usize = 0;
    while i < s.worlds.len()
        invariant
            i <= s.worlds.len(),
            s.worlds.len() == MAX_WORLDS,
            s.worlds == old(s).worlds,
            s.global_revoked == old(s).global_revoked,
            s.next_id == old(s).next_id,
            forall|j: int| 0 <= j < i ==> !slot_matches(#[trigger] s.worlds@[j], world_id),
        decreases s.worlds.len() - i,
    {
        match s.worlds[i] {
            Some(w) => {
                if w.world_id == world_id {
                    proof {
                        lemma_first_match_at(s.worlds@, world_id, i as int);
                    }
                    let ghost prev = s.worlds@;
                    s.worlds.set(i, None);
                    proof {
                        assert forall|other: u32| other != world_id implies #[trigger] lookup(
                            s.worlds@,
                            other,
                        ) == lookup(prev, other) by {
                            lemma_lookup_update(prev, i as int, None, other);
                        }
                    }
                    return Ok(());
                }
            },
            None => {},
        }
        i = i + 1;
    }
    proof {
        lemma_first_match_at(s.worlds@, world_id, s.worlds@.len() as int);
    }
    Err("world not found")
}

/// Whether world `world_id` holds `cap`, directly or through an ancestor, after global revocation.
pub fn world_has_cap(s: &StoreInner, world_id: u32, cap: Capability) -> (r: bool)
    ensures
        r == s.has_cap_spec(world_id, cap),
{
    match find_world_inner(s, world_id) {
        Ok(wc) => {
            let eff = wc.caps.diff(s.global_revoked);
            set_implies(eff, cap)
        },
        Err(_) => false,
    }
}

/// Number of registered worlds.
pub fn world_count(s: &StoreInner) -> (r: usize)
    ensures
        r == count_used(s.worlds@),
{
    let mut n: usize = 0;
    let mut i: usize = 0;
    while i < s.worlds.len()
        invariant
            i <= s.worlds.len(),
            n == count_used(s.worlds@.take(i as int)),
            n <= i,
        decreases s.worlds.len() - i,
    {
        proof {
            assert(s.worlds@.take(i as int + 1).drop_last() =~= s.worlds@.take(i as int));
        }
        if s.worlds[i].is_some() {
            n = n + 1;
        }
        i = i + 1;
    }
    assert(s.worlds@.take(i as int) =~= s.worlds@);
    n
}

/// Identifier and capability set of every registered world, in slot order.
pub fn iter_worlds(s: &StoreInner) -> (r: Vec<(u32, CapabilitySet)>)
    ensures
        r@ == s.worlds@.filter(|o: Option<WorldCaps>| o is Some).map_values(
            |o: Option<WorldCaps>| (o->0.world_id, o->0.caps),
        ),
{
    let mut out: Vec<(u32, CapabilitySet)> = Vec::new();
    let mut i: usize = 0;
    let ghost pred = |o: Option<WorldCaps>| o is Some;
    let ghost f = |o: Option<WorldCaps>| (o->0.world_id, o->0.caps);
    while i < s.worlds.len()
        invariant
            i <= s.worlds.len(),
            out@ == s.worlds@.take(i as int).filter(pred).map_values(f),
            pred == (|o: Option<WorldCaps>| o is Some),
            f == (|o: Option<WorldCaps>| (o->0.world_id, o->0.caps)),
        decreases s.worlds.len() - i,
    {
        proof {
            assert(s.worlds@.take(i as int + 1) =~= s.worlds@.take(i as int).push(s.worlds@[i as int]));
            s.worlds@.take(i as int).lemma_filter_push(s.worlds@[i as int], pred);
        }
        match s.worlds[i] {
            Some(wc) => {
                out.push((wc.world_id, wc.caps));
                proof {
                    assert(out@ =~= s.worlds@.take(i as int + 1).filter(pred).map_values(f));
                }
            },
            None => {
                proof {
                    assert(out@ =~= s.worlds@.take(i as int + 1).filter(pred).map_values(f));
                }
            },
        }
        i = i + 1;
    }
    assert(s.worlds@.take(i as int) =~= s.worlds@);
    out
}

/// Revoke `cap` from every world.
pub fn add_global_revoked(s: &mut StoreInner, cap: Capability)
    ensures
        final(s).global_revoked@ == old(s).global_revoked@.insert(cap_index(cap)),
        final(s).worlds == old(s).worlds,
        final(s).next_id == old(s).next_id,
{
    s.global_revoked = s.global_revoked.add(cap);
}

/// Lift the global revocation of `cap`.
pub fn remove_global_revoked(s: &mut StoreInner, cap: Capability)
    ensures
        final(s).global_revoked@ == old(s).global_revoked@.remove(cap_index(cap)),
        final(s).worlds == old(s).worlds,
        final(s).next_id == old(s).next_id,
{
    s.global_revoked = s.global_revoked.remove(cap);
}


/// Revoking a capability globally and then restoring it leaves every world holding
/// exactly what it held before, when the capability was not revoked to begin with.
pub proof fn law_global_revoke_restore(s0: StoreInner, s1: StoreInner, s2: StoreInner, c: Capability)
    requires
        !s0.global_revoked@.contains(cap_index(c)),
        s1.global_revoked@ == s0.global_revoked@.insert(cap_index(c)),
        s1.worlds == s0.worlds,
        s2.global_revoked@ == s1.global_revoked@.remove(cap_index(c)),
        s2.worlds == s1.worlds,
    ensures
        forall|w: u32, d: Capability| s2.has_cap_spec(w, d) == s0.has_cap_spec(w, d),
{
    assert(s2.global_revoked@ =~= s0.global_revoked@);
}

/// What a world's capability set was set to is what reading it gives back, less
/// the globally revoked capabilities.
pub proof fn law_set_then_get(s: StoreInner, id: u32, new_caps: CapabilitySet)
    requires
        s.world(id) is Some,
        s.world(id)->0.caps == new_caps,
    ensures
        s.effective(s.world(id)->0) == new_caps@.difference(s.global_revoked@),
{
}

/// No two slots hold worlds with one identifier.
pub open spec fn ids_unique(s: Seq<Option<WorldCaps>>) -> bool {
    forall|i: int, j: int| 0 <= i < s.len() && 0 <= j < s.len() && i != j && (#[trigger] s[i]) is Some && (
    #[trigger] s[j]) is Some ==> s[i]->0.world_id != s[j]->0.world_id
}

/// Emptying an occupied slot lowers the count of occupied slots by one.
pub proof fn lemma_count_used_clear(s: Seq<Option<WorldCaps>>, i: int)
    requires
        0 <= i < s.len(),
        s[i] is Some,
    ensures
        count_used(s.update(i, None)) + 1 == count_used(s),
    decreases s.len(),
{
    let t = s.update(i, None);
    if i == s.len() - 1 {
        assert(t.drop_last() =~= s.drop_last());
    } else {
        assert(t.drop_last() =~= s.drop_last().update(i, None));
        lemma_count_used_clear(s.drop_last(), i);
    }
}

/// After `set_world_caps` succeeds, a lookup of the world finds the new set (with its
/// other fields as before), and a lookup of any other world finds what it found.
pub proof fn law_set_world_caps_lookups(s0: StoreInner, s1: StoreInner, id: u32, new_caps: CapabilitySet)
    requires
        s0.world(id) is Some,
        s1.worlds@ == s0.worlds@.update(first_match(s0.worlds@, id), Some(WorldCaps { caps: new_caps, ..s0.world(id)->0 })),
    ensures
        s1.world(id) == Some(WorldCaps { caps: new_caps, ..s0.world(id)->0 }),
        forall|other: u32| other != id ==> #[trigger] s1.world(other) == s0.world(other),
{
    let w = s0.world(id)->0;
    lemma_first_match(s0.worlds@, id);
    lemma_lookup_replace(s0.worlds@, first_match(s0.worlds@, id), Some(WorldCaps { caps: new_caps, ..w }), id);
    assert forall|other: u32| other != id implies #[trigger] s1.world(other) == s0.world(other) by {
        lemma_lookup_update(s0.worlds@, first_match(s0.worlds@, id), Some(WorldCaps { caps: new_caps, ..w }), other);
    }
}

/// With world identifiers unique, after `unregister_world` succeeds one world fewer is
/// registered and a lookup of the removed world finds nothing.
pub proof fn law_unregister_world_removes(s0: StoreInner, s1: StoreInner, id: u32)
    requires
        ids_unique(s0.worlds@),
        s0.world(id) is Some,
        s1.worlds@ == s0.worlds@.update(first_match(s0.worlds@, id), None),
    ensures
        count_used(s1.worlds@) + 1 == count_used(s0.worlds@),
        s1.world(id) is None,
{
    let k = first_match(s0.worlds@, id);
    lemma_first_match(s0.worlds@, id);
    lemma_count_used_clear(s0.worlds@, k);
    assert forall|j: int| 0 <= j < s1.worlds@.len() implies !slot_matches(#[trigger] s1.worlds@[j], id) by {
        if j != k && slot_matches(s0.worlds@[j], id) {
            assert(s0.worlds@[k] is Some && s0.worlds@[j] is Some);
        }
    }
    lemma_first_match_at(s1.worlds@, id, s1.worlds@.len() as int);
}

/// Every registered world has an identifier below `n`.
pub open spec fn ids_below(s: Seq<Option<WorldCaps>>, n: u32) -> bool {
    forall|i: int| 0 <= i < s.len() && (#[trigger] s[i]) is Some ==> s[i]->0.world_id < n
}

/// While every registered identifier is below the next one and the counter has not
/// wrapped, the identifier `register_world` hands out is fresh: no world had it, the
/// new world is found under it, every other lookup is as before, one more world is
/// registered, and identifiers stay unique and below the next one.
pub proof fn law_register_world_fresh(s0: StoreInner, s1: StoreInner, w: WorldCaps)
    requires
        ids_below(s0.worlds@, s0.next_id),
        ids_unique(s0.worlds@),
        s0.next_id < u32::MAX,
        first_free(s0.worlds@) < s0.worlds@.len(),
        w.world_id == s0.next_id,
        s1.next_id == s0.next_id.wrapping_add(1),
        s1.worlds@ == s0.worlds@.update(first_free(s0.worlds@), Some(w)),
    ensures
        s0.world(w.world_id) is None,
        s1.world(w.world_id) == Some(w),
        forall|other: u32| other != w.world_id ==> #[trigger] s1.world(other) == s0.world(other),
        count_used(s1.worlds@) == count_used(s0.worlds@) + 1,
        ids_below(s1.worlds@, s1.next_id),
        ids_unique(s1.worlds@),
{
    let k = first_free(s0.worlds@);
    let id = w.world_id;
    lemma_first_free(s0.worlds@);
    assert forall|j: int| 0 <= j < s0.worlds@.len() implies !slot_matches(#[trigger] s0.worlds@[j], id) by {
        if s0.worlds@[j] is Some {
            assert(s0.worlds@[j]->0.world_id < s0.next_id);
        }
    }
    lemma_first_match_at(s0.worlds@, id, s0.worlds@.len() as int);
    assert forall|j: int| 0 <= j < k implies !slot_matches(#[trigger] s1.worlds@[j], id) by {
        assert(s1.worlds@[j] == s0.worlds@[j]);
    }
    lemma_first_match_at(s1.worlds@, id, k);
    assert forall|other: u32| other != id implies #[trigger] s1.world(other) == s0.world(other) by {
        lemma_lookup_update(s0.worlds@, k, Some(w), other);
    }
    lemma_count_used_clear(s1.worlds@, k);
    assert(s1.worlds@.update(k, None) =~= s0.worlds@);
    assert(s1.next_id == s0.next_id + 1);
    assert forall|i: int| 0 <= i < s1.worlds@.len() && (#[trigger] s1.worlds@[i]) is Some implies s1.worlds@[i]->0.world_id
        < s1.next_id by {
        if i != k {
            assert(s1.worlds@[i] == s0.worlds@[i]);
        }
    }
    assert forall|i: int, j: int| 0 <= i < s1.worlds@.len() && 0 <= j < s1.worlds@.len() && i != j
        && (#[trigger] s1.worlds@[i]) is Some && (#[trigger] s1.worlds@[j]) is Some implies s1.worlds@[i]->0.world_id
        != s1.worlds@[j]->0.world_id by {
        if i != k && j != k {
            assert(s1.worlds@[i] == s0.worlds@[i] && s1.worlds@[j] == s0.worlds@[j]);
        } else if i == k {
            assert(s1.worlds@[j] == s0.worlds@[j]);
            assert(s0.worlds@[j] is Some);
        } else {
            assert(s1.worlds@[i] == s0.worlds@[i]);
            assert(s0.worlds@[i] is Some);
        }
    }
}

} // verus!
