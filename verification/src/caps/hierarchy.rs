//! The capability tree: a parent holds every capability below it.
//!
//! Root is above Ring0 and User; Ring0 is above Driver and Admin; each other
//! capability hangs below one of these.
use vstd::prelude::*;
use super::types::{Capability, CapabilitySet, cap_index, cap_at, lemma_cap_index, lemma_cap_at};

verus! {

/// Parent of a capability in the tree (`None` for Root).
pub open spec fn parent_of(c: Capability) -> Option<Capability> {
    match c {
        Capability::Root => None,
        Capability::Ring0 => Some(Capability::Root),
        Capability::Driver => Some(Capability::Ring0),
        Capability::User => Some(Capability::Root),
        Capability::Admin => Some(Capability::Ring0),
        Capability::PhysAlloc => Some(Capability::Driver),
        Capability::VirtMap => Some(Capability::Driver),
        Capability::Dma => Some(Capability::Driver),
        Capability::Mmap => Some(Capability::User),
        Capability::Protect => Some(Capability::User),
        Capability::HugePage => Some(Capability::PhysAlloc),
        Capability::Spawn => Some(Capability::User),
        Capability::Kill => Some(Capability::User),
        Capability::Debug => Some(Capability::Admin),
        Capability::Ptrace => Some(Capability::Debug),
        Capability::Sched => Some(Capability::Admin),
        Capability::IpcSend => Some(Capability::User),
        Capability::IpcRecv => Some(Capability::User),
        Capability::IpcBroadcast => Some(Capability::IpcSend),
        Capability::IpcPrivileged => Some(Capability::IpcSend),
        Capability::FsRead => Some(Capability::User),
        Capability::FsWrite => Some(Capability::User),
        Capability::FsCreate => Some(Capability::FsWrite),
        Capability::FsMount => Some(Capability::Admin),
        Capability::DevPci => Some(Capability::Driver),
        Capability::DevPort => Some(Capability::Driver),
        Capability::DevMmio => Some(Capability::Driver),
        Capability::DevIrq => Some(Capability::Driver),
        Capability::SyscallAll => Some(Capability::Driver),
        Capability::SyscallRestricted => Some(Capability::User),
    }
}

/// Distance of a capability from Root.
pub open spec fn depth_of(c: Capability) -> nat {
    match c {
        Capability::Root => 0,
        Capability::Ring0 => 1,
        Capability::Driver => 2,
        Capability::User => 1,
        Capability::Admin => 2,
        Capability::PhysAlloc => 3,
        Capability::VirtMap => 3,
        Capability::Dma => 3,
        Capability::Mmap => 2,
        Capability::Protect => 2,
        Capability::HugePage => 4,
        Capability::Spawn => 2,
        Capability::Kill => 2,
        Capability::Debug => 3,
        Capability::Ptrace => 4,
        Capability::Sched => 3,
        Capability::IpcSend => 2,
        Capability::IpcRecv => 2,
        Capability::IpcBroadcast => 3,
        Capability::IpcPrivileged => 3,
        Capability::FsRead => 2,
        Capability::FsWrite => 2,
        Capability::FsCreate => 3,
        Capability::FsMount => 3,
        Capability::DevPci => 3,
        Capability::DevPort => 3,
        Capability::DevMmio => 3,
        Capability::DevIrq => 3,
        Capability::SyscallAll => 3,
        Capability::SyscallRestricted => 2,
    }
}

/// A parent is one level above its child; only Root has no parent.
pub proof fn lemma_parent_depth(c: Capability)
    ensures
        parent_of(c) is None <==> c == Capability::Root,
        parent_of(c) is Some ==> depth_of(parent_of(c)->0) + 1 == depth_of(c),
        depth_of(c) == 0 <==> c == Capability::Root,
        depth_of(c) <= 4,
{
}

/// `held` is `required` or one of its ancestors.
pub open spec fn implies_spec(held: Capability, required: Capability) -> bool
    decreases depth_of(required),
{
    held == required || match parent_of(required) {
        Some(p) => {
            if depth_of(p) < depth_of(required) {
                implies_spec(held, p)
            } else {
                false
            }
        },
        None => false,
    }
}

/// Some capability of the set implies `required`.
pub open spec fn set_implies_spec(held: Set<int>, required: Capability) -> bool {
    exists|c: Capability| held.contains(cap_index(c)) && #[trigger] implies_spec(c, required)
}

/// Unfolding of `implies_spec` one level.
pub proof fn lemma_implies_unfold(held: Capability, required: Capability)
    ensures
        implies_spec(held, required) == (held == required || (parent_of(required) is Some
            && implies_spec(held, parent_of(required)->0))),
{
    lemma_parent_depth(required);
}

/// An ancestor is never deeper than its descendant, and equal depth means equality.
pub proof fn lemma_implies_depth(held: Capability, required: Capability)
    requires
        implies_spec(held, required),
    ensures
        depth_of(held) <= depth_of(required),
        depth_of(held) == depth_of(required) ==> held == required,
    decreases depth_of(required),
{
    lemma_parent_depth(required);
    if held != required {
        lemma_implies_depth(held, parent_of(required)->0);
    }
}

/// Every capability implies itself.
pub proof fn law_implies_reflexive(c: Capability)
    ensures
        implies_spec(c, c),
{
}

/// If `a` implies `b` and `b` implies `c`, then `a` implies `c`.
pub proof fn law_implies_transitive(a: Capability, b: Capability, c: Capability)
    requires
        implies_spec(a, b),
        implies_spec(b, c),
    ensures
        implies_spec(a, c),
    decreases depth_of(c),
{
    lemma_parent_depth(c);
    if b != c {
        law_implies_transitive(a, b, parent_of(c)->0);
    }
}

/// Two capabilities that imply each other are the same.
pub proof fn law_implies_antisymmetric(a: Capability, b: Capability)
    requires
        implies_spec(a, b),
        implies_spec(b, a),
    ensures
        a == b,
{
    lemma_implies_depth(a, b);
    lemma_implies_depth(b, a);
}

/// Root implies every capability.
pub proof fn law_root_implies_all(c: Capability)
    ensures
        implies_spec(Capability::Root, c),
    decreases depth_of(c),
{
    lemma_parent_depth(c);
    if c != Capability::Root {
        law_root_implies_all(parent_of(c)->0);
    }
}

/// A child never implies its parent.
pub proof fn law_child_does_not_imply_parent(c: Capability)
    requires
        parent_of(c) is Some,
    ensures
        !implies_spec(c, parent_of(c)->0),
{
    lemma_parent_depth(c);
    if implies_spec(c, parent_of(c)->0) {
        lemma_implies_depth(c, parent_of(c)->0);
    }
}

/// Parent of a capability in the tree (`None` for Root).
pub fn parent(cap: Capability) -> (r: Option<Capability>)
    ensures
        r == parent_of(cap),
{
    match cap {
        Capability::Root => None,
        Capability::Ring0 => Some(Capability::Root),
        Capability::Driver => Some(Capability::Ring0),
        Capability::User => Some(Capability::Root),
        Capability::Admin => Some(Capability::Ring0),
        Capability::PhysAlloc => Some(Capability::Driver),
        Capability::VirtMap => Some(Capability::Driver),
        Capability::Dma => Some(Capability::Driver),
        Capability::Mmap => Some(Capability::User),
        Capability::Protect => Some(Capability::User),
        Capability::HugePage => Some(Capability::PhysAlloc),
        Capability::Spawn => Some(Capability::User),
        Capability::Kill => Some(Capability::User),
        Capability::Debug => Some(Capability::Admin),
        Capability::Ptrace => Some(Capability::Debug),
        Capability::Sched => Some(Capability::Admin),
        Capability::IpcSend => Some(Capability::User),
        Capability::IpcRecv => Some(Capability::User),
        Capability::IpcBroadcast => Some(Capability::IpcSend),
        Capability::IpcPrivileged => Some(Capability::IpcSend),
        Capability::FsRead => Some(Capability::User),
        Capability::FsWrite => Some(Capability::User),
        Capability::FsCreate => Some(Capability::FsWrite),
        Capability::FsMount => Some(Capability::Admin),
        Capability::DevPci => Some(Capability::Driver),
        Capability::DevPort => Some(Capability::Driver),
        Capability::DevMmio => Some(Capability::Driver),
        Capability::DevIrq => Some(Capability::Driver),
        Capability::SyscallAll => Some(Capability::Driver),
        Capability::SyscallRestricted => Some(Capability::User),
    }
}

/// Whether holding `held` grants `required` (it is `required` or an ancestor of it).
pub fn implies(held: Capability, required: Capability) -> (r: bool)
    ensures
        r == implies_spec(held, required),
{
    if held == required {
        return true;
    }
    let mut cur = required;
    loop
        invariant
            held != cur,
            implies_spec(held, required) == implies_spec(held, cur),
        decreases depth_of(cur),
    {
        proof {
            lemma_implies_unfold(held, cur);
            lemma_parent_depth(cur);
        }
        match parent(cur) {
            Some(p) => {
                if p == held {
                    return true;
                }
                proof {
                    lemma_implies_unfold(held, p);
                }
                cur = p;
            },
            None => {
                return false;
            },
        }
    }
}

/// Whether some capability of `held` grants `required`.
pub fn set_implies(held: CapabilitySet, required: Capability) -> (r: bool)
    ensures
        r == set_implies_spec(held@, required),
{
    let caps = held.iter();
    let mut i: usize = 0;
    while i < caps.len()
        invariant
            i <= caps.len(),
            forall|c: Capability| caps@.contains(c) <==> held.holds(c),
            forall|j: int| 0 <= j < i ==> !implies_spec(#[trigger] caps@[j], required),
        decreases caps.len() - i,
    {
        if implies(caps[i], required) {
            assert(caps@.contains(caps@[i as int]));
            assert(held.holds(caps@[i as int]));
            return true;
        }
        i = i + 1;
    }
    proof {
        if set_implies_spec(held@, required) {
            let c = choose|c: Capability| held@.contains(cap_index(c)) && implies_spec(c, required);
            assert(held.holds(c));
            assert(caps@.contains(c));
            let j = choose|j: int| 0 <= j < caps.len() && caps@[j] == c;
            assert(!implies_spec(caps@[j], required));
        }
    }
    false
}

/// `a` is `c` or an ancestor of some capability of `set`.
pub open spec fn in_expansion(set: CapabilitySet, a: Capability) -> bool {
    exists|c: Capability| set.holds(c) && #[trigger] implies_spec(a, c)
}

/// The set together with every ancestor of its members.
pub fn expand_hierarchy(set: CapabilitySet) -> (r: CapabilitySet)
    ensures
        forall|a: Capability| r.holds(a) <==> in_expansion(set, a),
        forall|i: int| !(0 <= i < 30) ==> (r@.contains(i) <==> set@.contains(i)),
{
    let mut result = set;
    let caps = set.iter();
    let mut k: usize = 0;
    while k < caps.len()
        invariant
            k <= caps.len(),
            forall|c: Capability| caps@.contains(c) <==> set.holds(c),
            forall|i: int| !(0 <= i < 30) ==> (result@.contains(i) <==> set@.contains(i)),
            forall|a: Capability|
                result.holds(a) <==> (set.holds(a) || exists|j: int|
                    0 <= j < k && #[trigger] implies_spec(a, caps@[j])),
        decreases caps.len() - k,
    {
        let cap = caps[k];
        assert(caps@.contains(cap));
        let mut cur = cap;
        let ghost before = result;
        proof {
            assert forall|a: Capability| result.holds(a) <==> (before.holds(a) || (implies_spec(a, cap)
                && depth_of(a) >= depth_of(cur))) by {
                if implies_spec(a, cap) && depth_of(a) >= depth_of(cur) {
                    lemma_implies_depth(a, cap);
                }
            }
        }
        loop
            invariant
                set.holds(cap),
                implies_spec(cur, cap),
                forall|i: int| !(0 <= i < 30) ==> (result@.contains(i) <==> set@.contains(i)),
                forall|a: Capability|
                    result.holds(a) <==> (before.holds(a) || (implies_spec(a, cap)
                        && depth_of(a) >= depth_of(cur))),
                forall|a: Capability|
                    before.holds(a) <==> (set.holds(a) || exists|j: int|
                        0 <= j < k && #[trigger] implies_spec(a, caps@[j])),
            ensures
                forall|i: int| !(0 <= i < 30) ==> (result@.contains(i) <==> set@.contains(i)),
                forall|a: Capability|
                    result.holds(a) <==> (before.holds(a) || implies_spec(a, cap)),
            decreases depth_of(cur),
        {
            proof {
                lemma_parent_depth(cur);
            }
            match parent(cur) {
                Some(p) => {
                    result = result.add(p);
                    proof {
                        lemma_cap_index(p);
                        lemma_implies_unfold(p, cur);
                        law_implies_transitive(p, cur, cap);
                        assert forall|a: Capability| result.holds(a) <==> (before.holds(a) || (
                        implies_spec(a, cap) && depth_of(a) >= depth_of(p))) by {
                            lemma_cap_index(a);
                            if a != p && implies_spec(a, cap) && depth_of(a) == depth_of(p) {
                                lemma_ancestor_unique_at_depth(a, p, cap);
                            }
                        }
                    }
                    cur = p;
                },
                None => {
                    proof {
                        assert forall|a: Capability|
                            result.holds(a) <==> (before.holds(a) || implies_spec(a, cap)) by {
                            if implies_spec(a, cap) {
                                lemma_implies_depth(a, cap);
                            }
                        }
                    }
                    break;
                },
            }
        }
        proof {
            assert forall|a: Capability|
                result.holds(a) <==> (set.holds(a) || exists|j: int|
                    0 <= j < k + 1 && #[trigger] implies_spec(a, caps@[j])) by {
                if exists|j: int| 0 <= j < k + 1 && #[trigger] implies_spec(a, caps@[j]) {
                    let j = choose|j: int| 0 <= j < k + 1 && #[trigger] implies_spec(a, caps@[j]);
                    if j < k {
                        assert(exists|j: int| 0 <= j < k && #[trigger] implies_spec(a, caps@[j]));
                    }
                }
                if exists|j: int| 0 <= j < k && #[trigger] implies_spec(a, caps@[j]) {
                    let j = choose|j: int| 0 <= j < k && #[trigger] implies_spec(a, caps@[j]);
                    assert(0 <= j < k + 1 && implies_spec(a, caps@[j]));
                }
                if implies_spec(a, cap) {
                    assert(0 <= k < k + 1 && implies_spec(a, caps@[k as int]));
                }
            }
        }
        k = k + 1;
    }
    proof {
        assert forall|a: Capability| result.holds(a) <==> in_expansion(set, a) by {
            if result.holds(a) {
                if set.holds(a) {
                    assert(implies_spec(a, a));
                } else {
                    let j = choose|j: int| 0 <= j < k && #[trigger] implies_spec(a, caps@[j]);
                    assert(caps@.contains(caps@[j]));
                }
            }
            if in_expansion(set, a) {
                let c = choose|c: Capability| set.holds(c) && #[trigger] implies_spec(a, c);
                assert(caps@.contains(c));
                let j = choose|j: int| 0 <= j < caps.len() && caps@[j] == c;
                assert(implies_spec(a, caps@[j]));
            }
        }
    }
    result
}

/// Two ancestors of the same capability at the same depth are equal.
pub proof fn lemma_ancestor_unique_at_depth(a: Capability, b: Capability, c: Capability)
    requires
        implies_spec(a, c),
        implies_spec(b, c),
        depth_of(a) == depth_of(b),
    ensures
        a == b,
    decreases depth_of(c),
{
    lemma_parent_depth(c);
    lemma_implies_depth(a, c);
    lemma_implies_depth(b, c);
    if a != c && b != c {
        lemma_ancestor_unique_at_depth(a, b, parent_of(c)->0);
    }
}

/// Ancestors of one capability are ordered by depth along its path.
pub proof fn lemma_ancestors_ordered(a: Capability, b: Capability, c: Capability)
    requires
        implies_spec(a, c),
        implies_spec(b, c),
        depth_of(a) >= depth_of(b),
    ensures
        implies_spec(b, a),
    decreases depth_of(c),
{
    lemma_parent_depth(c);
    lemma_implies_depth(a, c);
    lemma_implies_depth(b, c);
    if a == c {
    } else if b == c {
        lemma_implies_depth(a, c);
    } else {
        lemma_ancestors_ordered(a, b, parent_of(c)->0);
    }
}

/// The chain from Root down to `cap`.
pub fn path_to_root(cap: Capability) -> (r: Vec<Capability>)
    ensures
        r.len() == depth_of(cap) + 1,
        r@[0] == Capability::Root,
        r@.last() == cap,
        forall|i: int| 0 < i < r.len() ==> parent_of(#[trigger] r@[i]) == Some(r@[i - 1]),
{
    let mut path: Vec<Capability> = Vec::new();
    path.push(cap);
    let mut cur = cap;
    loop
        invariant
            path.len() >= 1,
            path@[0] == cap,
            path@.last() == cur,
            path.len() + depth_of(cur) == depth_of(cap) + 1,
            forall|i: int| 0 < i < path.len() ==> parent_of(#[trigger] path@[i - 1]) == Some(path@[i]),
        ensures
            path.len() >= 1,
            path@[0] == cap,
            path@.last() == cur,
            cur == Capability::Root,
            path.len() + depth_of(cur) == depth_of(cap) + 1,
            forall|i: int| 0 < i < path.len() ==> parent_of(#[trigger] path@[i - 1]) == Some(path@[i]),
        decreases depth_of(cur),
    {
        proof {
            lemma_parent_depth(cur);
        }
        match parent(cur) {
            Some(p) => {
                path.push(p);
                cur = p;
            },
            None => {
                break;
            },
        }
    }
    let n = path.len();
    let mut out: Vec<Capability> = Vec::new();
    let mut j: usize = n;
    while j > 0
        invariant
            j <= n,
            n == path.len(),
            out.len() == n - j,
            forall|t: int| 0 <= t < out.len() ==> out@[t] == path@[n - 1 - t],
        decreases j,
    {
        j = j - 1;
        out.push(path[j]);
    }
    proof {
        assert forall|i: int| 0 < i < out.len() implies parent_of(#[trigger] out@[i]) == Some(out@[i - 1]) by {
            assert(out@[i] == path@[n - 1 - i]);
            assert(out@[i - 1] == path@[n - 1 - (i - 1)]);
            assert(parent_of(path@[(n - 1 - i + 1) - 1]) == Some(path@[n - 1 - i + 1]));
        }
        assert(out@[0] == path@[n - 1]);
        assert(out@[n - 1] == path@[0]);
    }
    out
}

/// Depth of a capability (Root is 0).
pub fn depth(cap: Capability) -> (r: usize)
    ensures
        r == depth_of(cap),
{
    let mut d: usize = 0;
    let mut cur = cap;
    loop
        invariant
            d + depth_of(cur) == depth_of(cap),
            depth_of(cap) <= 4,
        ensures
            d == depth_of(cap),
        decreases depth_of(cur),
    {
        proof {
            lemma_parent_depth(cur);
            lemma_parent_depth(cap);
        }
        match parent(cur) {
            Some(p) => {
                d = d + 1;
                cur = p;
            },
            None => {
                break;
            },
        }
    }
    d
}

/// Membership in an exec vector of capabilities.
fn vec_contains(v: &Vec<Capability>, c: Capability) -> (r: bool)
    ensures
        r == v@.contains(c),
{
    let mut i: usize = 0;
    while i < v.len()
        invariant
            i <= v.len(),
            forall|j: int| 0 <= j < i ==> v@[j] != c,
        decreases v.len() - i,
    {
        if v[i] == c {
            return true;
        }
        i = i + 1;
    }
    false
}

/// A list of distinct capabilities has at most thirty entries.
pub proof fn lemma_distinct_caps_len(s: Seq<Capability>)
    requires
        s.no_duplicates(),
    ensures
        s.len() <= 30,
{
    let t = s.map_values(|c: Capability| cap_index(c));
    assert forall|i: int, j: int| 0 <= i < t.len() && 0 <= j < t.len() && i != j implies t[i]
        != t[j] by {
        lemma_cap_index(s[i]);
        lemma_cap_index(s[j]);
    }
    assert(t.no_duplicates());
    t.unique_seq_to_set();
    vstd::set_lib::lemma_int_range(0, 30);
    assert forall|x: int| t.to_set().contains(x) implies vstd::set_lib::set_int_range(0, 30).contains(x) by {
        let i = choose|i: int| 0 <= i < t.len() && t[i] == x;
        lemma_cap_index(s[i]);
    }
    vstd::set_lib::lemma_len_subset(t.to_set(), vstd::set_lib::set_int_range(0, 30));
}

/// Every capability at or below `root` (including `root`), breadth-first.
pub fn subtree(root: Capability) -> (r: Vec<Capability>)
    ensures
        r@[0] == root,
        r@.no_duplicates(),
        forall|c: Capability| r@.contains(c) <==> implies_spec(root, c),
        forall|i: int| 0 < i < r.len() ==> exists|j: int| 0 <= j < i && parent_of(#[trigger] r@[i]) == Some(r@[j]),
{
    let all = Capability::iter_all();
    let mut result: Vec<Capability> = Vec::new();
    result.push(root);
    let mut i: usize = 0;
    while i < result.len()
        invariant
            all.len() == 30,
            forall|t: int| 0 <= t < 30 ==> cap_index(#[trigger] all@[t]) == t,
            i <= result.len() <= 30,
            result.len() >= 1,
            result@[0] == root,
            result@.no_duplicates(),
            forall|t: int| 0 <= t < result.len() ==> implies_spec(root, #[trigger] result@[t]),
            forall|t: int| 0 < t < result.len() ==> exists|j: int| 0 <= j < t && parent_of(#[trigger] result@[t]) == Some(result@[j]),
            forall|c: Capability, t: int| 0 <= t < i && #[trigger] parent_of(c) == Some(#[trigger] result@[t]) ==> result@.contains(c),
        decreases 30 - i,
    {
        let cur = result[i];
        let mut k: usize = 0;
        while k < 30
            invariant
                all.len() == 30,
                forall|t: int| 0 <= t < 30 ==> cap_index(#[trigger] all@[t]) == t,
                i < result.len() <= 30,
                cur == result@[i as int],
                k <= 30,
                result@[0] == root,
                result@.no_duplicates(),
                forall|t: int| 0 <= t < result.len() ==> implies_spec(root, #[trigger] result@[t]),
                forall|t: int| 0 < t < result.len() ==> exists|j: int| 0 <= j < t && parent_of(#[trigger] result@[t]) == Some(result@[j]),
                forall|c: Capability, t: int| 0 <= t < i && #[trigger] parent_of(c) == Some(#[trigger] result@[t]) ==> result@.contains(c),
                forall|c: Capability| cap_index(c) < k && parent_of(c) == Some(cur) ==> result@.contains(c),
            decreases 30 - k,
        {
            let cap = all[k];
            if parent(cap) == Some(cur) && !vec_contains(&result, cap) {
                let ghost prev = result@;
                proof {
                    assert(implies_spec(root, prev[i as int]));
                    lemma_implies_unfold(cur, cap);
                    law_implies_transitive(root, cur, cap);
                    assert(prev.push(cap).no_duplicates());
                    lemma_distinct_caps_len(prev.push(cap));
                }
                result.push(cap);
                proof {
                    assert forall|t: int| 0 < t < result.len() implies exists|j: int| 0 <= j < t && parent_of(#[trigger] result@[t]) == Some(result@[j]) by {
                        if t == prev.len() {
                            assert(parent_of(result@[t]) == Some(result@[i as int]));
                        } else {
                            assert(result@[t] == prev[t]);
                            let j = choose|j: int| 0 <= j < t && parent_of(prev[t]) == Some(prev[j]);
                            assert(result@[j] == prev[j]);
                        }
                    }
                    assert forall|c: Capability| prev.contains(c) implies result@.contains(c) by {
                        let t = choose|t: int| 0 <= t < prev.len() && prev[t] == c;
                        assert(result@[t] == c);
                    }
                    assert(result@[prev.len() as int] == cap);
                    assert forall|c: Capability, t: int| 0 <= t < i && #[trigger] parent_of(c) == Some(#[trigger] result@[t]) implies result@.contains(c) by {
                        assert(result@[t] == prev[t]);
                        assert(prev.contains(c));
                    }
                }
            }
            proof {
                lemma_cap_index(cap);
                assert forall|c: Capability| cap_index(c) < k + 1 && parent_of(c) == Some(cur) implies result@.contains(c) by {
                    lemma_cap_index(c);
                    if cap_index(c) == k {
                        assert(c == cap);
                    }
                }
            }
            k = k + 1;
        }
        proof {
            assert forall|c: Capability, t: int| 0 <= t < i + 1 && #[trigger] parent_of(c) == Some(#[trigger] result@[t]) implies result@.contains(c) by {
                lemma_cap_index(c);
            }
            lemma_distinct_caps_len(result@);
        }
        i = i + 1;
    }
    proof {
        assert forall|c: Capability| implies_spec(root, c) implies result@.contains(c) by {
            lemma_subtree_closed(root, c, result@);
        }
    }
    result
}

/// A list that holds `root` and every child of each of its members holds every descendant of `root`.
proof fn lemma_subtree_closed(root: Capability, c: Capability, s: Seq<Capability>)
    requires
        s.len() > 0,
        s[0] == root,
        implies_spec(root, c),
        forall|d: Capability, t: int| 0 <= t < s.len() && #[trigger] parent_of(d) == Some(#[trigger] s[t]) ==> s.contains(d),
    ensures
        s.contains(c),
    decreases depth_of(c),
{
    lemma_parent_depth(c);
    if c == root {
        assert(s[0] == c);
    } else {
        let p = parent_of(c)->0;
        lemma_subtree_closed(root, p, s);
        let t = choose|t: int| 0 <= t < s.len() && s[t] == p;
        assert(parent_of(c) == Some(s[t]));
    }
}

/// Whether a holder of `holder` may delegate `candidate` (it must hold it or an ancestor).
pub fn can_delegate(holder: CapabilitySet, candidate: Capability) -> (r: bool)
    ensures
        r == set_implies_spec(holder@, candidate),
{
    set_implies(holder, candidate)
}

/// A capability implies `required` exactly when it lies on the chain from Root down
/// to `required`, as `path_to_root` gives it.
pub proof fn law_implies_iff_on_path(path: Seq<Capability>, held: Capability, required: Capability)
    requires
        path.len() == depth_of(required) + 1,
        path[0] == Capability::Root,
        path.last() == required,
        forall|i: int| 0 < i < path.len() ==> parent_of(#[trigger] path[i]) == Some(path[i - 1]),
    ensures
        implies_spec(held, required) <==> path.contains(held),
    decreases depth_of(required),
{
    lemma_parent_depth(required);
    lemma_implies_unfold(held, required);
    if depth_of(required) == 0 {
        assert(path.contains(held) <==> held == path[0]);
    } else {
        let n = path.len();
        let p = path.drop_last();
        assert(parent_of(path[n - 1]) == Some(path[n - 2]));
        assert(p.last() == parent_of(required)->0);
        assert forall|i: int| 0 < i < p.len() implies parent_of(#[trigger] p[i]) == Some(p[i - 1]) by {
            assert(p[i] == path[i] && p[i - 1] == path[i - 1]);
        }
        law_implies_iff_on_path(p, held, parent_of(required)->0);
        if path.contains(held) {
            let i = choose|i: int| 0 <= i < n && path[i] == held;
            if i < n - 1 {
                assert(p[i] == held);
            }
        }
        if p.contains(held) {
            let i = choose|i: int| 0 <= i < p.len() && p[i] == held;
            assert(path[i] == held);
        }
    }
}

/// Expanding an expanded set changes nothing: the expansion of `set` (as
/// `expand_hierarchy` gives it) is closed under taking ancestors.
pub proof fn law_expand_hierarchy_idempotent(set: CapabilitySet, r: CapabilitySet, r2: CapabilitySet)
    requires
        forall|a: Capability| r.holds(a) <==> in_expansion(set, a),
        forall|i: int| !(0 <= i < 30) ==> (r@.contains(i) <==> set@.contains(i)),
        forall|a: Capability| r2.holds(a) <==> in_expansion(r, a),
        forall|i: int| !(0 <= i < 30) ==> (r2@.contains(i) <==> r@.contains(i)),
    ensures
        r2@ == r@,
{
    assert forall|a: Capability| r2.holds(a) <==> r.holds(a) by {
        if r2.holds(a) {
            let c = choose|c: Capability| r.holds(c) && #[trigger] implies_spec(a, c);
            let d = choose|d: Capability| set.holds(d) && #[trigger] implies_spec(c, d);
            law_implies_transitive(a, c, d);
        }
        if r.holds(a) {
            law_implies_reflexive(a);
        }
    }
    assert forall|i: int| r2@.contains(i) <==> r@.contains(i) by {
        if 0 <= i < 30 {
            lemma_cap_at(i);
            assert(r2.holds(cap_at(i)) <==> r.holds(cap_at(i)));
        }
    }
    assert(r2@ =~= r@);
}

/// The subtree of Root, as `subtree` lists it, holds all thirty capabilities.
pub proof fn law_subtree_of_root_has_all(r: Seq<Capability>)
    requires
        r.no_duplicates(),
        forall|c: Capability| r.contains(c) <==> implies_spec(Capability::Root, c),
    ensures
        r.len() == 30,
{
    lemma_distinct_caps_len(r);
    let t = r.map_values(|c: Capability| cap_index(c));
    assert forall|i: int, j: int| 0 <= i < t.len() && 0 <= j < t.len() && i != j implies t[i] != t[j] by {
        lemma_cap_index(r[i]);
        lemma_cap_index(r[j]);
    }
    assert(t.no_duplicates());
    t.unique_seq_to_set();
    vstd::set_lib::lemma_int_range(0, 30);
    assert forall|x: int| vstd::set_lib::set_int_range(0, 30).contains(x) implies t.to_set().contains(x) by {
        lemma_cap_at(x);
        law_root_implies_all(cap_at(x));
        let i = choose|i: int| 0 <= i < r.len() && r[i] == cap_at(x);
        assert(t[i] == x);
    }
    vstd::set_lib::lemma_len_subset(vstd::set_lib::set_int_range(0, 30), t.to_set());
}

/// Whether `held` implies `required`, followed up the tree four levels (as deep as
/// the tree goes).
proof fn lemma_implies_four(held: Capability, required: Capability)
    ensures
        implies_spec(held, required) <==> {
            ||| held == required
            ||| parent_of(required) == Some(held)
            ||| (parent_of(required) is Some && parent_of(parent_of(required)->0) == Some(held))
            ||| (parent_of(required) is Some && parent_of(parent_of(required)->0) is Some && parent_of(
                parent_of(parent_of(required)->0)->0,
            ) == Some(held))
            ||| (parent_of(required) is Some && parent_of(parent_of(required)->0) is Some && parent_of(
                parent_of(parent_of(required)->0)->0,
            ) is Some && parent_of(parent_of(parent_of(parent_of(required)->0)->0)->0) == Some(held))
        },
{
    lemma_implies_unfold(held, required);
    lemma_parent_depth(required);
    if let Some(p1) = parent_of(required) {
        lemma_implies_unfold(held, p1);
        lemma_parent_depth(p1);
        if let Some(p2) = parent_of(p1) {
            lemma_implies_unfold(held, p2);
            lemma_parent_depth(p2);
            if let Some(p3) = parent_of(p2) {
                lemma_implies_unfold(held, p3);
                lemma_parent_depth(p3);
                if let Some(p4) = parent_of(p3) {
                    lemma_implies_unfold(held, p4);
                    lemma_parent_depth(p4);
                }
            }
        }
    }
}

/// The user side of the tree: User grants exactly the ordinary process, IPC, file and
/// restricted-syscall capabilities; sending grants broadcast and privileged IPC,
/// receiving grants nothing more; writing files grants creating them.
pub proof fn law_user_subtrees(c: Capability)
    ensures
        implies_spec(Capability::User, c) <==> (c == Capability::User || c == Capability::Mmap || c == Capability::Protect
            || c == Capability::Spawn || c == Capability::Kill || c == Capability::IpcSend || c == Capability::IpcRecv
            || c == Capability::IpcBroadcast || c == Capability::IpcPrivileged || c == Capability::FsRead || c
            == Capability::FsWrite || c == Capability::FsCreate || c == Capability::SyscallRestricted),
        implies_spec(Capability::IpcSend, c) <==> (c == Capability::IpcSend || c == Capability::IpcBroadcast || c
            == Capability::IpcPrivileged),
        implies_spec(Capability::IpcRecv, c) <==> c == Capability::IpcRecv,
        implies_spec(Capability::FsWrite, c) <==> (c == Capability::FsWrite || c == Capability::FsCreate),
        implies_spec(Capability::FsRead, c) <==> c == Capability::FsRead,
{
    lemma_implies_four(Capability::User, c);
    lemma_implies_four(Capability::IpcSend, c);
    lemma_implies_four(Capability::IpcRecv, c);
    lemma_implies_four(Capability::FsWrite, c);
    lemma_implies_four(Capability::FsRead, c);
}

/// The kernel side of the tree: Ring0 grants Driver and Admin and all below them;
/// Driver grants the memory, DMA, device and full-syscall capabilities; physical
/// allocation grants huge pages; Admin grants debugging, tracing, scheduling and
/// mounting; debugging grants tracing.
pub proof fn law_kernel_subtrees(c: Capability)
    ensures
        implies_spec(Capability::Driver, c) <==> (c == Capability::Driver || c == Capability::PhysAlloc || c
            == Capability::HugePage || c == Capability::VirtMap || c == Capability::Dma || c == Capability::DevPci || c
            == Capability::DevPort || c == Capability::DevMmio || c == Capability::DevIrq || c == Capability::SyscallAll),
        implies_spec(Capability::PhysAlloc, c) <==> (c == Capability::PhysAlloc || c == Capability::HugePage),
        implies_spec(Capability::Admin, c) <==> (c == Capability::Admin || c == Capability::Debug || c
            == Capability::Ptrace || c == Capability::Sched || c == Capability::FsMount),
        implies_spec(Capability::Debug, c) <==> (c == Capability::Debug || c == Capability::Ptrace),
        implies_spec(Capability::Ring0, c) <==> (c == Capability::Ring0 || implies_spec(Capability::Driver, c)
            || implies_spec(Capability::Admin, c)),
        implies_spec(Capability::Root, c),
{
    lemma_implies_four(Capability::Driver, c);
    lemma_implies_four(Capability::PhysAlloc, c);
    lemma_implies_four(Capability::Admin, c);
    lemma_implies_four(Capability::Debug, c);
    lemma_implies_four(Capability::Ring0, c);
    law_root_implies_all(c);
}

/// Every other capability is a leaf: it grants only itself.
pub proof fn law_leaves(l: Capability, c: Capability)
    requires
        l != Capability::Root && l != Capability::Ring0 && l != Capability::User && l != Capability::Driver && l
            != Capability::Admin && l != Capability::PhysAlloc && l != Capability::Debug && l != Capability::IpcSend
            && l != Capability::FsWrite,
    ensures
        implies_spec(l, c) <==> c == l,
{
    lemma_implies_four(l, c);
}

} // verus!
