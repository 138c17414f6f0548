//! Preset capability sets handed to new worlds.
use vstd::prelude::*;
use super::types::{Capability, CapabilitySet, cap_index};

verus! {

/// Membership of the ordinary user preset.
pub open spec fn standard_user_member(c: Capability) -> bool {
    c == Capability::User || c == Capability::Mmap || c == Capability::Protect || c == Capability::Spawn || c == Capability::Kill || c == Capability::IpcSend || c == Capability::IpcRecv || c == Capability::FsRead || c == Capability::FsWrite || c == Capability::FsCreate || c == Capability::SyscallRestricted
}

/// The ordinary user preset.
pub fn standard_user() -> (r: CapabilitySet)
    ensures
        forall|c: Capability| r.holds(c) <==> standard_user_member(c),
        forall|i: int| !(0 <= i < 30) ==> !r@.contains(i),
{
    let r = CapabilitySet::empty()
        .add(Capability::User)
        .add(Capability::Mmap)
        .add(Capability::Protect)
        .add(Capability::Spawn)
        .add(Capability::Kill)
        .add(Capability::IpcSend)
        .add(Capability::IpcRecv)
        .add(Capability::FsRead)
        .add(Capability::FsWrite)
        .add(Capability::FsCreate)
        .add(Capability::SyscallRestricted);
    proof {
        assert forall|c: Capability| r.holds(c) <==> standard_user_member(c) by {
            super::types::lemma_cap_index(c);
        }
    }
    r
}

/// Membership of the privileged user preset.
pub open spec fn privileged_user_member(c: Capability) -> bool {
    c == Capability::User || c == Capability::Mmap || c == Capability::Protect || c == Capability::Spawn || c == Capability::Kill || c == Capability::IpcSend || c == Capability::IpcRecv || c == Capability::FsRead || c == Capability::FsWrite || c == Capability::FsCreate || c == Capability::SyscallRestricted || c == Capability::Admin || c == Capability::Sched || c == Capability::Debug || c == Capability::SyscallAll
}

/// The privileged user preset.
pub fn privileged_user() -> (r: CapabilitySet)
    ensures
        forall|c: Capability| r.holds(c) <==> privileged_user_member(c),
        forall|i: int| !(0 <= i < 30) ==> !r@.contains(i),
{
    let r = CapabilitySet::empty()
        .add(Capability::User)
        .add(Capability::Mmap)
        .add(Capability::Protect)
        .add(Capability::Spawn)
        .add(Capability::Kill)
        .add(Capability::IpcSend)
        .add(Capability::IpcRecv)
        .add(Capability::FsRead)
        .add(Capability::FsWrite)
        .add(Capability::FsCreate)
        .add(Capability::SyscallRestricted)
        .add(Capability::Admin)
        .add(Capability::Sched)
        .add(Capability::Debug)
        .add(Capability::SyscallAll);
    proof {
        assert forall|c: Capability| r.holds(c) <==> privileged_user_member(c) by {
            super::types::lemma_cap_index(c);
        }
    }
    r
}

/// Membership of the driver preset.
pub open spec fn driver_member(c: Capability) -> bool {
    c == Capability::User || c == Capability::PhysAlloc || c == Capability::VirtMap || c == Capability::Dma || c == Capability::DevPci || c == Capability::DevPort || c == Capability::DevMmio || c == Capability::DevIrq || c == Capability::SyscallAll || c == Capability::IpcSend || c == Capability::IpcRecv || c == Capability::FsRead
}

/// The driver preset.
pub fn driver() -> (r: CapabilitySet)
    ensures
        forall|c: Capability| r.holds(c) <==> driver_member(c),
        forall|i: int| !(0 <= i < 30) ==> !r@.contains(i),
{
    let r = CapabilitySet::empty()
        .add(Capability::User)
        .add(Capability::PhysAlloc)
        .add(Capability::VirtMap)
        .add(Capability::Dma)
        .add(Capability::DevPci)
        .add(Capability::DevPort)
        .add(Capability::DevMmio)
        .add(Capability::DevIrq)
        .add(Capability::SyscallAll)
        .add(Capability::IpcSend)
        .add(Capability::IpcRecv)
        .add(Capability::FsRead);
    proof {
        assert forall|c: Capability| r.holds(c) <==> driver_member(c) by {
            super::types::lemma_cap_index(c);
        }
    }
    r
}

/// The kernel preset: every capability.
pub fn kernel() -> (r: CapabilitySet)
    ensures
        forall|c: Capability| #[trigger] r.holds(c),
        r@ == Set::new(|i: int| 0 <= i < 30),
{
    let r = CapabilitySet::all();
    proof {
        assert forall|c: Capability| #[trigger] r.holds(c) by {
            super::types::lemma_cap_index(c);
        }
    }
    r
}

} // verus!
