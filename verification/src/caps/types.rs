//! Capabilities, their categories and 32-bit capability sets.
use vstd::prelude::*;
use crate::bits::{bit32, positions_below, lemma_positions_step, lemma32_test, lemma32_set, lemma32_clear, lemma32_single, lemma32_and, lemma32_zero, lemma32_ext};

verus! {

/// Identifier of a capability (its bit position).
pub type CapID = u8;

/// Number of bit positions a capability set can hold.
pub const MAX_CAPS: usize = 32;

/// A single capability; its identifier is its position in this list.
#[derive(Debug, Clone, Copy, PartialEq, Eq, Hash, Structural)]
pub enum Capability {
    Root,
    Ring0,
    Driver,
    User,
    Admin,
    PhysAlloc,
    VirtMap,
    Dma,
    Mmap,
    Protect,
    HugePage,
    Spawn,
    Kill,
    Debug,
    Ptrace,
    Sched,
    IpcSend,
    IpcRecv,
    IpcBroadcast,
    IpcPrivileged,
    FsRead,
    FsWrite,
    FsCreate,
    FsMount,
    DevPci,
    DevPort,
    DevMmio,
    DevIrq,
    SyscallAll,
    SyscallRestricted,
}

/// Bit position of a capability.
pub open spec fn cap_index(c: Capability) -> int {
    match c {
        Capability::Root => 0,
        Capability::Ring0 => 1,
        Capability::Driver => 2,
        Capability::User => 3,
        Capability::Admin => 4,
        Capability::PhysAlloc => 5,
        Capability::VirtMap => 6,
        Capability::Dma => 7,
        Capability::Mmap => 8,
        Capability::Protect => 9,
        Capability::HugePage => 10,
        Capability::Spawn => 11,
        Capability::Kill => 12,
        Capability::Debug => 13,
        Capability::Ptrace => 14,
        Capability::Sched => 15,
        Capability::IpcSend => 16,
        Capability::IpcRecv => 17,
        Capability::IpcBroadcast => 18,
        Capability::IpcPrivileged => 19,
        Capability::FsRead => 20,
        Capability::FsWrite => 21,
        Capability::FsCreate => 22,
        Capability::FsMount => 23,
        Capability::DevPci => 24,
        Capability::DevPort => 25,
        Capability::DevMmio => 26,
        Capability::DevIrq => 27,
        Capability::SyscallAll => 28,
        Capability::SyscallRestricted => 29,
    }
}

/// The capability at bit position `i` (meaningful for `0 <= i < 30`).
pub open spec fn cap_at(i: int) -> Capability {
    if i == 0 {
        Capability::Root
    } else if i == 1 {
        Capability::Ring0
    } else if i == 2 {
        Capability::Driver
    } else if i == 3 {
        Capability::User
    } else if i == 4 {
        Capability::Admin
    } else if i == 5 {
        Capability::PhysAlloc
    } else if i == 6 {
        Capability::VirtMap
    } else if i == 7 {
        Capability::Dma
    } else if i == 8 {
        Capability::Mmap
    } else if i == 9 {
        Capability::Protect
    } else if i == 10 {
        Capability::HugePage
    } else if i == 11 {
        Capability::Spawn
    } else if i == 12 {
        Capability::Kill
    } else if i == 13 {
        Capability::Debug
    } else if i == 14 {
        Capability::Ptrace
    } else if i == 15 {
        Capability::Sched
    } else if i == 16 {
        Capability::IpcSend
    } else if i == 17 {
        Capability::IpcRecv
    } else if i == 18 {
        Capability::IpcBroadcast
    } else if i == 19 {
        Capability::IpcPrivileged
    } else if i == 20 {
        Capability::FsRead
    } else if i == 21 {
        Capability::FsWrite
    } else if i == 22 {
        Capability::FsCreate
    } else if i == 23 {
        Capability::FsMount
    } else if i == 24 {
        Capability::DevPci
    } else if i == 25 {
        Capability::DevPort
    } else if i == 26 {
        Capability::DevMmio
    } else if i == 27 {
        Capability::DevIrq
    } else if i == 28 {
        Capability::SyscallAll
    } else {
        Capability::SyscallRestricted
    }
}

/// Printable name of a capability.
pub open spec fn cap_name(c: Capability) -> &'static str {
    match c {
        Capability::Root => "ROOT",
        Capability::Ring0 => "RING0",
        Capability::Driver => "DRIVER",
        Capability::User => "USER",
        Capability::Admin => "ADMIN",
        Capability::PhysAlloc => "PHYS_ALLOC",
        Capability::VirtMap => "VIRT_MAP",
        Capability::Dma => "DMA",
        Capability::Mmap => "MMAP",
        Capability::Protect => "PROTECT",
        Capability::HugePage => "HUGE_PAGE",
        Capability::Spawn => "SPAWN",
        Capability::Kill => "KILL",
        Capability::Debug => "DEBUG",
        Capability::Ptrace => "PTRACE",
        Capability::Sched => "SCHED",
        Capability::IpcSend => "IPC_SEND",
        Capability::IpcRecv => "IPC_RECV",
        Capability::IpcBroadcast => "IPC_BROADCAST",
        Capability::IpcPrivileged => "IPC_PRIVILEGED",
        Capability::FsRead => "FS_READ",
        Capability::FsWrite => "FS_WRITE",
        Capability::FsCreate => "FS_CREATE",
        Capability::FsMount => "FS_MOUNT",
        Capability::DevPci => "DEV_PCI",
        Capability::DevPort => "DEV_PORT",
        Capability::DevMmio => "DEV_MMIO",
        Capability::DevIrq => "DEV_IRQ",
        Capability::SyscallAll => "SYSCALL_ALL",
        Capability::SyscallRestricted => "SYSCALL_RESTRICTED",
    }
}

/// Bit positions and capabilities are in one-to-one correspondence.
pub proof fn lemma_cap_index(c: Capability)
    ensures
        0 <= cap_index(c) < 30,
        cap_at(cap_index(c)) == c,
{
}

/// Each position below 30 names a capability.
pub proof fn lemma_cap_at(i: int)
    requires
        0 <= i < 30,
    ensures
        cap_index(cap_at(i)) == i,
{
}

/// Category of a capability, derived from its position.
pub open spec fn cap_category(c: Capability) -> CapCategory {
    let i = cap_index(c);
    if i <= 4 {
        CapCategory::Ring
    } else if i <= 10 {
        CapCategory::Memory
    } else if i <= 15 {
        CapCategory::Process
    } else if i <= 19 {
        CapCategory::Ipc
    } else if i <= 23 {
        CapCategory::Fs
    } else if i <= 27 {
        CapCategory::Device
    } else {
        CapCategory::Syscall
    }
}

impl Capability {
    /// The bit of this capability in a `CapabilitySet`.
    pub fn bit(self) -> (r: u32)
        ensures
            r == 1u32 << (cap_index(self) as u32),
    {
        1u32 << (self.id() as u32)
    }

    /// Identifier (bit position) of this capability.
    pub fn id(self) -> (r: CapID)
        ensures
            r as int == cap_index(self),
    {
        match self {
            Capability::Root => 0,
            Capability::Ring0 => 1,
            Capability::Driver => 2,
            Capability::User => 3,
            Capability::Admin => 4,
            Capability::PhysAlloc => 5,
            Capability::VirtMap => 6,
            Capability::Dma => 7,
            Capability::Mmap => 8,
            Capability::Protect => 9,
            Capability::HugePage => 10,
            Capability::Spawn => 11,
            Capability::Kill => 12,
            Capability::Debug => 13,
            Capability::Ptrace => 14,
            Capability::Sched => 15,
            Capability::IpcSend => 16,
            Capability::IpcRecv => 17,
            Capability::IpcBroadcast => 18,
            Capability::IpcPrivileged => 19,
            Capability::FsRead => 20,
            Capability::FsWrite => 21,
            Capability::FsCreate => 22,
            Capability::FsMount => 23,
            Capability::DevPci => 24,
            Capability::DevPort => 25,
            Capability::DevMmio => 26,
            Capability::DevIrq => 27,
            Capability::SyscallAll => 28,
            Capability::SyscallRestricted => 29,
        }
    }

    /// Name of this capability, for diagnostics and audit output.
    pub fn name(self) -> (r: &'static str)
        ensures
            r == cap_name(self),
    {
        match self {
            Capability::Root => "ROOT",
            Capability::Ring0 => "RING0",
            Capability::Driver => "DRIVER",
            Capability::User => "USER",
            Capability::Admin => "ADMIN",
            Capability::PhysAlloc => "PHYS_ALLOC",
            Capability::VirtMap => "VIRT_MAP",
            Capability::Dma => "DMA",
            Capability::Mmap => "MMAP",
            Capability::Protect => "PROTECT",
            Capability::HugePage => "HUGE_PAGE",
            Capability::Spawn => "SPAWN",
            Capability::Kill => "KILL",
            Capability::Debug => "DEBUG",
            Capability::Ptrace => "PTRACE",
            Capability::Sched => "SCHED",
            Capability::IpcSend => "IPC_SEND",
            Capability::IpcRecv => "IPC_RECV",
            Capability::IpcBroadcast => "IPC_BROADCAST",
            Capability::IpcPrivileged => "IPC_PRIVILEGED",
            Capability::FsRead => "FS_READ",
            Capability::FsWrite => "FS_WRITE",
            Capability::FsCreate => "FS_CREATE",
            Capability::FsMount => "FS_MOUNT",
            Capability::DevPci => "DEV_PCI",
            Capability::DevPort => "DEV_PORT",
            Capability::DevMmio => "DEV_MMIO",
            Capability::DevIrq => "DEV_IRQ",
            Capability::SyscallAll => "SYSCALL_ALL",
            Capability::SyscallRestricted => "SYSCALL_RESTRICTED",
        }
    }

    /// All capabilities, in order of their identifiers.
    pub fn iter_all() -> (r: Vec<Capability>)
        ensures
            r.len() == 30,
            forall|i: int| 0 <= i < 30 ==> cap_index(#[trigger] r@[i]) == i,
    {
        let mut v: Vec<Capability> = Vec::new();
        v.push(Capability::Root);
        v.push(Capability::Ring0);
        v.push(Capability::Driver);
        v.push(Capability::User);
        v.push(Capability::Admin);
        v.push(Capability::PhysAlloc);
        v.push(Capability::VirtMap);
        v.push(Capability::Dma);
        v.push(Capability::Mmap);
        v.push(Capability::Protect);
        v.push(Capability::HugePage);
        v.push(Capability::Spawn);
        v.push(Capability::Kill);
        v.push(Capability::Debug);
        v.push(Capability::Ptrace);
        v.push(Capability::Sched);
        v.push(Capability::IpcSend);
        v.push(Capability::IpcRecv);
        v.push(Capability::IpcBroadcast);
        v.push(Capability::IpcPrivileged);
        v.push(Capability::FsRead);
        v.push(Capability::FsWrite);
        v.push(Capability::FsCreate);
        v.push(Capability::FsMount);
        v.push(Capability::DevPci);
        v.push(Capability::DevPort);
        v.push(Capability::DevMmio);
        v.push(Capability::DevIrq);
        v.push(Capability::SyscallAll);
        v.push(Capability::SyscallRestricted);
        v
    }

    /// The capability whose identifier is `id`, if any.
    pub fn from_id(id: CapID) -> (r: Option<Capability>)
        ensures
            match r {
                Some(c) => cap_index(c) == id as int,
                None => forall|c: Capability| cap_index(c) != id as int,
            },
    {
        let all = Capability::iter_all();
        let mut i: usize = 0;
        while i < all.len()
            invariant
                all.len() == 30,
                forall|k: int| 0 <= k < 30 ==> cap_index(#[trigger] all@[k]) == k,
                i <= 30,
                i <= id as int,
            decreases 30 - i,
        {
            if all[i].id() == id {
                return Some(all[i]);
            }
            i = i + 1;
        }
        proof {
            assert forall|c: Capability| cap_index(c) != id as int by {
                lemma_cap_index(c);
            }
        }
        None
    }

    /// Category used to group capabilities.
    pub fn category(self) -> (r: CapCategory)
        ensures
            r == cap_category(self),
    {
        let i = self.id();
        if i <= 4 {
            CapCategory::Ring
        } else if i <= 10 {
            CapCategory::Memory
        } else if i <= 15 {
            CapCategory::Process
        } else if i <= 19 {
            CapCategory::Ipc
        } else if i <= 23 {
            CapCategory::Fs
        } else if i <= 27 {
            CapCategory::Device
        } else if i <= 29 {
            CapCategory::Syscall
        } else {
            CapCategory::Unknown
        }
    }
}

/// Category of a capability, for grouping.
#[derive(Debug, Clone, Copy, PartialEq, Eq, Structural)]
pub enum CapCategory {
    Ring,
    Memory,
    Process,
    Ipc,
    Fs,
    Device,
    Syscall,
    Unknown,
}

/// Printable name of a category.
pub open spec fn category_name(c: CapCategory) -> &'static str {
    match c {
        CapCategory::Ring => "Ring/Privilege",
        CapCategory::Memory => "Memory",
        CapCategory::Process => "Process",
        CapCategory::Ipc => "IPC",
        CapCategory::Fs => "Filesystem",
        CapCategory::Device => "Device",
        CapCategory::Syscall => "Syscalls",
        CapCategory::Unknown => "Unknown",
    }
}

impl CapCategory {
    /// Name of this category.
    pub fn name(self) -> (r: &'static str)
        ensures
            r == category_name(self),
    {
        match self {
            CapCategory::Ring => "Ring/Privilege",
            CapCategory::Memory => "Memory",
            CapCategory::Process => "Process",
            CapCategory::Ipc => "IPC",
            CapCategory::Fs => "Filesystem",
            CapCategory::Device => "Device",
            CapCategory::Syscall => "Syscalls",
            CapCategory::Unknown => "Unknown",
        }
    }
}

/// A set of capabilities stored as a 32-bit map; its view is the set of set bit positions.
#[derive(Clone, Copy, PartialEq, Eq, Structural)]
pub struct CapabilitySet {
    bits: u32,
}

/// Bit positions set in a 32-bit word.
pub open spec fn bit_positions(x: u32) -> Set<int> {
    Set::new(|i: int| bit32(x, i))
}

impl View for CapabilitySet {
    type V = Set<int>;

    closed spec fn view(&self) -> Set<int> {
        bit_positions(self.bits)
    }
}

impl CapabilitySet {
    /// Raw bit map of the set.
    pub closed spec fn raw(self) -> u32 {
        self.bits
    }

    /// The set's view is the set of bit positions of its raw map (what `bits`
    /// returns); a map below `1 << 30` holds positions of capabilities only; sets
    /// with one raw map are one set.
    pub proof fn lemma_view_is_bits(self, other: Self)
        ensures
            self@ == bit_positions(self.raw()),
            forall|i: int| self@.contains(i) <==> bit32(self.raw(), i),
            self.raw() < 0x4000_0000 ==> forall|i: int| self@.contains(i) ==> 0 <= i < 30,
            self.raw() == other.raw() ==> self == other,
    {
        if self.raw() < 0x4000_0000 {
            assert forall|i: int| self@.contains(i) implies 0 <= i < 30 by {
                if 30 <= i < 32 {
                    lemma32_high(self.bits, i as u32);
                }
            }
        }
    }

    /// This set without `cap`.
    pub closed spec fn remove_spec(self, cap: Capability) -> Self {
        CapabilitySet { bits: self.bits & !(1u32 << (cap_index(cap) as u32)) }
    }

    /// This set with `cap`.
    pub closed spec fn add_spec(self, cap: Capability) -> Self {
        CapabilitySet { bits: self.bits | (1u32 << (cap_index(cap) as u32)) }
    }

    /// Removing a capability removes exactly its position.
    pub proof fn lemma_remove_spec(self, cap: Capability)
        ensures
            self.remove_spec(cap)@ == self@.remove(cap_index(cap)),
    {
        let r = self.remove_spec(cap);
        assert forall|i: int| 0 <= i < 32 implies r@.contains(i) == (self@.contains(i) && i
            != cap_index(cap)) by {
            lemma32_clear(self.bits, cap_index(cap) as u32, i as u32);
        }
        assert(r@ =~= self@.remove(cap_index(cap)));
    }

    /// The set holds capability `c`.
    pub open spec fn holds(self, c: Capability) -> bool {
        self@.contains(cap_index(c))
    }

    /// The empty set.
    pub fn empty() -> (r: Self)
        ensures
            r.raw() == 0,
            r@ == Set::<int>::empty(),
    {
        let r = Self { bits: 0 };
        assert forall|i: int| !r@.contains(i) by {
            if 0 <= i < 32 {
                lemma32_and(0, 0, i as u32);
            }
        }
        assert(r@ =~= Set::<int>::empty());
        r
    }

    /// Every capability (the first 30 bits).
    pub fn all() -> (r: Self)
        ensures
            r.raw() == 0x3FFF_FFFFu32,
            r@ == Set::new(|i: int| 0 <= i < 30),
    {
        let r = Self { bits: 0x3FFF_FFFF };
        assert forall|i: int| 0 <= i < 32 implies r@.contains(i) == (i < 30) by {
            lemma_all_bits(i as u32);
        }
        assert(r@ =~= Set::new(|i: int| 0 <= i < 30));
        r
    }

    /// The set holding only `cap`.
    pub fn single(cap: Capability) -> (r: Self)
        ensures
            r.raw() == 1u32 << (cap_index(cap) as u32),
            r@ == Set::<int>::empty().insert(cap_index(cap)),
    {
        let r = Self { bits: cap.bit() };
        assert forall|i: int| 0 <= i < 32 implies r@.contains(i) == (i == cap_index(cap)) by {
            lemma32_single(cap_index(cap) as u32, i as u32);
        }
        assert(r@ =~= Set::<int>::empty().insert(cap_index(cap)));
        r
    }

    /// The set with the given raw bit map (not validated).
    pub fn from_bits(bits: u32) -> (r: Self)
        ensures
            r.raw() == bits,
    {
        Self { bits }
    }

    /// The set holds `cap`.
    pub fn has(self, cap: Capability) -> (r: bool)
        ensures
            r == self.holds(cap),
    {
        proof {
            lemma32_test(self.bits, cap_index(cap) as u32);
        }
        (self.bits & cap.bit()) != 0
    }

    /// This set with `cap` added.
    pub fn add(self, cap: Capability) -> (r: Self)
        ensures
            r@ == self@.insert(cap_index(cap)),
            r == self.add_spec(cap),
    {
        let r = Self { bits: self.bits | cap.bit() };
        assert forall|i: int| 0 <= i < 32 implies r@.contains(i) == (self@.contains(i) || i
            == cap_index(cap)) by {
            lemma32_set(self.bits, cap_index(cap) as u32, i as u32);
        }
        assert(r@ =~= self@.insert(cap_index(cap)));
        r
    }

    /// This set with `cap` removed.
    pub fn remove(self, cap: Capability) -> (r: Self)
        ensures
            r@ == self@.remove(cap_index(cap)),
            r == self.remove_spec(cap),
    {
        let r = Self { bits: self.bits & !cap.bit() };
        assert forall|i: int| 0 <= i < 32 implies r@.contains(i) == (self@.contains(i) && i
            != cap_index(cap)) by {
            lemma32_clear(self.bits, cap_index(cap) as u32, i as u32);
        }
        assert(r@ =~= self@.remove(cap_index(cap)));
        r
    }

    /// Intersection of two sets.
    pub fn intersect(self, other: Self) -> (r: Self)
        ensures
            r@ == self@.intersect(other@),
            r.raw() == self.raw() & other.raw(),
    {
        let r = Self { bits: self.bits & other.bits };
        assert forall|i: int| 0 <= i < 32 implies r@.contains(i) == (self@.contains(i)
            && other@.contains(i)) by {
            lemma32_and(self.bits, other.bits, i as u32);
        }
        assert(r@ =~= self@.intersect(other@));
        r
    }

    /// Union of two sets.
    pub fn union(self, other: Self) -> (r: Self)
        ensures
            r@ == self@.union(other@),
            r.raw() == self.raw() | other.raw(),
    {
        let r = Self { bits: self.bits | other.bits };
        assert forall|i: int| 0 <= i < 32 implies r@.contains(i) == (self@.contains(i)
            || other@.contains(i)) by {
            lemma32_and(self.bits, other.bits, i as u32);
        }
        assert(r@ =~= self@.union(other@));
        r
    }

    /// The capabilities of this set that are not in `other`.
    pub fn diff(self, other: Self) -> (r: Self)
        ensures
            r@ == self@.difference(other@),
            r.raw() == self.raw() & !other.raw(),
    {
        let r = Self { bits: self.bits & !other.bits };
        assert forall|i: int| 0 <= i < 32 implies r@.contains(i) == (self@.contains(i)
            && !other@.contains(i)) by {
            lemma32_and(self.bits, other.bits, i as u32);
        }
        assert(r@ =~= self@.difference(other@));
        r
    }

    /// The set is empty.
    pub fn is_empty(self) -> (r: bool)
        ensures
            r == (self@ == Set::<int>::empty()),
    {
        if self.bits == 0 {
            assert forall|i: int| !self@.contains(i) by {
                if 0 <= i < 32 {
                    lemma32_and(0, 0, i as u32);
                }
            }
            assert(self@ =~= Set::<int>::empty());
            true
        } else {
            proof {
                if self@ == Set::<int>::empty() {
                    assert forall|j: int| 0 <= j < 32 implies !bit32(self.bits, j) by {
                        assert(!self@.contains(j));
                    }
                    lemma32_zero(self.bits);
                }
            }
            false
        }
    }

    /// Every capability of `other` is in this set.
    pub fn contains(self, other: Self) -> (r: bool)
        ensures
            r == other@.subset_of(self@),
    {
        let r = (self.bits & other.bits) == other.bits;
        proof {
            assert forall|j: int| 0 <= j < 32 implies bit32(self.bits & other.bits, j) == (bit32(
                self.bits,
                j,
            ) && bit32(other.bits, j)) by {
                lemma32_and(self.bits, other.bits, j as u32);
            }
            if r {
                assert forall|i: int| other@.contains(i) implies self@.contains(i) by {
                    assert(bit32(self.bits & other.bits, i));
                }
            } else {
                if other@.subset_of(self@) {
                    assert forall|j: int| 0 <= j < 32 implies bit32(self.bits & other.bits, j)
                        == bit32(other.bits, j) by {
                        if bit32(other.bits, j) {
                            assert(other@.contains(j));
                        }
                    }
                    lemma32_ext(self.bits & other.bits, other.bits);
                }
            }
        }
        r
    }

    /// Number of bits set (capabilities held).
    pub fn count(self) -> (r: usize)
        ensures
            r == self@.len(),
            self@.finite(),
    {
        let ghost p = |i: int| bit32(self.bits, i);
        let mut n: usize = 0;
        let mut i: u32 = 0;
        proof {
            lemma_positions_step(p, 0);
        }
        while i < 32
            invariant
                i <= 32,
                n as int == positions_below(p, i as int).len(),
                positions_below(p, i as int).finite(),
                p == (|i: int| bit32(self.bits, i)),
            decreases 32 - i,
        {
            proof {
                lemma_positions_step(p, i as int);
                lemma32_test(self.bits, i);
            }
            if (self.bits & (1u32 << i)) != 0 {
                n = n + 1;
            }
            i = i + 1;
        }
        assert(self@ =~= positions_below(p, 32));
        n
    }

    /// Raw bit map, for export.
    pub fn bits(self) -> (r: u32)
        ensures
            r == self.raw(),
    {
        self.bits
    }

    /// The capabilities held, in order of their identifiers.
    pub fn iter(self) -> (r: Vec<Capability>)
        ensures
            forall|c: Capability| r@.contains(c) <==> self.holds(c),
            forall|i: int, j: int|
                0 <= i < j < r.len() ==> cap_index(#[trigger] r@[i]) < cap_index(#[trigger] r@[j]),
            r.len() <= 30,
            r@.no_duplicates(),
    {
        let all = Capability::iter_all();
        let mut out: Vec<Capability> = Vec::new();
        let mut k: usize = 0;
        while k < all.len()
            invariant
                k <= all.len(),
                all.len() == 30,
                forall|i: int| 0 <= i < 30 ==> cap_index(#[trigger] all@[i]) == i,
                forall|c: Capability|
                    out@.contains(c) <==> (self.holds(c) && cap_index(c) < k),
                forall|i: int| 0 <= i < out.len() ==> cap_index(#[trigger] out@[i]) < k,
                out.len() <= k,
                forall|i: int, j: int|
                    0 <= i < j < out.len() ==> cap_index(#[trigger] out@[i]) < cap_index(#[trigger] out@[j]),
            decreases all.len() - k,
        {
            let c = all[k];
            if self.has(c) {
                let ghost prev = out@;
                out.push(c);
                proof {
                    assert forall|d: Capability| out@.contains(d) <==> (prev.contains(d) || d == c) by {
                        if prev.contains(d) {
                            let t = choose|t: int| 0 <= t < prev.len() && prev[t] == d;
                            assert(out@[t] == d);
                        }
                        if d == c {
                            assert(out@[prev.len() as int] == c);
                        }
                        if out@.contains(d) {
                            let t = choose|t: int| 0 <= t < out.len() && out@[t] == d;
                            if t < prev.len() {
                                assert(prev[t] == d);
                            }
                        }
                    }
                    assert forall|d: Capability|
                        out@.contains(d) <==> (self.holds(d) && cap_index(d) < k + 1) by {
                        lemma_cap_index(d);
                        if cap_index(d) == k {
                            assert(d == c);
                        }
                    }
                }
            } else {
                proof {
                    assert forall|d: Capability|
                        out@.contains(d) <==> (self.holds(d) && cap_index(d) < k + 1) by {
                        lemma_cap_index(d);
                        if cap_index(d) == k {
                            assert(d == c);
                        }
                    }
                }
            }
            k = k + 1;
        }
        proof {
            assert forall|i: int, j: int| 0 <= i < out.len() && 0 <= j < out.len() && i != j implies out@[i] != out@[j] by {
                if i < j {
                    assert(cap_index(out@[i]) < cap_index(out@[j]));
                } else {
                    assert(cap_index(out@[j]) < cap_index(out@[i]));
                }
            }
        }
        out
    }
}

impl Default for CapabilitySet {
    fn default() -> (r: Self)
        ensures
            r.raw() == 0,
    {
        Self::empty()
    }
}

/// The first thirty bits are exactly the positions below thirty.
proof fn lemma_all_bits(j: u32)
    by (bit_vector)
    requires
        j < 32,
    ensures
        ((0x3FFF_FFFFu32 >> j) & 1u32 == 1u32) == (j < 30),
{
}

/// Error raised when a capability is missing.
#[derive(Debug, Clone, Copy, PartialEq, Eq, Structural)]
pub struct CapabilityError {
    pub required: Capability,
    pub world_id: Option<u32>,
}

/// Result of an operation that needs a capability.
pub type CapResult<T> = Result<T, CapabilityError>;

/// For a set whose raw map (`bits`) is below `1 << 30`, the list `iter` gives has
/// as many entries as `count` reports.
pub proof fn law_iter_len_is_count(s: CapabilitySet, r: Seq<Capability>)
    requires
        s.raw() < 0x4000_0000,
        forall|c: Capability| r.contains(c) <==> s.holds(c),
        r.no_duplicates(),
    ensures
        r.len() == s@.len(),
{
    s.lemma_view_is_bits(s);
    let t = r.map_values(|c: Capability| cap_index(c));
    assert forall|i: int, j: int| 0 <= i < t.len() && 0 <= j < t.len() && i != j implies t[i] != t[j] by {
        lemma_cap_index(r[i]);
        lemma_cap_index(r[j]);
    }
    assert(t.no_duplicates());
    t.unique_seq_to_set();
    assert forall|x: int| s@.contains(x) <==> t.to_set().contains(x) by {
        if s@.contains(x) {
            lemma_cap_at(x);
            assert(s.holds(cap_at(x)));
            assert(r.contains(cap_at(x)));
            let i = choose|i: int| 0 <= i < r.len() && r[i] == cap_at(x);
            assert(t[i] == x);
        }
        if t.to_set().contains(x) {
            let i = choose|i: int| 0 <= i < t.len() && t[i] == x;
            assert(r.contains(r[i]));
            assert(s.holds(r[i]));
        }
    }
    assert(t.to_set() =~= s@);
}

/// A word below `1 << 30` has no bit set at positions 30 and 31.
proof fn lemma32_high(x: u32, i: u32)
    requires
        x < 0x4000_0000,
        30 <= i < 32,
    ensures
        (x >> i) & 1u32 != 1u32,
{
    assert((x >> i) & 1u32 != 1u32) by (bit_vector)
        requires
            x < 0x4000_0000u32,
            30u32 <= i < 32u32,
    ;
}

} // verus!
