//! Sets of CPUs, `0 <= cpu < MAX_CPUS`, stored as 64-bit words. The view of a mask is
//! the set of CPU numbers in it.
use vstd::prelude::*;
use super::words::{word_bit, bit_set, range_set, test_bit, update_bit, filled_words, lemma_filled_bits, combine, next_set_from, count_bits};

verus! {

/// Largest number of CPUs a mask describes.
pub const MAX_CPUS: usize = 1024;

/// Words in a mask.
pub const WORDS: usize = 16;

/// All CPU numbers a mask can hold.
pub open spec fn all_cpus() -> Set<int> {
    range_set(MAX_CPUS as int)
}

/// The first position `next_after` searches from: the start of the word that holds
/// `cpu + 1` (computed in 32 bits, so `u32::MAX` wraps to 0).
pub open spec fn next_after_base(cpu: u32) -> int {
    64 * ((((cpu as int) + 1) % 0x1_0000_0000) / 64)
}

/// The inputs on which `next_after` is defined: a CPU number past the mask's range
/// (other than `u32::MAX`) needs a non-empty mask, and when `cpu` is the last of its
/// word, that word's bits cannot be the only ones at or below it.
pub open spec fn next_after_defined(s: Set<int>, cpu: u32) -> bool {
    &&& (MAX_CPUS <= cpu < u32::MAX ==> exists|p: int| s.contains(p))
    &&& (cpu < MAX_CPUS && cpu % 64 == 63 ==> {
        ||| !(exists|p: int| s.contains(p) && cpu - 63 <= p <= cpu)
        ||| (exists|p: int| s.contains(p) && p > cpu)
        ||| (exists|p: int| s.contains(p) && p < cpu - 63)
    })
}

/// A set of CPUs.
#[derive(Clone)]
pub struct CpuMask {
    bits: Vec<u64>,
}

impl View for CpuMask {
    type V = Set<int>;

    closed spec fn view(&self) -> Set<int> {
        bit_set(self.bits@)
    }
}

impl CpuMask {
    /// The mask has its full number of words.
    pub closed spec fn wf(&self) -> bool {
        self.bits.len() == WORDS
    }

    /// Only CPU numbers below `MAX_CPUS` are in a mask.
    pub proof fn lemma_bounds(&self)
        requires
            self.wf(),
        ensures
            forall|i: int| #[trigger] self@.contains(i) ==> 0 <= i < MAX_CPUS,
    {
    }

    proof fn lemma_view(&self)
        requires
            self.wf(),
        ensures
            self@.subset_of(all_cpus()),
            forall|i: int| #[trigger] self@.contains(i) == word_bit(self.bits@, i),
    {
    }

    /// No CPU.
    pub fn empty() -> (r: Self)
        ensures
            r.wf(),
            r@ == Set::<int>::empty(),
    {
        let bits = filled_words(WORDS, 0);
        proof {
            lemma_filled_bits(bits@, 0);
        }
        let r = Self { bits };
        assert(r@ =~= Set::<int>::empty());
        r
    }

    /// Every CPU.
    pub fn full() -> (r: Self)
        ensures
            r.wf(),
            r@ == all_cpus(),
    {
        let bits = filled_words(WORDS, 0xffff_ffff_ffff_ffffu64);
        proof {
            lemma_filled_bits(bits@, 0xffff_ffff_ffff_ffffu64);
        }
        let r = Self { bits };
        assert(r@ =~= all_cpus());
        r
    }

    /// Only `cpu` (no CPU when `cpu` is out of range).
    pub fn single(cpu: u32) -> (r: Self)
        ensures
            r.wf(),
            r@ == if cpu < MAX_CPUS {
                set![cpu as int]
            } else {
                Set::<int>::empty()
            },
    {
        let mut r = Self::empty();
        r.set(cpu);
        assert(r@ =~= if cpu < MAX_CPUS {
            set![cpu as int]
        } else {
            Set::<int>::empty()
        });
        r
    }

    /// Add `cpu` (ignored when out of range).
    pub fn set(&mut self, cpu: u32)
        requires
            old(self).wf(),
        ensures
            final(self).wf(),
            final(self)@ == if cpu < MAX_CPUS {
                old(self)@.insert(cpu as int)
            } else {
                old(self)@
            },
    {
        let idx = cpu as usize;
        if idx < MAX_CPUS {
            update_bit(&mut self.bits, idx, 0);
            assert(self@ =~= old(self)@.insert(cpu as int));
        }
    }

    /// Remove `cpu` (ignored when out of range).
    pub fn clear(&mut self, cpu: u32)
        requires
            old(self).wf(),
        ensures
            final(self).wf(),
            final(self)@ == old(self)@.remove(cpu as int),
    {
        let idx = cpu as usize;
        if idx < MAX_CPUS {
            update_bit(&mut self.bits, idx, 1);
        }
        assert(self@ =~= old(self)@.remove(cpu as int));
    }

    /// `cpu` is in the mask.
    pub fn test(&self, cpu: u32) -> (r: bool)
        requires
            self.wf(),
        ensures
            r == self@.contains(cpu as int),
    {
        let idx = cpu as usize;
        idx < MAX_CPUS && test_bit(&self.bits, idx)
    }

    /// No CPU is in the mask.
    pub fn is_empty(&self) -> (r: bool)
        requires
            self.wf(),
        ensures
            r == (self@ == Set::<int>::empty()),
    {
        match next_set_from(&self.bits, 0) {
            Some(b) => {
                assert(self@.contains(b as int));
                false
            },
            None => {
                assert(self@ =~= Set::<int>::empty());
                true
            },
        }
    }

    /// Number of CPUs in the mask.
    pub fn weight(&self) -> (r: u32)
        requires
            self.wf(),
        ensures
            self@.finite(),
            r == self@.len(),
            r <= MAX_CPUS,
    {
        count_bits(&self.bits) as u32
    }

    /// The masks share a CPU.
    pub fn intersects(&self, other: &Self) -> (r: bool)
        requires
            self.wf(),
            other.wf(),
        ensures
            r == (exists|c: int| self@.contains(c) && other@.contains(c)),
    {
        let both = self.bitand(other);
        let e = both.is_empty();
        if e {
            assert forall|c: int| self@.contains(c) implies !other@.contains(c) by {
                assert(!both@.contains(c));
            }
        } else {
            proof {
                assert(exists|c: int| both@.contains(c)) by {
                    if !(exists|c: int| both@.contains(c)) {
                        assert(both@ =~= Set::<int>::empty());
                    }
                }
                let c = choose|c: int| both@.contains(c);
                assert(self@.contains(c) && other@.contains(c));
            }
        }
        !e
    }

    /// Every CPU of this mask is in `other`.
    pub fn is_subset(&self, other: &Self) -> (r: bool)
        requires
            self.wf(),
            other.wf(),
        ensures
            r == self@.subset_of(other@),
    {
        let rest = self.andnot(other);
        let e = rest.is_empty();
        if e {
            assert forall|c: int| self@.contains(c) implies other@.contains(c) by {
                assert(!rest@.contains(c));
            }
        } else {
            proof {
                assert(exists|c: int| rest@.contains(c)) by {
                    if !(exists|c: int| rest@.contains(c)) {
                        assert(rest@ =~= Set::<int>::empty());
                    }
                }
                let c = choose|c: int| rest@.contains(c);
                assert(self@.contains(c) && !other@.contains(c));
            }
        }
        e
    }

    /// The masks hold the same CPUs.
    pub fn same_cpus(&self, other: &Self) -> (r: bool)
        requires
            self.wf(),
            other.wf(),
        ensures
            r == (self@ == other@),
    {
        let a = self.is_subset(other);
        let b = other.is_subset(self);
        if a && b {
            assert(self@ =~= other@);
        }
        a && b
    }

    /// A mask with the same CPUs.
    pub fn copy(&self) -> (r: Self)
        requires
            self.wf(),
        ensures
            r.wf(),
            r@ == self@,
    {
        let r = self.bitor(self);
        assert(r@ =~= self@);
        r
    }

    /// CPUs of this mask that are not in `other`.
    pub fn andnot(&self, other: &Self) -> (r: Self)
        requires
            self.wf(),
            other.wf(),
        ensures
            r.wf(),
            r@ == self@.difference(other@),
    {
        let r = Self { bits: combine(&self.bits, &other.bits, 3) };
        assert(r@ =~= self@.difference(other@));
        r
    }

    /// CPUs in both masks.
    pub fn bitand(&self, rhs: &Self) -> (r: Self)
        requires
            self.wf(),
            rhs.wf(),
        ensures
            r.wf(),
            r@ == self@.intersect(rhs@),
    {
        let r = Self { bits: combine(&self.bits, &rhs.bits, 0) };
        assert(r@ =~= self@.intersect(rhs@));
        r
    }

    /// CPUs in either mask.
    pub fn bitor(&self, rhs: &Self) -> (r: Self)
        requires
            self.wf(),
            rhs.wf(),
        ensures
            r.wf(),
            r@ == self@.union(rhs@),
    {
        let r = Self { bits: combine(&self.bits, &rhs.bits, 1) };
        assert(r@ =~= self@.union(rhs@));
        r
    }

    /// CPUs in range that are not in the mask.
    pub fn not(&self) -> (r: Self)
        requires
            self.wf(),
        ensures
            r.wf(),
            r@ == all_cpus().difference(self@),
    {
        let all = Self::full();
        let r = all.andnot(self);
        assert(r@ =~= all_cpus().difference(self@));
        r
    }

    /// Lowest CPU in the mask.
    pub fn first(&self) -> (r: Option<u32>)
        requires
            self.wf(),
        ensures
            match r {
                Some(c) => self@.contains(c as int) && forall|j: int| 0 <= j < c ==> !self@.contains(j),
                None => self@ == Set::<int>::empty(),
            },
    {
        match next_set_from(&self.bits, 0) {
            Some(b) => Some(b as u32),
            None => {
                assert(self@ =~= Set::<int>::empty());
                None
            },
        }
    }

    /// Lowest CPU at or above the start of the word that holds `cpu + 1`; when there is
    /// none, the lowest CPU of the mask.
    pub fn next_after(&self, cpu: u32) -> (r: Option<u32>)
        requires
            self.wf(),
            next_after_defined(self@, cpu),
        ensures
            match r {
                Some(c) => self@.contains(c as int) && {
                    ||| (c >= next_after_base(cpu) && forall|j: int|
                        next_after_base(cpu) <= j < c ==> !self@.contains(j))
                    ||| ((forall|j: int| j >= next_after_base(cpu) ==> !self@.contains(j)) && forall|j: int|
                        0 <= j < c ==> !self@.contains(j))
                },
                None => self@ == Set::<int>::empty(),
            },
    {
        let start: u32 = cpu.wrapping_add(1);
        let base: usize = (start as usize / 64) * 64;
        assert(base == next_after_base(cpu)) by {
            assert(start == ((cpu as int) + 1) % 0x1_0000_0000);
        }
        match next_set_from(&self.bits, base) {
            Some(b) => {
                return Some(b as u32);
            },
            None => {},
        }
        self.first()
    }

    /// Iterator over the CPUs of the mask, in increasing order.
    pub fn iter(&self) -> (r: CpuMaskIter)
        requires
            self.wf(),
        ensures
            r.wf(),
            r.position() == 0,
            forall|i: int| r.yields(i) == self@.contains(i),
    {
        CpuMaskIter { bits: self.bits.clone(), next_cpu: 0 }
    }
}

/// Iterator over the CPUs of a mask.
pub struct CpuMaskIter {
    bits: Vec<u64>,
    next_cpu: usize,
}

impl CpuMaskIter {
    /// Next CPU number to look at.
    pub closed spec fn position(&self) -> int {
        self.next_cpu as int
    }

    /// `i` is in the iterated mask.
    pub closed spec fn yields(&self, i: int) -> bool {
        word_bit(self.bits@, i)
    }

    /// Well-formed.
    pub closed spec fn wf(&self) -> bool {
        &&& self.bits.len() == WORDS
        &&& self.next_cpu <= MAX_CPUS
    }

    /// The next CPU of the mask at or after the current position.
    pub fn next(&mut self) -> (r: Option<u32>)
        requires
            old(self).wf(),
        ensures
            final(self).wf(),
            forall|i: int| final(self).yields(i) == old(self).yields(i),
            match r {
                Some(c) => old(self).position() <= c && old(self).yields(c as int) && final(self).position() == c + 1
                    && forall|j: int| old(self).position() <= j < c ==> !old(self).yields(j),
                None => forall|j: int| old(self).position() <= j ==> !old(self).yields(j),
            },
    {
        match next_set_from(&self.bits, self.next_cpu) {
            Some(b) => {
                self.next_cpu = b + 1;
                Some(b as u32)
            },
            None => {
                self.next_cpu = MAX_CPUS;
                None
            },
        }
    }
}

/// A CPU mask updated by single-word operations; callers serialise the updates.
pub struct AtomicCpuMask {
    bits: Vec<u64>,
}

impl View for AtomicCpuMask {
    type V = Set<int>;

    closed spec fn view(&self) -> Set<int> {
        bit_set(self.bits@)
    }
}

impl AtomicCpuMask {
    /// The mask has its full number of words.
    pub closed spec fn wf(&self) -> bool {
        self.bits.len() == WORDS
    }

    /// No CPU.
    pub fn new() -> (r: Self)
        ensures
            r.wf(),
            r@ == Set::<int>::empty(),
    {
        let m = CpuMask::empty();
        Self { bits: m.bits }
    }

    /// Add `cpu` (ignored when out of range).
    pub fn set(&mut self, cpu: u32)
        requires
            old(self).wf(),
        ensures
            final(self).wf(),
            final(self)@ == if cpu < MAX_CPUS {
                old(self)@.insert(cpu as int)
            } else {
                old(self)@
            },
    {
        let idx = cpu as usize;
        if idx < MAX_CPUS {
            update_bit(&mut self.bits, idx, 0);
            assert(self@ =~= old(self)@.insert(cpu as int));
        }
    }

    /// Remove `cpu` (ignored when out of range).
    pub fn clear(&mut self, cpu: u32)
        requires
            old(self).wf(),
        ensures
            final(self).wf(),
            final(self)@ == old(self)@.remove(cpu as int),
    {
        let idx = cpu as usize;
        if idx < MAX_CPUS {
            update_bit(&mut self.bits, idx, 1);
        }
        assert(self@ =~= old(self)@.remove(cpu as int));
    }

    /// `cpu` is in the mask.
    pub fn test(&self, cpu: u32) -> (r: bool)
        requires
            self.wf(),
        ensures
            r == self@.contains(cpu as int),
    {
        let idx = cpu as usize;
        idx < MAX_CPUS && test_bit(&self.bits, idx)
    }

    /// A plain copy of the current contents.
    pub fn snapshot(&self) -> (r: CpuMask)
        requires
            self.wf(),
        ensures
            r.wf(),
            r@ == self@,
    {
        CpuMask { bits: self.bits.clone() }
    }
}

} // verus!
