//! Fixed-size bitmaps: `Bitmap<WORDS>`, a bitmap over a caller-provided word
//! buffer with a logical bit count, and `AtomicBitmap<WORDS>` for identifier
//! allocation. The view of each is the set of its set bit positions.
use vstd::prelude::*;
use super::words::{word_bit, bit_set, range_set, test_bit, update_bit, filled_words, lemma_filled_bits, combine, next_set_from, first_zero, count_bits, lemma_split};

verus! {

/// Bits in one word.
pub const BITS_PER_WORD: usize = 64;

/// Words needed to hold `nbits` bits.
pub fn words_for_bits(nbits: usize) -> (r: usize)
    requires
        nbits + 63 <= usize::MAX,
    ensures
        r == (nbits + 63) / 64,
        r * 64 >= nbits,
        r * 64 < nbits + 64,
{
    proof {
        lemma_split(nbits + 63);
    }
    (nbits + (BITS_PER_WORD - 1)) / BITS_PER_WORD
}

/// Largest word count for which a bitmap's bit count fits in a `u32`.
pub open spec fn max_words() -> int {
    0x3FF_FFFF
}

/// A bitmap of `WORDS * 64` bits.
pub struct Bitmap<const WORDS: usize> {
    words: Vec<u64>,
}

impl<const WORDS: usize> View for Bitmap<WORDS> {
    type V = Set<int>;

    closed spec fn view(&self) -> Set<int> {
        bit_set(self.words@)
    }
}

impl<const WORDS: usize> Bitmap<WORDS> {
    /// Number of bits.
    pub open spec fn capacity() -> int {
        WORDS * 64
    }

    /// One word per `WORDS`.
    pub closed spec fn wf(&self) -> bool {
        &&& self.words.len() == WORDS
        &&& WORDS <= max_words()
    }

    proof fn lemma_view(&self)
        requires
            self.wf(),
        ensures
            forall|i: int| self@.contains(i) ==> 0 <= i < Self::capacity(),
            forall|i: int| #[trigger] self@.contains(i) == word_bit(self.words@, i),
    {
    }

    fn cap() -> (r: usize)
        requires
            WORDS <= max_words(),
        ensures
            r == Self::capacity(),
    {
        WORDS * BITS_PER_WORD
    }

    /// All bits clear.
    pub fn new() -> (r: Self)
        requires
            WORDS <= max_words(),
        ensures
            r.wf(),
            r@ == Set::<int>::empty(),
    {
        let r = Self { words: filled_words(WORDS, 0) };
        proof {
            lemma_filled_bits(r.words@, 0);
            assert(r@ =~= Set::<int>::empty());
        }
        r
    }

    /// All bits set.
    pub fn filled() -> (r: Self)
        requires
            WORDS <= max_words(),
        ensures
            r.wf(),
            r@ == range_set(Self::capacity()),
    {
        let r = Self { words: filled_words(WORDS, 0xffff_ffff_ffff_ffff) };
        proof {
            lemma_filled_bits(r.words@, 0xffff_ffff_ffff_ffff);
            assert(r@ =~= range_set(Self::capacity()));
        }
        r
    }

    /// Set bit `bit` (no effect beyond the capacity).
    pub fn set(&mut self, bit: usize)
        requires
            old(self).wf(),
        ensures
            final(self).wf(),
            final(self)@ == if bit < Self::capacity() {
                old(self)@.insert(bit as int)
            } else {
                old(self)@
            },
    {
        if bit < Self::cap() {
            update_bit(&mut self.words, bit, 0);
            assert(self@ =~= old(self)@.insert(bit as int));
        }
    }

    /// Clear bit `bit` (no effect beyond the capacity).
    pub fn clear(&mut self, bit: usize)
        requires
            old(self).wf(),
        ensures
            final(self).wf(),
            final(self)@ == old(self)@.remove(bit as int),
    {
        if bit < Self::cap() {
            update_bit(&mut self.words, bit, 1);
            assert(self@ =~= old(self)@.remove(bit as int));
        } else {
            assert(self@ =~= old(self)@.remove(bit as int));
        }
    }

    /// Flip bit `bit` (no effect beyond the capacity).
    pub fn toggle(&mut self, bit: usize)
        requires
            old(self).wf(),
        ensures
            final(self).wf(),
            final(self)@ == if bit < Self::capacity() {
                if old(self)@.contains(bit as int) {
                    old(self)@.remove(bit as int)
                } else {
                    old(self)@.insert(bit as int)
                }
            } else {
                old(self)@
            },
    {
        if bit < Self::cap() {
            update_bit(&mut self.words, bit, 2);
            proof {
                if old(self)@.contains(bit as int) {
                    assert(self@ =~= old(self)@.remove(bit as int));
                } else {
                    assert(self@ =~= old(self)@.insert(bit as int));
                }
            }
        }
    }

    /// Bit `bit` is set (false beyond the capacity).
    pub fn test(&self, bit: usize) -> (r: bool)
        requires
            self.wf(),
        ensures
            r == self@.contains(bit as int),
    {
        bit < Self::cap() && test_bit(&self.words, bit)
    }

    /// Set the bits `start..min(end, capacity)`.
    pub fn set_range(&mut self, start: usize, end: usize)
        requires
            old(self).wf(),
        ensures
            final(self).wf(),
            final(self)@ == old(self)@.union(
                Set::new(|i: int| start <= i < end && i < Self::capacity()),
            ),
    {
        let end = if end < Self::cap() {
            end
        } else {
            Self::cap()
        };
        let mut bit = start;
        while bit < end
            invariant
                self.wf(),
                end <= Self::capacity(),
                start <= bit || end <= bit,
                self@ == old(self)@.union(Set::new(|i: int| start <= i < bit && i < end)),
            decreases end - bit,
        {
            self.set(bit);
            assert(self@ =~= old(self)@.union(Set::new(|i: int| start <= i < bit + 1 && i < end)));
            bit = bit + 1;
        }
        assert(self@ =~= old(self)@.union(Set::new(|i: int| start <= i < end@ && i < Self::capacity())));
    }

    /// No bit is set.
    pub fn is_empty(&self) -> (r: bool)
        requires
            self.wf(),
        ensures
            r == (self@ == Set::<int>::empty()),
    {
        match next_set_from(&self.words, 0) {
            Some(b) => {
                assert(self@.contains(b as int));
                false
            },
            None => {
                assert(self@ =~= Set::<int>::empty());
                true
            },
        }
    }

    /// Every bit is set.
    pub fn is_full(&self) -> (r: bool)
        requires
            self.wf(),
        ensures
            r == (self@ == range_set(Self::capacity())),
    {
        match first_zero(&self.words) {
            Some(b) => {
                assert(!self@.contains(b as int));
                assert(range_set(Self::capacity()).contains(b as int));
                false
            },
            None => {
                assert(self@ =~= range_set(Self::capacity()));
                true
            },
        }
    }

    /// Number of set bits.
    pub fn weight(&self) -> (r: u32)
        requires
            self.wf(),
        ensures
            r == self@.len(),
            self@.finite(),
    {
        count_bits(&self.words) as u32
    }

    /// Lowest set bit.
    pub fn find_first_set(&self) -> (r: Option<usize>)
        requires
            self.wf(),
        ensures
            match r {
                Some(b) => self@.contains(b as int) && forall|j: int| 0 <= j < b ==> !self@.contains(j),
                None => self@ == Set::<int>::empty(),
            },
    {
        let r = next_set_from(&self.words, 0);
        if r.is_none() {
            assert(self@ =~= Set::<int>::empty());
        }
        r
    }

    /// Lowest clear bit.
    pub fn find_first_zero(&self) -> (r: Option<usize>)
        requires
            self.wf(),
        ensures
            match r {
                Some(b) => b < Self::capacity() && !self@.contains(b as int) && forall|j: int|
                    0 <= j < b ==> self@.contains(j),
                None => self@ == range_set(Self::capacity()),
            },
    {
        let r = first_zero(&self.words);
        if r.is_none() {
            assert(self@ =~= range_set(Self::capacity()));
        }
        r
    }

    /// Lowest set bit above `after`.
    pub fn find_next_set(&self, after: usize) -> (r: Option<usize>)
        requires
            self.wf(),
            after < usize::MAX,
        ensures
            match r {
                Some(b) => after < b && self@.contains(b as int) && forall|j: int|
                    after < j < b ==> !self@.contains(j),
                None => forall|j: int| after < j ==> !self@.contains(j),
            },
    {
        next_set_from(&self.words, after + 1)
    }

    /// Bitwise and.
    pub fn and(&self, other: &Self) -> (r: Self)
        requires
            self.wf(),
            other.wf(),
        ensures
            r.wf(),
            r@ == self@.intersect(other@),
    {
        let r = Self { words: combine(&self.words, &other.words, 0) };
        assert(r@ =~= self@.intersect(other@));
        r
    }

    /// Bitwise or.
    pub fn or(&self, other: &Self) -> (r: Self)
        requires
            self.wf(),
            other.wf(),
        ensures
            r.wf(),
            r@ == self@.union(other@),
    {
        let r = Self { words: combine(&self.words, &other.words, 1) };
        assert(r@ =~= self@.union(other@));
        r
    }

    /// Bitwise exclusive or.
    pub fn xor(&self, other: &Self) -> (r: Self)
        requires
            self.wf(),
            other.wf(),
        ensures
            r.wf(),
            r@ == self@.difference(other@).union(other@.difference(self@)),
    {
        let r = Self { words: combine(&self.words, &other.words, 2) };
        assert(r@ =~= self@.difference(other@).union(other@.difference(self@)));
        r
    }

    /// Bits of this bitmap that are clear in `other`.
    pub fn andnot(&self, other: &Self) -> (r: Self)
        requires
            self.wf(),
            other.wf(),
        ensures
            r.wf(),
            r@ == self@.difference(other@),
    {
        let r = Self { words: combine(&self.words, &other.words, 3) };
        assert(r@ =~= self@.difference(other@));
        r
    }

    /// The two bitmaps share a set bit.
    pub fn intersects(&self, other: &Self) -> (r: bool)
        requires
            self.wf(),
            other.wf(),
        ensures
            r == !(self@.intersect(other@) == Set::<int>::empty()),
    {
        let both = self.and(other);
        !both.is_empty()
    }

    /// Iterator over the set bits, in increasing order.
    pub fn iter(&self) -> (r: BitmapIter)
        requires
            self.wf(),
        ensures
            r.wf(),
            r.position() == 0,
            r.limit() == Self::capacity(),
            forall|i: int| r.yields(i) == self@.contains(i),
    {
        BitmapIter { words: self.words.clone(), next_bit: 0, capacity: Self::cap() }
    }
}

/// Iterator over the set bits of a bitmap.
pub struct BitmapIter {
    words: Vec<u64>,
    next_bit: usize,
    capacity: usize,
}

impl BitmapIter {
    /// Next position to look at.
    pub closed spec fn position(&self) -> int {
        self.next_bit as int
    }

    /// Positions at and beyond this are never yielded.
    pub closed spec fn limit(&self) -> int {
        self.capacity as int
    }

    /// Bit `i` is set in the iterated bitmap.
    pub closed spec fn yields(&self, i: int) -> bool {
        i < self.capacity && word_bit(self.words@, i)
    }

    /// Well-formed.
    pub closed spec fn wf(&self) -> bool {
        self.words.len() * 64 <= usize::MAX
    }

    /// The next set bit at or after the current position.
    pub fn next(&mut self) -> (r: Option<usize>)
        requires
            old(self).wf(),
        ensures
            final(self).wf(),
            final(self).limit() == old(self).limit(),
            forall|i: int| final(self).yields(i) == old(self).yields(i),
            match r {
                Some(b) => old(self).position() <= b && old(self).yields(b as int) && final(self).position() == b + 1
                    && forall|j: int| old(self).position() <= j < b ==> !old(self).yields(j),
                None => forall|j: int| old(self).position() <= j ==> !old(self).yields(j),
            },
    {
        match next_set_from(&self.words, self.next_bit) {
            Some(b) => {
                if b < self.capacity {
                    self.next_bit = b + 1;
                    Some(b)
                } else {
                    if self.next_bit < self.capacity {
                        self.next_bit = self.capacity;
                    }
                    None
                }
            },
            None => {
                if self.next_bit < self.capacity {
                    self.next_bit = self.capacity;
                }
                None
            },
        }
    }
}

/// A bitmap over a word buffer whose logical size is `nbits` (for masks sized at run time).
pub struct BitmapSlice {
    words: Vec<u64>,
    nbits: usize,
}

impl BitmapSlice {
    /// The buffer's set bits (all words, also beyond `nbits`).
    pub closed spec fn stored(&self) -> Set<int> {
        bit_set(self.words@)
    }

    /// Logical size.
    pub closed spec fn nbits_spec(&self) -> int {
        self.nbits as int
    }

    /// Number of positions in the buffer.
    pub closed spec fn buffer_bits(&self) -> int {
        self.words.len() * 64
    }

    /// The buffer holds at least `nbits` bits and is addressable.
    pub closed spec fn wf(&self) -> bool {
        &&& self.words.len() * 64 <= usize::MAX
        &&& self.nbits <= self.words.len() * 64
        &&& self.words.len() <= max_words()
    }

    /// View `words` as a bitmap of `nbits` bits.
    pub fn new(words: Vec<u64>, nbits: usize) -> (r: Self)
        requires
            nbits <= words.len() * 64,
            words.len() <= max_words(),
        ensures
            r.wf(),
            r.nbits_spec() == nbits,
            r.stored() == bit_set(words@),
            r.buffer_bits() == words.len() * 64,
    {
        Self { words, nbits }
    }

    /// Logical size.
    pub fn capacity(&self) -> (r: usize)
        ensures
            r == self.nbits_spec(),
    {
        self.nbits
    }

    /// Set bit `bit` when it is below the logical size.
    pub fn set(&mut self, bit: usize)
        requires
            old(self).wf(),
        ensures
            final(self).wf(),
            final(self).nbits_spec() == old(self).nbits_spec(),
            final(self).buffer_bits() == old(self).buffer_bits(),
            final(self).stored() == if bit < old(self).nbits_spec() {
                old(self).stored().insert(bit as int)
            } else {
                old(self).stored()
            },
    {
        if bit < self.nbits {
            update_bit(&mut self.words, bit, 0);
            assert(self.stored() =~= old(self).stored().insert(bit as int));
        }
    }

    /// Clear bit `bit` when it is below the logical size.
    pub fn clear(&mut self, bit: usize)
        requires
            old(self).wf(),
        ensures
            final(self).wf(),
            final(self).nbits_spec() == old(self).nbits_spec(),
            final(self).buffer_bits() == old(self).buffer_bits(),
            final(self).stored() == if bit < old(self).nbits_spec() {
                old(self).stored().remove(bit as int)
            } else {
                old(self).stored()
            },
    {
        if bit < self.nbits {
            update_bit(&mut self.words, bit, 1);
            assert(self.stored() =~= old(self).stored().remove(bit as int));
        }
    }

    /// Bit `bit` is set and below the logical size.
    pub fn test(&self, bit: usize) -> (r: bool)
        requires
            self.wf(),
        ensures
            r == (bit < self.nbits_spec() && self.stored().contains(bit as int)),
    {
        bit < self.nbits && test_bit(&self.words, bit)
    }

    /// Number of set bits in the whole buffer.
    pub fn weight(&self) -> (r: u32)
        requires
            self.wf(),
        ensures
            r == self.stored().len(),
            self.stored().finite(),
    {
        count_bits(&self.words) as u32
    }

    /// Lowest clear bit, when it is below the logical size.
    pub fn find_first_zero(&self) -> (r: Option<usize>)
        requires
            self.wf(),
        ensures
            match r {
                Some(b) => b < self.nbits_spec() && !self.stored().contains(b as int) && forall|j: int|
                    0 <= j < b ==> self.stored().contains(j),
                None => forall|j: int| 0 <= j < self.nbits_spec() ==> self.stored().contains(j),
            },
    {
        match first_zero(&self.words) {
            Some(b) => {
                if b < self.nbits {
                    Some(b)
                } else {
                    None
                }
            },
            None => None,
        }
    }

    /// Clear the whole buffer.
    pub fn clear_all(&mut self)
        requires
            old(self).wf(),
        ensures
            final(self).wf(),
            final(self).nbits_spec() == old(self).nbits_spec(),
            final(self).buffer_bits() == old(self).buffer_bits(),
            final(self).stored() == Set::<int>::empty(),
    {
        let n = self.words.len();
        let mut i: usize = 0;
        while i < n
            invariant
                i <= n,
                n == self.words.len(),
                n == old(self).words.len(),
                self.nbits == old(self).nbits,
                forall|j: int| 0 <= j < i ==> self.words@[j] == 0,
            decreases n - i,
        {
            self.words.set(i, 0);
            i = i + 1;
        }
        proof {
            lemma_filled_bits(self.words@, 0);
        }
        assert(self.stored() =~= Set::<int>::empty());
    }
}

/// Bitmap used to hand out identifiers: each operation reports the previous state.
///
/// Callers serialise access (`&mut self` for the operations that change it).
pub struct AtomicBitmap<const WORDS: usize> {
    words: Vec<u64>,
}

impl<const WORDS: usize> View for AtomicBitmap<WORDS> {
    type V = Set<int>;

    closed spec fn view(&self) -> Set<int> {
        bit_set(self.words@)
    }
}

impl<const WORDS: usize> AtomicBitmap<WORDS> {
    /// Number of bits.
    pub open spec fn capacity() -> int {
        WORDS * 64
    }

    /// One word per `WORDS`.
    pub closed spec fn wf(&self) -> bool {
        &&& self.words.len() == WORDS
        &&& WORDS <= max_words()
    }

    fn cap() -> (r: usize)
        requires
            WORDS <= max_words(),
        ensures
            r == Self::capacity(),
    {
        WORDS * BITS_PER_WORD
    }

    /// All bits clear.
    pub fn new() -> (r: Self)
        requires
            WORDS <= max_words(),
        ensures
            r.wf(),
            r@ == Set::<int>::empty(),
    {
        let r = Self { words: filled_words(WORDS, 0) };
        proof {
            lemma_filled_bits(r.words@, 0);
            assert(r@ =~= Set::<int>::empty());
        }
        r
    }

    /// Bit `bit` is set (false beyond the capacity).
    pub fn test(&self, bit: usize) -> (r: bool)
        requires
            self.wf(),
        ensures
            r == self@.contains(bit as int),
    {
        bit < Self::cap() && test_bit(&self.words, bit)
    }

    /// Only positions below the capacity are set.
    pub proof fn lemma_in_capacity(&self)
        requires
            self.wf(),
        ensures
            forall|i: int| #[trigger] self@.contains(i) ==> 0 <= i < Self::capacity(),
    {
    }

    /// Set bit `bit`; returns whether it was already set (true beyond the capacity).
    pub fn test_and_set(&mut self, bit: usize) -> (r: bool)
        requires
            old(self).wf(),
        ensures
            final(self).wf(),
            bit >= Self::capacity() ==> r && final(self)@ == old(self)@,
            bit < Self::capacity() ==> r == old(self)@.contains(bit as int) && final(self)@ == old(
                self,
            )@.insert(bit as int),
    {
        if bit >= Self::cap() {
            return true;
        }
        let prev = test_bit(&self.words, bit);
        update_bit(&mut self.words, bit, 0);
        assert(self@ =~= old(self)@.insert(bit as int));
        prev
    }

    /// Clear bit `bit`; returns whether it was set (false beyond the capacity).
    pub fn test_and_clear(&mut self, bit: usize) -> (r: bool)
        requires
            old(self).wf(),
        ensures
            final(self).wf(),
            r == old(self)@.contains(bit as int),
            final(self)@ == old(self)@.remove(bit as int),
    {
        if bit >= Self::cap() {
            assert(self@ =~= old(self)@.remove(bit as int));
            return false;
        }
        let prev = test_bit(&self.words, bit);
        update_bit(&mut self.words, bit, 1);
        assert(self@ =~= old(self)@.remove(bit as int));
        prev
    }

    /// Number of set bits.
    pub fn weight(&self) -> (r: u32)
        requires
            self.wf(),
        ensures
            r == self@.len(),
            self@.finite(),
    {
        count_bits(&self.words) as u32
    }

    /// Every bit is set.
    pub fn is_full(&self) -> (r: bool)
        requires
            self.wf(),
        ensures
            r == (self@ == range_set(Self::capacity())),
    {
        match first_zero(&self.words) {
            Some(b) => {
                assert(range_set(Self::capacity()).contains(b as int));
                false
            },
            None => {
                assert(self@ =~= range_set(Self::capacity()));
                true
            },
        }
    }

    /// Claim the lowest clear bit and return it (`None` when every bit is taken).
    pub fn find_first_zero_and_set(&mut self) -> (r: Option<usize>)
        requires
            old(self).wf(),
        ensures
            final(self).wf(),
            match r {
                Some(b) => b < Self::capacity() && !old(self)@.contains(b as int) && (forall|j: int|
                    0 <= j < b ==> old(self)@.contains(j)) && final(self)@ == old(self)@.insert(b as int),
                None => old(self)@ == range_set(Self::capacity()) && final(self)@ == old(self)@,
            },
    {
        match first_zero(&self.words) {
            Some(b) => {
                update_bit(&mut self.words, b, 0);
                assert(self@ =~= old(self)@.insert(b as int));
                Some(b)
            },
            None => {
                assert(old(self)@ =~= range_set(Self::capacity()));
                None
            },
        }
    }
}

} // verus!
