//! Bit arrays stored as vectors of 64-bit words: bit `i` is bit `i % 64` of word `i / 64`.
use vstd::prelude::*;
use crate::bits::{bit64, lemma64_test, lemma64_set, lemma64_and, lemma64_zero, lemma64_lowest, positions_below, lemma_positions_step};

verus! {

/// Bit `i` of the word array is set.
pub open spec fn word_bit(ws: Seq<u64>, i: int) -> bool {
    0 <= i < ws.len() * 64 && bit64(ws[i / 64], i % 64)
}

/// Set bits of a word array.
pub open spec fn bit_set(ws: Seq<u64>) -> Set<int> {
    Set::new(|i: int| word_bit(ws, i))
}

/// Positions `0 <= i < n`.
pub open spec fn range_set(n: int) -> Set<int> {
    Set::new(|i: int| 0 <= i < n)
}

/// Word index and offset recompose a position.
pub proof fn lemma_split(i: int)
    requires
        i >= 0,
    ensures
        i == 64 * (i / 64) + i % 64,
        0 <= i % 64 < 64,
        i / 64 >= 0,
{
    vstd::arithmetic::div_mod::lemma_fundamental_div_mod(i, 64);
    vstd::arithmetic::div_mod::lemma_mod_bound(i, 64);
    vstd::arithmetic::div_mod::lemma_div_pos_is_pos(i, 64);
}

/// Two positions with the same word index and offset are equal; positions within a word
/// have that word's index.
pub proof fn lemma_same_slot(i: int, j: int)
    requires
        i >= 0,
        j >= 0,
    ensures
        (i / 64 == j / 64 && i % 64 == j % 64) <==> i == j,
{
    lemma_split(i);
    lemma_split(j);
}

/// Position `64 * w + k` has word index `w` and offset `k`.
pub proof fn lemma_compose(w: int, k: int)
    requires
        w >= 0,
        0 <= k < 64,
    ensures
        (64 * w + k) / 64 == w,
        (64 * w + k) % 64 == k,
{
    vstd::arithmetic::div_mod::lemma_fundamental_div_mod_converse(64 * w + k, 64, w, k);
}

/// The position is within the array exactly when its word index is.
pub proof fn lemma_in_range(i: int, n: int)
    requires
        i >= 0,
        n >= 0,
    ensures
        (i < n * 64) <==> (i / 64 < n),
{
    lemma_split(i);
}

/// Whether bit `bit` of the word array is set.
pub fn test_bit(ws: &Vec<u64>, bit: usize) -> (r: bool)
    requires
        bit < ws.len() * 64,
    ensures
        r == word_bit(ws@, bit as int),
{
    proof {
        lemma_split(bit as int);
        lemma_in_range(bit as int, ws.len() as int);
        lemma64_test(ws@[bit as int / 64], (bit % 64) as u64);
    }
    ws[bit / 64] & (1u64 << ((bit % 64) as u64)) != 0
}

/// Set, clear or flip bit `bit` (op 0, 1, 2).
pub fn update_bit(ws: &mut Vec<u64>, bit: usize, op: u8)
    requires
        bit < old(ws).len() * 64,
        op <= 2,
    ensures
        final(ws).len() == old(ws).len(),
        forall|i: int|
            #![trigger word_bit(final(ws)@, i)]
            word_bit(final(ws)@, i) == if i == bit {
                if op == 0 {
                    true
                } else if op == 1 {
                    false
                } else {
                    !word_bit(old(ws)@, i)
                }
            } else {
                word_bit(old(ws)@, i)
            },
{
    proof {
        lemma_split(bit as int);
        lemma_in_range(bit as int, old(ws).len() as int);
    }
    let w = bit / 64;
    let k = (bit % 64) as u64;
    let old_word = ws[w];
    let new_word = if op == 0 {
        old_word | (1u64 << k)
    } else if op == 1 {
        old_word & !(1u64 << k)
    } else {
        old_word ^ (1u64 << k)
    };
    ws.set(w, new_word);
    proof {
        assert forall|i: int|
            #![trigger word_bit(ws@, i)]
            word_bit(ws@, i) == if i == bit {
                if op == 0 {
                    true
                } else if op == 1 {
                    false
                } else {
                    !word_bit(old(ws)@, i)
                }
            } else {
                word_bit(old(ws)@, i)
            } by {
            if 0 <= i < ws.len() * 64 {
                lemma_split(i);
                lemma_in_range(i, ws.len() as int);
                lemma_same_slot(i, bit as int);
                lemma64_set(old_word, k, (i % 64) as u64);
            } else if i >= 0 {
                lemma_in_range(i, ws.len() as int);
            }
        }
    }
}

/// A word array of `n` copies of `v` (all bits clear for 0, all set for `u64::MAX`).
pub fn filled_words(n: usize, v: u64) -> (r: Vec<u64>)
    ensures
        r.len() == n,
        forall|j: int| 0 <= j < n ==> r@[j] == v,
{
    let mut r: Vec<u64> = Vec::new();
    let mut i: usize = 0;
    while i < n
        invariant
            i <= n,
            r.len() == i,
            forall|j: int| 0 <= j < i ==> r@[j] == v,
        decreases n - i,
    {
        r.push(v);
        i = i + 1;
    }
    r
}

/// Bits of a constant word array.
pub proof fn lemma_filled_bits(ws: Seq<u64>, v: u64)
    requires
        v == 0 || v == 0xffff_ffff_ffff_ffffu64,
        forall|j: int| 0 <= j < ws.len() ==> ws[j] == v,
    ensures
        forall|i: int| #[trigger] word_bit(ws, i) == (0 <= i < ws.len() * 64 && v != 0),
{
    assert forall|i: int| #[trigger] word_bit(ws, i) == (0 <= i < ws.len() * 64 && v != 0) by {
        if 0 <= i < ws.len() * 64 {
            lemma_split(i);
            lemma_in_range(i, ws.len() as int);
            lemma64_and(v, v, (i % 64) as u64);
        }
    }
}

/// Combine two word arrays bit by bit: and (0), or (1), xor (2), and-not (3).
pub fn combine(a: &Vec<u64>, b: &Vec<u64>, op: u8) -> (r: Vec<u64>)
    requires
        a.len() == b.len(),
        op <= 3,
    ensures
        r.len() == a.len(),
        forall|i: int|
            #![trigger word_bit(r@, i)]
            word_bit(r@, i) == if op == 0 {
                word_bit(a@, i) && word_bit(b@, i)
            } else if op == 1 {
                word_bit(a@, i) || word_bit(b@, i)
            } else if op == 2 {
                word_bit(a@, i) != word_bit(b@, i)
            } else {
                word_bit(a@, i) && !word_bit(b@, i)
            },
{
    let mut r: Vec<u64> = Vec::new();
    let mut i: usize = 0;
    while i < a.len()
        invariant
            i <= a.len(),
            a.len() == b.len(),
            r.len() == i,
            forall|j: int|
                0 <= j < i ==> #[trigger] r@[j] == if op == 0 {
                    a@[j] & b@[j]
                } else if op == 1 {
                    a@[j] | b@[j]
                } else if op == 2 {
                    a@[j] ^ b@[j]
                } else {
                    a@[j] & !b@[j]
                },
        decreases a.len() - i,
    {
        let w = if op == 0 {
            a[i] & b[i]
        } else if op == 1 {
            a[i] | b[i]
        } else if op == 2 {
            a[i] ^ b[i]
        } else {
            a[i] & !b[i]
        };
        r.push(w);
        i = i + 1;
    }
    proof {
        assert forall|i: int|
            #![trigger word_bit(r@, i)]
            word_bit(r@, i) == if op == 0 {
                word_bit(a@, i) && word_bit(b@, i)
            } else if op == 1 {
                word_bit(a@, i) || word_bit(b@, i)
            } else if op == 2 {
                word_bit(a@, i) != word_bit(b@, i)
            } else {
                word_bit(a@, i) && !word_bit(b@, i)
            } by {
            if 0 <= i < r.len() * 64 {
                lemma_split(i);
                lemma_in_range(i, r.len() as int);
                lemma64_and(a@[i / 64], b@[i / 64], (i % 64) as u64);
            }
        }
    }
    r
}

/// The lowest set bit at or above `64 * w + lo` inside word `w`.
pub fn lowest_in_word(ws: &Vec<u64>, w: usize, lo: u64) -> (r: Option<u64>)
    requires
        w < ws.len(),
        lo < 64,
    ensures
        match r {
            Some(k) => lo <= k < 64 && word_bit(ws@, 64 * w + k) && forall|j: int|
                lo <= j < k ==> !#[trigger] word_bit(ws@, 64 * w + j),
            None => forall|j: int| lo <= j < 64 ==> !#[trigger] word_bit(ws@, 64 * w + j),
        },
{
    let masked = ws[w] & (0xffff_ffff_ffff_ffffu64 << lo);
    proof {
        assert forall|j: int| 0 <= j < 64 implies #[trigger] bit64(masked, j) == (bit64(ws@[w as int], j) && j >= lo) by {
            lemma_mask_from(ws@[w as int], lo, j as u64);
        }
        assert forall|j: int| 0 <= j < 64 implies #[trigger] word_bit(ws@, 64 * w + j) == bit64(ws@[w as int], j) by {
            lemma_compose(w as int, j);
        }
    }
    if masked == 0 {
        proof {
            assert forall|j: int| lo <= j < 64 implies !#[trigger] word_bit(ws@, 64 * w + j) by {
                assert(word_bit(ws@, 64 * w + j) == bit64(ws@[w as int], j));
                assert(!bit64(0u64, j)) by {
                    lemma64_and(0, 0, j as u64);
                }
            }
        }
        None
    } else {
        proof {
            lemma64_lowest(masked);
        }
        let t = masked.trailing_zeros() as u64;
        proof {
            assert forall|j: int| lo <= j < t implies !#[trigger] word_bit(ws@, 64 * w + j) by {
                assert(word_bit(ws@, 64 * w + j) == bit64(ws@[w as int], j));
                assert(!bit64(masked, j));
            }
            assert(word_bit(ws@, 64 * w + t) == bit64(ws@[w as int], t as int));
        }
        Some(t)
    }
}

/// Bits of `x & (MAX << lo)` are the bits of `x` at or above `lo`.
pub proof fn lemma_mask_from(x: u64, lo: u64, j: u64)
    by (bit_vector)
    requires
        lo < 64,
        j < 64,
    ensures
        (((x & (0xffff_ffff_ffff_ffffu64 << lo)) >> j) & 1u64 == 1u64) == (((x >> j) & 1u64
            == 1u64) && j >= lo),
{
}

/// The first set bit at or after `from`, if any.
pub fn next_set_from(ws: &Vec<u64>, from: usize) -> (r: Option<usize>)
    requires
        ws.len() * 64 <= usize::MAX,
    ensures
        match r {
            Some(b) => from <= b && word_bit(ws@, b as int) && forall|j: int|
                from <= j < b ==> !#[trigger] word_bit(ws@, j),
            None => forall|j: int| from <= j ==> !#[trigger] word_bit(ws@, j),
        },
{
    let n = ws.len();
    if from >= n * 64 {
        return None;
    }
    let mut w = from / 64;
    let mut lo: u64 = (from % 64) as u64;
    proof {
        lemma_split(from as int);
    }
    while w < n
        invariant
            n == ws.len(),
            n * 64 <= usize::MAX,
            from < n * 64,
            lo < 64,
            w <= n,
            w < n ==> 64 * w + lo >= from,
            w < n ==> forall|j: int| from <= j < 64 * w + lo ==> !#[trigger] word_bit(ws@, j),
            w == n ==> forall|j: int| from <= j ==> !#[trigger] word_bit(ws@, j),
            w > from / 64 ==> lo == 0,
            w == from / 64 ==> lo == from % 64,
            w >= from / 64,
        decreases n - w,
    {
        match lowest_in_word(ws, w, lo) {
            Some(k) => {
                let b = w * 64 + (k as usize);
                proof {
                    assert forall|j: int| from <= j < b implies !#[trigger] word_bit(ws@, j) by {
                        if j >= 64 * w + lo {
                            let kk = j - 64 * w;
                            assert(word_bit(ws@, 64 * w + kk) == word_bit(ws@, j));
                        }
                    }
                }
                return Some(b);
            },
            None => {
                proof {
                    assert forall|j: int| from <= j < 64 * (w + 1) + 0 implies !#[trigger] word_bit(ws@, j) by {
                        if j >= 64 * w + lo {
                            let kk = j - 64 * w;
                            assert(word_bit(ws@, 64 * w + kk) == word_bit(ws@, j));
                        }
                    }
                    if w + 1 == n {
                        assert forall|j: int| from <= j implies !#[trigger] word_bit(ws@, j) by {
                            if j >= 64 * n {
                                lemma_in_range(j, n as int);
                            }
                        }
                    }
                }
                w = w + 1;
                lo = 0;
            },
        }
    }
    None
}

/// The first clear bit of the whole array, if any.
pub fn first_zero(ws: &Vec<u64>) -> (r: Option<usize>)
    requires
        ws.len() * 64 <= usize::MAX,
    ensures
        match r {
            Some(b) => b < ws.len() * 64 && !word_bit(ws@, b as int) && forall|j: int|
                0 <= j < b ==> #[trigger] word_bit(ws@, j),
            None => forall|j: int| 0 <= j < ws.len() * 64 ==> #[trigger] word_bit(ws@, j),
        },
{
    let mut flipped: Vec<u64> = Vec::new();
    let mut i: usize = 0;
    while i < ws.len()
        invariant
            i <= ws.len(),
            flipped.len() == i,
            forall|j: int| 0 <= j < i ==> #[trigger] flipped@[j] == !ws@[j],
        decreases ws.len() - i,
    {
        flipped.push(!ws[i]);
        i = i + 1;
    }
    proof {
        assert forall|j: int| #[trigger] word_bit(flipped@, j) == (0 <= j < ws.len() * 64 && !word_bit(ws@, j)) by {
            if 0 <= j < ws.len() * 64 {
                lemma_split(j);
                lemma_in_range(j, ws.len() as int);
                lemma64_and(ws@[j / 64], 0, (j % 64) as u64);
            }
        }
    }
    match next_set_from(&flipped, 0) {
        Some(b) => {
            proof {
                assert(word_bit(flipped@, b as int));
                assert forall|j: int| 0 <= j < b implies #[trigger] word_bit(ws@, j) by {
                    assert(!word_bit(flipped@, j));
                }
            }
            Some(b)
        },
        None => {
            proof {
                assert forall|j: int| 0 <= j < ws.len() * 64 implies #[trigger] word_bit(ws@, j) by {
                    assert(!word_bit(flipped@, j));
                }
            }
            None
        },
    }
}

/// Number of set bits of the array.
pub fn count_bits(ws: &Vec<u64>) -> (r: usize)
    requires
        ws.len() * 64 <= usize::MAX,
    ensures
        r == bit_set(ws@).len(),
        bit_set(ws@).finite(),
        r <= ws.len() * 64,
{
    let n = ws.len() * 64;
    let ghost p = |i: int| word_bit(ws@, i);
    let mut c: usize = 0;
    let mut i: usize = 0;
    proof {
        lemma_positions_step(p, 0);
    }
    while i < n
        invariant
            i <= n,
            n == ws.len() * 64,
            p == (|i: int| word_bit(ws@, i)),
            positions_below(p, i as int).finite(),
            c == positions_below(p, i as int).len(),
            c <= i,
        decreases n - i,
    {
        proof {
            lemma_positions_step(p, i as int);
        }
        if test_bit(ws, i) {
            c = c + 1;
        }
        i = i + 1;
    }
    assert(bit_set(ws@) =~= positions_below(p, n as int));
    c
}

} // verus!
