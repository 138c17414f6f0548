//! Bit-level facts shared by the capability sets, bitmaps and CPU masks.
use vstd::prelude::*;

verus! {

/// Bit `i` of the 32-bit word `x` is set.
pub open spec fn bit32(x: u32, i: int) -> bool {
    0 <= i < 32 && (x >> (i as u32)) & 1u32 == 1u32
}

/// Bit `i` of the 64-bit word `x` is set.
pub open spec fn bit64(x: u64, i: int) -> bool {
    0 <= i < 64 && (x >> (i as u64)) & 1u64 == 1u64
}

/// The positions below `n` at which `p` holds.
pub open spec fn positions_below(p: spec_fn(int) -> bool, n: int) -> Set<int> {
    Set::new(|i: int| 0 <= i < n && p(i))
}

/// Growing the bound by one adds at most the new position.
pub proof fn lemma_positions_step(p: spec_fn(int) -> bool, n: int)
    requires
        n >= 0,
    ensures
        positions_below(p, n + 1) == (if p(n) {
            positions_below(p, n).insert(n)
        } else {
            positions_below(p, n)
        }),
        positions_below(p, n).finite(),
        positions_below(p, n).len() <= n,
        positions_below(p, n + 1).finite(),
    decreases n,
{
    if p(n) {
        assert(positions_below(p, n + 1) =~= positions_below(p, n).insert(n));
    } else {
        assert(positions_below(p, n + 1) =~= positions_below(p, n));
    }
    if n == 0 {
        assert(positions_below(p, 0) =~= Set::empty());
    } else {
        lemma_positions_step(p, n - 1);
    }
}

// ---- 32-bit words ----

pub proof fn lemma32_test(x: u32, k: u32)
    by (bit_vector)
    requires
        k < 32,
    ensures
        ((x & (1u32 << k)) != 0u32) == ((x >> k) & 1u32 == 1u32),
{
}

pub proof fn lemma32_set(x: u32, k: u32, j: u32)
    by (bit_vector)
    requires
        k < 32,
        j < 32,
    ensures
        (((x | (1u32 << k)) >> j) & 1u32 == 1u32) == (((x >> j) & 1u32 == 1u32) || j == k),
{
}

pub proof fn lemma32_clear(x: u32, k: u32, j: u32)
    by (bit_vector)
    requires
        k < 32,
        j < 32,
    ensures
        (((x & !(1u32 << k)) >> j) & 1u32 == 1u32) == (((x >> j) & 1u32 == 1u32) && j != k),
{
}

pub proof fn lemma32_single(k: u32, j: u32)
    by (bit_vector)
    requires
        k < 32,
        j < 32,
    ensures
        (((1u32 << k) >> j) & 1u32 == 1u32) == (j == k),
{
}

pub proof fn lemma32_and(x: u32, y: u32, j: u32)
    by (bit_vector)
    requires
        j < 32,
    ensures
        (((x & y) >> j) & 1u32 == 1u32) == (((x >> j) & 1u32 == 1u32) && ((y >> j) & 1u32
            == 1u32)),
        (((x | y) >> j) & 1u32 == 1u32) == (((x >> j) & 1u32 == 1u32) || ((y >> j) & 1u32
            == 1u32)),
        (((x & !y) >> j) & 1u32 == 1u32) == (((x >> j) & 1u32 == 1u32) && !((y >> j) & 1u32
            == 1u32)),
        (((x ^ y) >> j) & 1u32 == 1u32) == (((x >> j) & 1u32 == 1u32) != ((y >> j) & 1u32
            == 1u32)),
        ((0u32 >> j) & 1u32) == 0u32,
{
}

/// A word with no bit set is zero.
pub proof fn lemma32_zero(x: u32)
    requires
        forall|j: int| 0 <= j < 32 ==> !bit32(x, j),
    ensures
        x == 0,
{
    broadcast use vstd::std_specs::bits::axiom_u32_trailing_zeros;

    if x != 0 {
        let t = x.trailing_zeros();
        assert(bit32(x, t as int));
    }
}

/// Two words with the same bits are equal.
pub proof fn lemma32_ext(x: u32, y: u32)
    requires
        forall|j: int| 0 <= j < 32 ==> bit32(x, j) == bit32(y, j),
    ensures
        x == y,
{
    assert forall|j: int| 0 <= j < 32 implies !bit32(x ^ y, j) by {
        assert(bit32(x, j) == bit32(y, j));
        lemma32_and(x, y, j as u32);
    }
    lemma32_zero(x ^ y);
    assert((x ^ y) == 0u32 ==> x == y) by (bit_vector);
}

// ---- 64-bit words ----

pub proof fn lemma64_test(x: u64, k: u64)
    by (bit_vector)
    requires
        k < 64,
    ensures
        ((x & (1u64 << k)) != 0u64) == ((x >> k) & 1u64 == 1u64),
{
}

pub proof fn lemma64_set(x: u64, k: u64, j: u64)
    by (bit_vector)
    requires
        k < 64,
        j < 64,
    ensures
        (((x | (1u64 << k)) >> j) & 1u64 == 1u64) == (((x >> j) & 1u64 == 1u64) || j == k),
        (((x & !(1u64 << k)) >> j) & 1u64 == 1u64) == (((x >> j) & 1u64 == 1u64) && j != k),
        (((x ^ (1u64 << k)) >> j) & 1u64 == 1u64) == (((x >> j) & 1u64 == 1u64) != (j == k)),
        (((1u64 << k) >> j) & 1u64 == 1u64) == (j == k),
{
}

pub proof fn lemma64_and(x: u64, y: u64, j: u64)
    by (bit_vector)
    requires
        j < 64,
    ensures
        (((x & y) >> j) & 1u64 == 1u64) == (((x >> j) & 1u64 == 1u64) && ((y >> j) & 1u64
            == 1u64)),
        (((x | y) >> j) & 1u64 == 1u64) == (((x >> j) & 1u64 == 1u64) || ((y >> j) & 1u64
            == 1u64)),
        (((x & !y) >> j) & 1u64 == 1u64) == (((x >> j) & 1u64 == 1u64) && !((y >> j) & 1u64
            == 1u64)),
        (((x ^ y) >> j) & 1u64 == 1u64) == (((x >> j) & 1u64 == 1u64) != ((y >> j) & 1u64
            == 1u64)),
        ((!x >> j) & 1u64 == 1u64) == !((x >> j) & 1u64 == 1u64),
        ((0u64 >> j) & 1u64) == 0u64,
        ((0xffff_ffff_ffff_ffffu64 >> j) & 1u64) == 1u64,
{
}

/// A word with no bit set is zero.
pub proof fn lemma64_zero(x: u64)
    requires
        forall|j: int| 0 <= j < 64 ==> !bit64(x, j),
    ensures
        x == 0,
{
    broadcast use vstd::std_specs::bits::axiom_u64_trailing_zeros;

    if x != 0 {
        let t = x.trailing_zeros();
        assert(bit64(x, t as int));
    }
}

/// The lowest set bit of a non-zero word is its trailing-zero count.
pub proof fn lemma64_lowest(x: u64)
    requires
        x != 0,
    ensures
        (x.trailing_zeros() as int) < 64,
        bit64(x, x.trailing_zeros() as int),
        forall|j: int| 0 <= j < x.trailing_zeros() ==> !bit64(x, j),
{
    broadcast use vstd::std_specs::bits::axiom_u64_trailing_zeros;

    assert forall|j: int| 0 <= j < x.trailing_zeros() implies !bit64(x, j) by {
        assert((x >> (j as u64)) & 1u64 == 0u64);
    }
}

} // verus!
