//! Bit-level facts about 64-bit square masks, shared by the occupancy set
//! types. Everything else in the crate reasons about masks through
//! [`bit_set`] and the lemmas here.

use vstd::prelude::*;

verus! {

/// Whether bit `i % 64` of `mask` is set. Indices are reduced modulo 64,
/// mirroring the defensive behavior of the occupancy set operations.
pub open spec fn bit_set(mask: u64, i: u8) -> bool {
    mask & (1u64 << ((i % 64) as u64)) != 0
}

/// No bit of the zero mask is set.
pub proof fn lemma_zero_mask_bits()
    ensures
        forall|j: u8| !bit_set(0u64, j),
{
    assert(forall|x: u64| 0u64 & x == 0) by (bit_vector);
}

/// Setting one bit: the new mask holds exactly the old squares plus `v`.
pub proof fn lemma_insert_bits(h: u64, v: u8)
    ensures
        forall|j: u8| #[trigger] bit_set(h | (1u64 << ((v % 64) as u64)), j) == (bit_set(h, j) || j
            % 64 == v % 64),
{
    assert forall|j: u8| #[trigger] bit_set(h | (1u64 << ((v % 64) as u64)), j) == (bit_set(h, j)
        || j % 64 == v % 64) by {
        let vm = (v % 64) as u64;
        let jm = (j % 64) as u64;
        assert((((h | (1u64 << vm)) & (1u64 << jm)) != 0) <==> (((h & (1u64 << jm)) != 0) || jm
            == vm)) by (bit_vector)
            requires
                vm < 64,
                jm < 64,
        ;
    }
}

/// Clearing one bit: the new mask holds exactly the old squares minus `v`.
pub proof fn lemma_remove_bits(h: u64, v: u8)
    ensures
        forall|j: u8| #[trigger] bit_set(h & !(1u64 << ((v % 64) as u64)), j) == (bit_set(h, j) && j
            % 64 != v % 64),
{
    assert forall|j: u8| #[trigger] bit_set(h & !(1u64 << ((v % 64) as u64)), j) == (bit_set(h, j)
        && j % 64 != v % 64) by {
        let vm = (v % 64) as u64;
        let jm = (j % 64) as u64;
        assert((((h & !(1u64 << vm)) & (1u64 << jm)) != 0) <==> (((h & (1u64 << jm)) != 0) && jm
            != vm)) by (bit_vector)
            requires
                vm < 64,
                jm < 64,
        ;
    }
}

/// A union of masks holds the squares of either operand.
pub proof fn lemma_union_bits(h1: u64, h2: u64)
    ensures
        forall|j: u8| #[trigger] bit_set(h1 | h2, j) == (bit_set(h1, j) || bit_set(h2, j)),
{
    assert forall|j: u8| #[trigger] bit_set(h1 | h2, j) == (bit_set(h1, j) || bit_set(h2, j)) by {
        let jm = (j % 64) as u64;
        assert((((h1 | h2) & (1u64 << jm)) != 0) <==> (((h1 & (1u64 << jm)) != 0) || ((h2 & (1u64
            << jm)) != 0))) by (bit_vector);
    }
}

/// The two common ways of reading bit `k` agree.
pub proof fn lemma_bit_shift_form(h: u64, k: u64)
    requires
        k < 64,
    ensures
        ((h >> k) & 1u64 == 1u64) == (h & (1u64 << k) != 0),
{
    assert(k < 64 ==> (((h >> k) & 1u64 == 1u64) <==> ((h & (1u64 << k)) != 0))) by (bit_vector);
}

} // verus!
