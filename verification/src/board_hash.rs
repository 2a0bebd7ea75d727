//! A second occupancy bit set, the twin of [`crate::bitboard::BitBoard`],
//! kept under its own name for callers that track auxiliary square sets
//! (legal-move results, between-squares masks) apart from the board's own
//! occupancy.

use vstd::prelude::*;

use crate::bits::{
    bit_set, lemma_bit_shift_form, lemma_insert_bits, lemma_remove_bits, lemma_union_bits,
    lemma_zero_mask_bits,
};

verus! {

/// A set of board squares, one bit per square: bit `i` is set exactly when
/// square `i` is in the set. Square numbers are reduced modulo 64, so every
/// operation is total over `u8` and never panics.
#[derive(Clone, Copy, Debug, PartialEq, Eq, Structural)]
pub struct BoardHash {
    hash: u64,
}

/// The number of set bits among the lowest `n` bits of `mask`.
pub open spec fn count_bits(mask: u64, n: int) -> int
    decreases n,
{
    if n <= 0 {
        0
    } else {
        count_bits(mask, n - 1) + if bit_set(mask, (n - 1) as u8) {
            1int
        } else {
            0int
        }
    }
}

impl BoardHash {
    /// The raw 64-bit mask.
    pub closed spec fn mask(self) -> u64 {
        self.hash
    }

    /// Whether square `i % 64` is in the set.
    pub open spec fn has(self, i: u8) -> bool {
        bit_set(self.mask(), i)
    }

    /// The empty set.
    pub fn new() -> (r: BoardHash)
        ensures
            r.mask() == 0,
            forall|j: u8| !r.has(j),
    {
        proof {
            lemma_zero_mask_bits();
        }
        BoardHash { hash: 0 }
    }

    /// A set with exactly the bits of `value`.
    pub fn from_mask(value: u64) -> (r: BoardHash)
        ensures
            r.mask() == value,
    {
        BoardHash { hash: value }
    }

    pub fn contains(&self, v: u8) -> (r: bool)
        ensures
            r == self.has(v),
    {
        (self.hash & (1u64 << ((v % 64) as u64))) != 0
    }

    /// Adds square `v % 64`; a no-op if it is already in the set.
    pub fn insert(&mut self, v: u8)
        ensures
            final(self).mask() == old(self).mask() | (1u64 << ((v % 64) as u64)),
            forall|j: u8| final(self).has(j) == (old(self).has(j) || j % 64 == v % 64),
    {
        proof {
            lemma_insert_bits(self.hash, v);
        }
        self.hash = self.hash | (1u64 << ((v % 64) as u64));
    }

    /// Removes square `v % 64`; a no-op if it is already absent.
    pub fn remove(&mut self, v: u8)
        ensures
            final(self).mask() == old(self).mask() & !(1u64 << ((v % 64) as u64)),
            forall|j: u8| final(self).has(j) == (old(self).has(j) && j % 64 != v % 64),
    {
        proof {
            lemma_remove_bits(self.hash, v);
        }
        self.hash = self.hash & !(1u64 << ((v % 64) as u64));
    }

    /// A lazy, restartable walk over the set squares in ascending order.
    pub fn iter(&self) -> (r: BoardHashIter)
        ensures
            r.remaining_mask() == self.mask(),
    {
        BoardHashIter { remaining: self.hash }
    }

    pub fn is_empty(&self) -> (r: bool)
        ensures
            r == (self.mask() == 0),
            r ==> forall|j: u8| !self.has(j),
    {
        proof {
            lemma_zero_mask_bits();
        }
        self.hash == 0
    }

    /// The bitwise union of the two sets.
    pub fn union(self, other: BoardHash) -> (r: BoardHash)
        ensures
            r.mask() == self.mask() | other.mask(),
            forall|j: u8| r.has(j) == (self.has(j) || other.has(j)),
    {
        proof {
            lemma_union_bits(self.hash, other.hash);
        }
        BoardHash { hash: self.hash | other.hash }
    }

    /// Whether the two sets share a square.
    pub fn intersects(&self, other: BoardHash) -> (r: bool)
        ensures
            r == (self.mask() & other.mask() != 0),
    {
        (self.hash & other.hash) != 0
    }
}

/// Walks the squares of a [`BoardHash`] in ascending order, lowest set bit
/// first. The number of squares still to come is exactly the number of set
/// bits of the remaining mask.
pub struct BoardHashIter {
    remaining: u64,
}

impl BoardHashIter {
    /// The mask of squares not yet produced.
    pub closed spec fn remaining_mask(self) -> u64 {
        self.remaining
    }

    /// Whether square `i % 64` is still to come.
    pub open spec fn has(self, i: u8) -> bool {
        bit_set(self.remaining_mask(), i)
    }

    /// The lowest square not yet produced, or `None` once the walk is done.
    pub fn next(&mut self) -> (r: Option<u8>)
        ensures
            match r {
                None => old(self).remaining_mask() == 0 && final(self).remaining_mask() == 0,
                Some(k) => k < 64 && old(self).has(k) && (forall|j: u8|
                    j < k ==> !old(self).has(j)) && (forall|j: u8|
                    j < 64 ==> final(self).has(j) == (old(self).has(j) && j != k)),
            },
    {
        if self.remaining == 0 {
            return None;
        }
        let tz = self.remaining.trailing_zeros();
        proof {
            vstd::std_specs::bits::axiom_u64_trailing_zeros(self.remaining);
            assert(tz < 64);
            lemma_bit_shift_form(self.remaining, tz as u64);
            assert forall|j: u8| j < tz as u8 implies !old(self).has(j) by {
                assert((self.remaining >> (j as u64)) & 1u64 == 0u64);
                lemma_bit_shift_form(self.remaining, j as u64);
            }
            lemma_remove_bits(self.remaining, tz as u8);
        }
        let k = tz as u8;
        self.remaining = self.remaining & !(1u64 << (k as u64));
        Some(k)
    }

    /// The exact number of squares still to come.
    pub fn len(&self) -> (r: usize)
        ensures
            r == count_bits(self.remaining_mask(), 64),
    {
        let mut cnt: usize = 0;
        let mut k: u8 = 0;
        while k < 64
            invariant
                k <= 64,
                cnt == count_bits(self.remaining, k as int),
                cnt <= k as usize,
            decreases 64 - k,
        {
            proof {
                assert(((k % 64) as u64) == k as u64);
            }
            if (self.remaining & (1u64 << (k as u64))) != 0 {
                cnt = cnt + 1;
            }
            k = k + 1;
        }
        cnt
    }
}

} // verus!
