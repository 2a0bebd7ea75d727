//! The board's sparse form: the occupied squares in ascending order, each
//! with its cell. Empty squares are omitted entirely. Rehydrating the
//! sparse form square by square rebuilds the very same board.

use vstd::prelude::*;

use crate::bits::{bit_set, lemma_insert_bits, lemma_zero_mask_bits};
use crate::board::Board;
use crate::piece::{CellValue, ChessCell};

verus! {

/// The sparse form of the first `n` squares: each occupied index below
/// `n`, in ascending order, with its cell value.
pub open spec fn sparse_upto(b: Board, n: int) -> Seq<(u8, CellValue)>
    decreases n,
{
    if n <= 0 {
        Seq::empty()
    } else if b.cell(n - 1) != CellValue::Empty {
        sparse_upto(b, n - 1).push(((n - 1) as u8, b.cell(n - 1)))
    } else {
        sparse_upto(b, n - 1)
    }
}

/// The sparse form of a board.
pub open spec fn spec_sparse(b: Board) -> Seq<(u8, CellValue)> {
    sparse_upto(b, 64)
}

/// The cells rebuilt from a sparse form: every listed square gets its
/// cell, everything else stays empty.
pub open spec fn hydrate_cells(s: Seq<(u8, CellValue)>) -> Seq<CellValue>
    decreases s.len(),
{
    if s.len() == 0 {
        Seq::new(64, |i: int| CellValue::Empty)
    } else {
        hydrate_cells(s.drop_last()).update(s.last().0 as int, s.last().1)
    }
}

/// The occupancy mask rebuilt from a sparse form.
pub open spec fn hydrate_mask(s: Seq<(u8, CellValue)>) -> u64
    decreases s.len(),
{
    if s.len() == 0 {
        0u64
    } else {
        hydrate_mask(s.drop_last()) | (1u64 << ((s.last().0 % 64) as u64))
    }
}

impl Board {
    /// The sparse form of the board: its occupied squares in ascending
    /// order, each with its cell.
    pub fn to_sparse(&self) -> (v: Vec<(u8, ChessCell)>)
        ensures
            v@.map_values(|p: (u8, ChessCell)| (p.0, p.1@)) == spec_sparse(*self),
    {
        let mut v: Vec<(u8, ChessCell)> = Vec::new();
        let mut idx: u8 = 0;
        while idx < 64
            invariant
                idx <= 64,
                v@.map_values(|p: (u8, ChessCell)| (p.0, p.1@)) == sparse_upto(*self, idx as int),
            decreases 64 - idx,
        {
            let c = self.get_cell(idx);
            if !c.is_empty() {
                v.push((idx, c));
            }
            proof {
                assert(v@.map_values(|p: (u8, ChessCell)| (p.0, p.1@)) =~= sparse_upto(
                    *self,
                    idx as int + 1,
                ));
            }
            idx = idx + 1;
        }
        v
    }

    /// Rebuilds a board from a sparse form by adding each listed piece to
    /// an empty board.
    pub fn from_sparse(entries: &Vec<(u8, ChessCell)>) -> (r: Board)
        requires
            forall|k: int|
                0 <= k < entries@.len() ==> (#[trigger] entries@[k]).0 < 64 && entries@[k].1@
                    != CellValue::Empty,
        ensures
            r.wf(),
            r.cells() == hydrate_cells(
                entries@.map_values(|p: (u8, ChessCell)| (p.0, p.1@)),
            ),
            r.occ_mask() == hydrate_mask(entries@.map_values(|p: (u8, ChessCell)| (p.0, p.1@))),
    {
        let ghost m = entries@.map_values(|p: (u8, ChessCell)| (p.0, p.1@));
        let mut r = Board::empty();
        proof {
            assert forall|i: int| 0 <= i < 64 implies r.cells()[i] == CellValue::Empty by {
                assert(r.cell(i) == CellValue::Empty);
            }
            assert(m.take(0).len() == 0);
            assert(r.cells() =~= hydrate_cells(m.take(0)));
        }
        let mut k: usize = 0;
        while k < entries.len()
            invariant
                k <= entries@.len(),
                m == entries@.map_values(|p: (u8, ChessCell)| (p.0, p.1@)),
                forall|t: int|
                    0 <= t < entries@.len() ==> (#[trigger] entries@[t]).0 < 64 && entries@[t].1@
                        != CellValue::Empty,
                r.wf(),
                r.cells() == hydrate_cells(m.take(k as int)),
                r.occ_mask() == hydrate_mask(m.take(k as int)),
            decreases entries@.len() - k,
        {
            let (pos, cell) = entries[k];
            r.add_piece(cell, pos);
            proof {
                assert(m.take(k as int + 1).drop_last() =~= m.take(k as int));
                assert(m.take(k as int + 1).last() == m[k as int]);
                assert((pos % 64) as u64 == pos as u64);
            }
            k = k + 1;
        }
        proof {
            assert(m.take(entries@.len() as int) =~= m);
        }
        r
    }
}

/// Round trip: rebuilding any well-formed board from its sparse form
/// reproduces its cells and its occupancy mask exactly.
pub proof fn lemma_round_trip(b: Board)
    requires
        b.wf(),
    ensures
        hydrate_cells(spec_sparse(b)) == b.cells(),
        hydrate_mask(spec_sparse(b)) == b.occ_mask(),
{
    lemma_round_trip_upto(b, 64);
    assert(hydrate_cells(spec_sparse(b)) =~= b.cells());
    let h = hydrate_mask(spec_sparse(b));
    let m = b.occ_mask();
    assert forall|j: u64| j < 64 implies ((h & (1u64 << j) != 0) == (m & (1u64 << j) != 0)) by {
        let ju = j as u8;
        assert(bit_set(h, ju) == (ju < 64 && b.occupied(ju as int)));
        assert(b.occupied(ju as int) == bit_set(m, ju));
        assert(((ju % 64) as u64) == j);
    }
    lemma_mask_ext(h, m);
}

/// Round trip over the first `n` squares: the rebuilt cells agree with the
/// board below `n` and are empty above, and the rebuilt mask holds exactly
/// the board's occupied squares below `n`.
proof fn lemma_round_trip_upto(b: Board, n: int)
    requires
        b.wf(),
        0 <= n <= 64,
    ensures
        hydrate_cells(sparse_upto(b, n)) =~= Seq::new(
            64,
            |i: int|
                if 0 <= i < n {
                    b.cell(i)
                } else {
                    CellValue::Empty
                },
        ),
        forall|j: u8|
            j < 64 ==> #[trigger] bit_set(hydrate_mask(sparse_upto(b, n)), j) == (j < n
                && b.occupied(j as int)),
    decreases n,
{
    if n == 0 {
        lemma_zero_mask_bits();
    } else {
        lemma_round_trip_upto(b, n - 1);
        let prev = sparse_upto(b, n - 1);
        if b.cell(n - 1) != CellValue::Empty {
            let s = sparse_upto(b, n);
            assert(s.drop_last() =~= prev);
            assert(hydrate_cells(s) == hydrate_cells(prev).update(n - 1, b.cell(n - 1)));
            assert(hydrate_mask(s) == hydrate_mask(prev) | (1u64 << ((((n - 1) as u8) % 64) as u64)));
            lemma_insert_bits(hydrate_mask(prev), (n - 1) as u8);
            assert forall|j: u8|
                j < 64 implies #[trigger] bit_set(hydrate_mask(s), j) == (j < n && b.occupied(
                j as int,
            )) by {
                assert(bit_set(hydrate_mask(s), j) == (bit_set(hydrate_mask(prev), j) || j % 64 == (
                (n - 1) as u8) % 64));
            }
        } else {
            assert(!b.occupied(n - 1));
            assert(sparse_upto(b, n) == prev);
            assert forall|j: u8|
                j < 64 implies #[trigger] bit_set(hydrate_mask(sparse_upto(b, n)), j) == (j < n
                && b.occupied(j as int)) by {
                assert(bit_set(hydrate_mask(prev), j) == (j < n - 1 && b.occupied(j as int)));
            }
        }
    }
}

/// Two masks with the same bits are equal.
proof fn lemma_mask_ext(h1: u64, h2: u64)
    requires
        forall|j: u64| j < 64 ==> ((h1 & (1u64 << j) != 0) == (h2 & (1u64 << j) != 0)),
    ensures
        h1 == h2,
{
    let x = h1 ^ h2;
    if x != 0 {
        vstd::std_specs::bits::axiom_u64_trailing_zeros(x);
        let k = vstd::std_specs::bits::u64_trailing_zeros(x) as u64;
        assert(k < 64);
        assert((x >> k) & 1u64 == 1u64);
        assert(((h1 ^ h2) >> k) & 1u64 == 1u64 ==> ((h1 & (1u64 << k) != 0) != (h2 & (1u64 << k)
            != 0))) by (bit_vector)
            requires
                k < 64,
        ;
        assert(false);
    }
    assert(h1 ^ h2 == 0 ==> h1 == h2) by (bit_vector);
}

} // verus!
