//! Crate-wide laws of the move generators, stated over the same spec
//! functions that the generators' contracts use.

use vstd::math::abs;
use vstd::prelude::*;

use crate::board::Board;
use crate::geometry::{col, in_board, lemma_ray_trans, lemma_step, on_ray, row, step_offset, Dir};
use crate::moves::{high_rook_sq, low_rook_sq, pawn_diag_a, pawn_diag_b, pawn_fwd};
use crate::piece::{CellValue, Color, PieceType};

verus! {

/// Edge containment: every destination the dispatcher allows is a board
/// square. (The pawn's two-square advance relies on the generator's
/// precondition that an unmoved pawn's double step stays on the board.)
pub proof fn lemma_move_on_board(b: Board, i: int, j: int)
    requires
        b.wf(),
        in_board(i),
        b.pawn_double_in_range(i),
        b.legal_move_ok(i, j),
    ensures
        0 <= j < 64,
{
    match b.cell(i) {
        CellValue::Empty => {},
        CellValue::Piece { kind, color, moved } => {
            if kind == PieceType::Pawn {
                if !moved && j == i + 2 * step_offset(pawn_fwd(color)) {
                } else if j == i + step_offset(pawn_fwd(color)) && !b.occupied(j) {
                    lemma_step(i, pawn_fwd(color));
                } else if b.pawn_capture_ok(i, j, pawn_diag_a(color), color) {
                    lemma_step(i, pawn_diag_a(color));
                } else {
                    lemma_step(i, pawn_diag_b(color));
                }
            }
        },
    }
}

/// Edge containment for the sliding pieces: a rook move stays on the
/// origin's row or column, a bishop move on one of its diagonals, so no
/// generated ray move ever crosses a board edge. A queen move satisfies
/// one of the two.
pub proof fn lemma_slider_stays_on_line(b: Board, i: int, j: int, own: Color)
    ensures
        b.rook_rays_ok(i, j, own) ==> in_board(j) && j != i && (row(j) == row(i) || col(j) == col(
            i,
        )),
        b.bishop_rays_ok(i, j, own) ==> in_board(j) && j != i && abs(row(j) - row(i)) == abs(
            col(j) - col(i),
        ),
{
}

/// Pawn double-step gating, first half: an unmoved pawn's moves include
/// the two-square advance, whatever stands on the squares ahead.
pub proof fn lemma_pawn_double_step_unmoved(b: Board, i: int)
    requires
        b.cell(i) matches CellValue::Piece { kind: PieceType::Pawn, moved: false, .. },
    ensures
        b.pawn_move_ok(i, i + 2 * step_offset(pawn_fwd(b.color_of(i)))),
{
}

/// Pawn double-step gating, second half: once a pawn has moved, the
/// two-square advance is never among its moves.
pub proof fn lemma_pawn_double_step_moved(b: Board, i: int)
    requires
        b.cell(i) matches CellValue::Piece { kind: PieceType::Pawn, moved: true, .. },
    ensures
        !b.pawn_move_ok(i, i + 2 * step_offset(pawn_fwd(b.color_of(i)))),
{
}

/// Capture versus block. Let `k` be the first occupied square on the ray
/// from `i` in direction `d`. Then every square strictly before `k` is a
/// sliding move, `k` itself is one exactly when it holds the opposite
/// color, and nothing at or beyond `k` is one otherwise.
pub proof fn lemma_capture_vs_block(b: Board, i: int, k: int, j: int, d: Dir, own: Color)
    requires
        b.wf(),
        on_ray(i, k, d),
        b.occupied(k),
        forall|t: int| #[trigger] on_ray(i, t, d) && on_ray(t, k, d) ==> !b.occupied(t),
    ensures
        on_ray(i, j, d) && on_ray(j, k, d) ==> b.slide_ok(i, j, d, own),
        b.slide_ok(i, k, d, own) <==> (crate::piece::cell_color(b.cell(k)) != Some(own)),
        on_ray(i, j, d) && on_ray(k, j, d) ==> !b.slide_ok(i, j, d, own),
{
    if on_ray(i, j, d) && on_ray(j, k, d) {
        assert forall|t: int| #[trigger] on_ray(i, t, d) && on_ray(t, j, d) implies !b.occupied(
            t,
        ) by {
            lemma_ray_trans(t, j, k, d);
        }
        assert(b.slide_ok(i, j, d, own));
    }
    if on_ray(i, j, d) && on_ray(k, j, d) {
        assert(on_ray(i, k, d) && on_ray(k, j, d));
        assert(!b.slide_ok(i, j, d, own));
    }
}

/// Castling gating: in any well-formed board where a color's king and
/// low- or high-side rook stand unmoved on their home squares, the rook's
/// home square is a king destination exactly when the squares between the
/// two home squares are all unoccupied.
pub proof fn lemma_castle_gating(b: Board, i: int, rsq: int, path: u64)
    requires
        b.wf(),
        b.cell(i) matches CellValue::Piece { kind: PieceType::King, moved: false, .. },
        rsq == low_rook_sq(b.color_of(i)) && path == crate::moves::low_castle_path(b.color_of(i))
            || rsq == high_rook_sq(b.color_of(i)) && path == crate::moves::high_castle_path(
            b.color_of(i),
        ),
        b.cell(rsq) == (CellValue::Piece {
            kind: PieceType::Rook,
            color: b.color_of(i),
            moved: false,
        }),
    ensures
        b.legal_move_ok(i, rsq) <==> (path & b.occ_mask() == 0 || b.king_step_ok(
            i,
            rsq,
            b.color_of(i),
        )),
{
}

} // verus!
