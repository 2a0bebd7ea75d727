//! Square-index geometry. A square is an index 0..64, row-major: row 0 is
//! one back rank, row 7 the opposite one, and the column is the index modulo
//! 8. This module defines rows, columns, the eight ray directions, the
//! arithmetic step primitives with their wraparound rules, and the lemmas
//! linking the two views. North is the direction of decreasing indices.

use vstd::math::abs;
use vstd::prelude::*;

verus! {

/// Column (file) of a square index.
pub open spec fn col(i: int) -> int {
    i % 8
}

/// Row (rank) of a square index.
pub open spec fn row(i: int) -> int {
    i / 8
}

/// Whether `i` is a square of the board.
pub open spec fn in_board(i: int) -> bool {
    0 <= i < 64
}

/// The eight ray directions. South is the direction of increasing indices,
/// east the direction of increasing columns.
#[derive(Clone, Copy, Debug, PartialEq, Eq, Structural)]
pub enum Dir {
    North,
    South,
    East,
    West,
    NorthEast,
    NorthWest,
    SouthEast,
    SouthWest,
}

/// Row change of one step in direction `d`.
pub open spec fn dir_row_delta(d: Dir) -> int {
    match d {
        Dir::North => -1,
        Dir::South => 1,
        Dir::East => 0,
        Dir::West => 0,
        Dir::NorthEast => -1,
        Dir::NorthWest => -1,
        Dir::SouthEast => 1,
        Dir::SouthWest => 1,
    }
}

/// Column change of one step in direction `d`.
pub open spec fn dir_col_delta(d: Dir) -> int {
    match d {
        Dir::North => 0,
        Dir::South => 0,
        Dir::East => 1,
        Dir::West => -1,
        Dir::NorthEast => 1,
        Dir::NorthWest => -1,
        Dir::SouthEast => 1,
        Dir::SouthWest => -1,
    }
}

/// Index change of one step in direction `d`.
pub open spec fn step_offset(d: Dir) -> int {
    8 * dir_row_delta(d) + dir_col_delta(d)
}

/// Whether `j` lies on the ray that leaves `i` in direction `d`, at any
/// positive distance. Ray squares never wrap around a board edge: the row
/// and column relations are stated over the true row and column values.
pub open spec fn on_ray(i: int, j: int, d: Dir) -> bool {
    in_board(i) && in_board(j) && match d {
        Dir::North => col(j) == col(i) && row(j) < row(i),
        Dir::South => col(j) == col(i) && row(j) > row(i),
        Dir::East => row(j) == row(i) && col(j) > col(i),
        Dir::West => row(j) == row(i) && col(j) < col(i),
        Dir::NorthEast => row(i) - row(j) == col(j) - col(i) && row(j) < row(i),
        Dir::NorthWest => row(i) - row(j) == col(i) - col(j) && row(j) < row(i),
        Dir::SouthEast => row(j) - row(i) == col(j) - col(i) && row(j) > row(i),
        Dir::SouthWest => row(j) - row(i) == col(i) - col(j) && row(j) > row(i),
    }
}

/// Whether one step from `i` in direction `d` stays on the board.
pub open spec fn can_step(i: int, d: Dir) -> bool {
    in_board(i) && 0 <= row(i) + dir_row_delta(d) < 8 && 0 <= col(i) + dir_col_delta(d) < 8
}

/// Whether `i` and `j` are distinct squares a king's step apart.
pub open spec fn adjacent(i: int, j: int) -> bool {
    in_board(i) && in_board(j) && j != i && abs(row(j) - row(i)) <= 1 && abs(col(j) - col(i)) <= 1
}

/// Whether `j` is a true knight's move away from `i`.
pub open spec fn knight_ok(i: int, j: int) -> bool {
    in_board(i) && in_board(j) && ((abs(row(j) - row(i)) == 2 && abs(col(j) - col(i)) == 1) || (abs(
        row(j) - row(i),
    ) == 1 && abs(col(j) - col(i)) == 2))
}

/// Result of a forward (index-increasing) step of magnitude `b` from
/// `start`, with the wraparound rules: the raw sum is rejected when it
/// leaves the board, and the resulting column is compared with the origin's
/// column to detect a wrap across the left or right edge.
pub open spec fn spec_step_add(start: u8, b: u8, diag: bool) -> Option<u8> {
    let res = start as int + b as int;
    if res > 63 {
        None
    } else if diag {
        if b > 8 {
            if col(res) < col(start as int) {
                None
            } else {
                Some(res as u8)
            }
        } else {
            if col(res) > col(start as int) {
                None
            } else {
                Some(res as u8)
            }
        }
    } else {
        if col(res) < col(start as int) {
            None
        } else {
            Some(res as u8)
        }
    }
}

/// Result of a backward (index-decreasing) step of magnitude `b` from
/// `start`, with the wraparound rules mirrored from [`spec_step_add`].
pub open spec fn spec_step_sub(start: u8, b: u8, diag: bool) -> Option<u8> {
    if start < b {
        None
    } else {
        let res = start as int - b as int;
        if diag {
            if b > 8 {
                if col(res) > col(start as int) {
                    None
                } else {
                    Some(res as u8)
                }
            } else {
                if col(res) < col(start as int) {
                    None
                } else {
                    Some(res as u8)
                }
            }
        } else {
            if col(res) > col(start as int) {
                None
            } else {
                Some(res as u8)
            }
        }
    }
}

/// The single step from `i` in direction `d` as the step primitives see it:
/// the adjacent ray square, or `None` at the board's edge.
pub open spec fn step_opt(i: u8, d: Dir) -> Option<u8> {
    if can_step(i as int, d) {
        Some((i as int + step_offset(d)) as u8)
    } else {
        None
    }
}

/// Remaining length of the ray from `i` in direction `d`; each step
/// shortens it by one.
pub open spec fn ray_fuel(i: int, d: Dir) -> int {
    match d {
        Dir::North | Dir::NorthEast | Dir::NorthWest => row(i),
        Dir::South | Dir::SouthEast | Dir::SouthWest => 7 - row(i),
        Dir::East => 7 - col(i),
        Dir::West => col(i),
    }
}

/// A board square is rebuilt from its row and column.
pub proof fn lemma_square_id(i: int)
    requires
        in_board(i),
    ensures
        i == 8 * row(i) + col(i),
        0 <= row(i) < 8,
        0 <= col(i) < 8,
{
}

/// Row and column of a square given by row and column.
pub proof fn lemma_index_of(r: int, c: int)
    requires
        0 <= r < 8,
        0 <= c < 8,
    ensures
        in_board(8 * r + c),
        row(8 * r + c) == r,
        col(8 * r + c) == c,
{
}

/// One in-board step lands on the adjacent ray square: it is on the ray,
/// and no square lies strictly between.
pub proof fn lemma_step(i: int, d: Dir)
    requires
        can_step(i, d),
    ensures
        in_board(i + step_offset(d)),
        row(i + step_offset(d)) == row(i) + dir_row_delta(d),
        col(i + step_offset(d)) == col(i) + dir_col_delta(d),
        on_ray(i, i + step_offset(d), d),
        forall|t: int| !(on_ray(i, t, d) && on_ray(t, i + step_offset(d), d)),
{
    lemma_square_id(i);
    lemma_index_of(row(i) + dir_row_delta(d), col(i) + dir_col_delta(d));
    assert(8 * (row(i) + dir_row_delta(d)) + (col(i) + dir_col_delta(d)) == i + step_offset(d));
}

/// When no step stays on the board, the whole ray is empty.
pub proof fn lemma_no_step(i: int, d: Dir)
    requires
        in_board(i),
        !can_step(i, d),
    ensures
        forall|j: int| !on_ray(i, j, d),
{
    lemma_square_id(i);
    assert forall|j: int| !on_ray(i, j, d) by {
        if in_board(j) {
            lemma_square_id(j);
        }
    }
}

/// Rays are transitive: a ray square's ray squares lie on the origin's ray.
pub proof fn lemma_ray_trans(i: int, t: int, j: int, d: Dir)
    requires
        on_ray(i, t, d),
        on_ray(t, j, d),
    ensures
        on_ray(i, j, d),
{
}

/// Every ray square other than the first step lies on the ray from the
/// first step.
pub proof fn lemma_ray_after_step(i: int, d: Dir)
    requires
        can_step(i, d),
    ensures
        forall|j: int|
            on_ray(i, j, d) && j != i + step_offset(d) ==> on_ray(i + step_offset(d), j, d),
{
    lemma_step(i, d);
    let s = i + step_offset(d);
    assert forall|j: int| on_ray(i, j, d) && j != s implies on_ray(s, j, d) by {
        lemma_square_id(j);
        lemma_square_id(s);
        lemma_square_id(i);
    }
}

/// Every pair of adjacent squares is one in-board step apart, in one of
/// the eight directions.
pub proof fn lemma_adjacent_step(i: int, j: int)
    requires
        adjacent(i, j),
    ensures
        exists|d: Dir| can_step(i, d) && j == i + #[trigger] step_offset(d),
{
    lemma_square_id(i);
    lemma_square_id(j);
    let dr = row(j) - row(i);
    let dc = col(j) - col(i);
    if dr == -1 && dc == 0 {
        assert(can_step(i, Dir::North) && j == i + step_offset(Dir::North));
    } else if dr == 1 && dc == 0 {
        assert(can_step(i, Dir::South) && j == i + step_offset(Dir::South));
    } else if dr == 0 && dc == 1 {
        assert(can_step(i, Dir::East) && j == i + step_offset(Dir::East));
    } else if dr == 0 && dc == -1 {
        assert(can_step(i, Dir::West) && j == i + step_offset(Dir::West));
    } else if dr == -1 && dc == 1 {
        assert(can_step(i, Dir::NorthEast) && j == i + step_offset(Dir::NorthEast));
    } else if dr == -1 && dc == -1 {
        assert(can_step(i, Dir::NorthWest) && j == i + step_offset(Dir::NorthWest));
    } else if dr == 1 && dc == 1 {
        assert(can_step(i, Dir::SouthEast) && j == i + step_offset(Dir::SouthEast));
    } else {
        assert(dr == 1 && dc == -1);
        assert(can_step(i, Dir::SouthWest) && j == i + step_offset(Dir::SouthWest));
    }
}

/// Two squares on the same ray are ordered: one lies on the other's ray.
pub proof fn lemma_ray_total(i: int, a: int, b: int, d: Dir)
    requires
        on_ray(i, a, d),
        on_ray(i, b, d),
        a != b,
    ensures
        on_ray(a, b, d) || on_ray(b, a, d),
{
    lemma_square_id(a);
    lemma_square_id(b);
}

/// The arithmetic step primitives compute exactly the geometric step: for
/// each direction, the magnitude-and-flag combination used by the move
/// generators returns the adjacent ray square, or `None` at the edge.
pub proof fn lemma_step_matches(i: u8, d: Dir)
    requires
        i < 64,
    ensures
        (match d {
            Dir::North => spec_step_sub(i, 8, false),
            Dir::South => spec_step_add(i, 8, false),
            Dir::East => spec_step_add(i, 1, false),
            Dir::West => spec_step_sub(i, 1, false),
            Dir::NorthEast => spec_step_sub(i, 7, true),
            Dir::NorthWest => spec_step_sub(i, 9, true),
            Dir::SouthEast => spec_step_add(i, 9, true),
            Dir::SouthWest => spec_step_add(i, 7, true),
        }) == step_opt(i, d),
{
    let ii = i as int;
    let r = row(ii);
    let c = col(ii);
    lemma_square_id(ii);
    if can_step(ii, d) {
        lemma_step(ii, d);
    } else {
        match d {
            Dir::North => {},
            Dir::South => {},
            Dir::East => {
                if ii < 63 {
                    lemma_index_of(r + 1, 0);
                }
            },
            Dir::West => {
                if ii > 0 {
                    lemma_index_of(r - 1, 7);
                }
            },
            Dir::NorthEast => {
                if c == 7 && r >= 1 {
                    lemma_index_of(r - 1, 7);
                    assert(ii - 7 == 8 * r);
                    lemma_index_of(r, 0);
                }
            },
            Dir::NorthWest => {
                if c == 0 && r >= 2 {
                    assert(ii - 9 == 8 * (r - 2) + 7);
                    lemma_index_of(r - 2, 7);
                }
            },
            Dir::SouthEast => {
                if c == 7 && r <= 5 {
                    assert(ii + 9 == 8 * (r + 2));
                    lemma_index_of(r + 2, 0);
                }
            },
            Dir::SouthWest => {
                if c == 0 && r <= 6 {
                    assert(ii + 7 == 8 * r + 7);
                    lemma_index_of(r, 7);
                }
                if r == 7 && c == 0 {
                    lemma_index_of(7, 7);
                }
            },
        }
    }
}

} // verus!
