//! Mathematical model of 2D cell grids.
//!
//! A grid is a sequence of rows; each cell is a small integer tag where
//! `0` means empty and any nonzero value identifies the occupying
//! shape's colour. This module defines the spec-level shape of such
//! grids (rectangularity, width) and clockwise rotation, together with
//! the laws that rotation obeys.

use vstd::prelude::*;

verus! {

/// The deep view of a vector of cells is its plain view: each cell is
/// its own model.
pub broadcast proof fn lemma_row_view(v: Vec<i8>)
    ensures
        #[trigger] v.deep_view() == v@,
{
    assert(v.deep_view() =~= v@);
}

/// The matrix is small enough that cell coordinates fit comfortably in
/// `i64` arithmetic when combined with an `i32` board offset.
pub open spec fn bounded_dims(m: Seq<Seq<i8>>) -> bool {
    &&& m.len() <= i32::MAX as int
    &&& forall|i: int| 0 <= i < m.len() ==> #[trigger] m[i].len() <= i32::MAX as int
}

/// The width of a grid: the length of its first row, or 0 if it has no
/// rows. Meaningful as "the" width only for rectangular grids.
pub open spec fn width(m: Seq<Seq<i8>>) -> int {
    if m.len() == 0 {
        0
    } else {
        m[0].len() as int
    }
}

/// A grid is rectangular when every row has the same length.
pub open spec fn rectangular(m: Seq<Seq<i8>>) -> bool {
    forall|i: int| 0 <= i < m.len() ==> #[trigger] m[i].len() == width(m)
}

/// Some cell of the grid is nonzero (occupied).
pub open spec fn has_nonzero_cell(m: Seq<Seq<i8>>) -> bool {
    exists|r: int, c: int| 0 <= r < m.len() && 0 <= c < m[r].len() && m[r][c] != 0
}

/// A shape matrix is well formed when it is rectangular and marks at
/// least one cell: one fixed orientation of a tetromino.
pub open spec fn valid_shape(m: Seq<Seq<i8>>) -> bool {
    &&& rectangular(m)
    &&& has_nonzero_cell(m)
}

/// Clockwise rotation of a rectangular grid of height H and width W:
/// the result has height W and width H, and the cell at row `r`,
/// column `c` moves to row `c`, column `H - 1 - r`. Output row `x` is
/// input column `x` read from the bottom row up.
pub open spec fn rotate(m: Seq<Seq<i8>>) -> Seq<Seq<i8>> {
    Seq::new(width(m) as nat, |x: int| Seq::new(m.len(), |y: int| m[m.len() - 1 - y][x]))
}

/// The grid with every row reversed and the row order reversed: a half
/// turn (180 degrees).
pub open spec fn half_turn(m: Seq<Seq<i8>>) -> Seq<Seq<i8>> {
    m.map_values(|row: Seq<i8>| row.reverse()).reverse()
}

/// Rotation swaps the dimensions: a rectangular H x W grid becomes a
/// rectangular W x H grid (for W = 0 the result has no rows at all).
pub proof fn lemma_rotate_dims(m: Seq<Seq<i8>>)
    requires
        rectangular(m),
    ensures
        rotate(m).len() == width(m),
        rectangular(rotate(m)),
        width(rotate(m)) == if width(m) == 0 { 0 } else { m.len() as int },
        forall|x: int, y: int|
            0 <= x < width(m) && 0 <= y < m.len() ==> #[trigger] rotate(m)[x][y] == m[m.len() - 1
                - y][x],
{
    assert forall|i: int| 0 <= i < rotate(m).len() implies #[trigger] rotate(m)[i].len() == width(
        rotate(m),
    ) by {
        assert(rotate(m)[i].len() == m.len());
    }
}

/// Two clockwise rotations are a half turn: every row reversed and the
/// row order reversed. Holds for every rectangular grid that is not a
/// degenerate nonempty grid of empty rows.
pub proof fn lemma_rotate_rotate(m: Seq<Seq<i8>>)
    requires
        rectangular(m),
        m.len() == 0 || width(m) > 0,
    ensures
        rotate(rotate(m)) == half_turn(m),
{
    lemma_rotate_dims(m);
    lemma_rotate_dims(rotate(m));
    let rr = rotate(rotate(m));
    let ht = half_turn(m);
    if m.len() == 0 {
        assert(rr =~~= ht);
    } else {
        assert(rr.len() == ht.len());
        assert forall|i: int| 0 <= i < rr.len() implies rr[i] =~= ht[i] by {
            let mv = m.map_values(|row: Seq<i8>| row.reverse());
            assert(ht[i] == mv[m.len() - 1 - i]);
            assert(mv[m.len() - 1 - i] == m[m.len() - 1 - i].reverse());
            assert forall|j: int| 0 <= j < rr[i].len() implies rr[i][j] == ht[i][j] by {
                assert(rr[i][j] == rotate(m)[width(m) - 1 - j][i]);
                assert(rotate(m)[width(m) - 1 - j][i] == m[m.len() - 1 - i][width(m) - 1 - j]);
                assert(ht[i][j] == m[m.len() - 1 - i].reverse()[j]);
            }
        }
        assert(rr =~= ht);
    }
}

/// Four clockwise rotations restore the grid exactly: rotation has
/// order four on rectangular grids. (A nonempty grid of empty rows is
/// the one family of rectangular grids on which this fails: its
/// rotation has no rows, and the rows cannot be recovered.)
pub proof fn lemma_rotate_four_times(m: Seq<Seq<i8>>)
    requires
        rectangular(m),
        m.len() == 0 || width(m) > 0,
    ensures
        rotate(rotate(rotate(rotate(m)))) == m,
{
    lemma_rotate_dims(m);
    lemma_rotate_dims(rotate(m));
    lemma_rotate_rotate(m);
    lemma_rotate_rotate(rotate(rotate(m)));
    let ht = half_turn(m);
    assert(rotate(rotate(ht)) == half_turn(ht)) by {
        lemma_half_turn_dims(m);
        lemma_rotate_rotate(ht);
    }
    lemma_half_turn_twice(m);
}

/// A half turn keeps the dimensions and rectangularity.
pub proof fn lemma_half_turn_dims(m: Seq<Seq<i8>>)
    requires
        rectangular(m),
    ensures
        half_turn(m).len() == m.len(),
        width(half_turn(m)) == width(m),
        rectangular(half_turn(m)),
        forall|i: int, j: int|
            0 <= i < m.len() && 0 <= j < width(m) ==> #[trigger] half_turn(m)[i][j] == m[m.len() - 1
                - i][width(m) - 1 - j],
{
    let mv = m.map_values(|row: Seq<i8>| row.reverse());
    assert forall|i: int| 0 <= i < m.len() implies #[trigger] half_turn(m)[i].len() == width(m) by {
        assert(half_turn(m)[i] == mv[m.len() - 1 - i]);
        assert(mv[m.len() - 1 - i] == m[m.len() - 1 - i].reverse());
    }
    if m.len() > 0 {
        assert(half_turn(m)[0].len() == width(m));
    }
    assert forall|i: int, j: int| 0 <= i < m.len() && 0 <= j < width(m) implies #[trigger] half_turn(
        m,
    )[i][j] == m[m.len() - 1 - i][width(m) - 1 - j] by {
        assert(half_turn(m)[i] == mv[m.len() - 1 - i]);
        assert(mv[m.len() - 1 - i] == m[m.len() - 1 - i].reverse());
    }
}

/// Two half turns restore the grid exactly.
pub proof fn lemma_half_turn_twice(m: Seq<Seq<i8>>)
    requires
        rectangular(m),
    ensures
        half_turn(half_turn(m)) == m,
{
    lemma_half_turn_dims(m);
    lemma_half_turn_dims(half_turn(m));
    let hh = half_turn(half_turn(m));
    assert forall|i: int| 0 <= i < m.len() implies hh[i] =~= m[i] by {
        assert forall|j: int| 0 <= j < width(m) implies hh[i][j] == m[i][j] by {
            assert(hh[i][j] == half_turn(m)[m.len() - 1 - i][width(m) - 1 - j]);
        }
    }
    assert(hh =~= m);
}

} // verus!
