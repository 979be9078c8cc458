//! A currently falling tetromino.
//!
//! A piece owns one shape matrix (its current rotation state) and an
//! integer (row, column) offset locating the matrix's top-left corner
//! in the board's coordinate space. Moves and rotations are pure: each
//! produces a candidate piece that the caller checks against the board
//! before accepting it.

use vstd::prelude::*;
use crate::actions::{copy_matrix, rotate_clockwise, is_rectangular, TetrisError};
use crate::matrix::{bounded_dims, has_nonzero_cell, lemma_rotate_dims, rotate, valid_shape};

verus! {

broadcast use crate::matrix::lemma_row_view;

/// Whether some cell of the matrix is nonzero.
pub fn has_occupied_cell(m: &Vec<Vec<i8>>) -> (r: bool)
    ensures
        r == has_nonzero_cell(m.deep_view()),
{
    let ghost s = m.deep_view();
    for i in 0..m.len()
        invariant
            s == m.deep_view(),
            forall|r2: int, c2: int|
                #![trigger s[r2][c2]]
                0 <= r2 < i && 0 <= c2 < s[r2].len() ==> s[r2][c2] == 0,
    {
        proof {
            assert(s[i as int] == m@[i as int].deep_view());
        }
        let rl = m[i].len();
        for j in 0..rl
            invariant
                s == m.deep_view(),
                i < s.len(),
                rl == s[i as int].len(),
                forall|r2: int, c2: int|
                    #![trigger s[r2][c2]]
                    0 <= r2 < i && 0 <= c2 < s[r2].len() ==> s[r2][c2] == 0,
                forall|c2: int| 0 <= c2 < j ==> s[i as int][c2] == 0,
        {
            if m[i][j] != 0 {
                proof {
                    assert(s[i as int][j as int] != 0);
                }
                return true;
            }
        }
    }
    proof {
        assert(!has_nonzero_cell(s));
    }
    false
}

/// A falling tetromino: a shape matrix plus a board-relative offset.
pub struct Piece {
    shape: Vec<Vec<i8>>,
    row: i32,
    col: i32,
}

impl Piece {
    /// The shape matrix in its current rotation state.
    pub closed spec fn spec_shape(self) -> Seq<Seq<i8>> {
        self.shape.deep_view()
    }

    /// The board row of the shape's top-left corner.
    pub closed spec fn spec_row(self) -> int {
        self.row as int
    }

    /// The board column of the shape's top-left corner.
    pub closed spec fn spec_col(self) -> int {
        self.col as int
    }

    /// Well-formedness: the shape is a valid shape matrix (rectangular
    /// with at least one nonzero cell) of bounded dimensions.
    pub open spec fn wf(self) -> bool {
        &&& valid_shape(self.spec_shape())
        &&& bounded_dims(self.spec_shape())
    }

    /// Builds a piece from a shape matrix and a spawn offset. A
    /// malformed matrix — no rows, jagged rows, or no nonzero cell, so
    /// that it marks no tetromino at all — is rejected with
    /// [`TetrisError::InvalidShape`].
    pub fn new(shape: Vec<Vec<i8>>, row: i32, col: i32) -> (result: Result<Piece, TetrisError>)
        requires
            bounded_dims(shape.deep_view()),
        ensures
            match result {
                Ok(p) => {
                    &&& valid_shape(shape.deep_view())
                    &&& p.wf()
                    &&& p.spec_shape() == shape.deep_view()
                    &&& p.spec_row() == row as int
                    &&& p.spec_col() == col as int
                },
                Err(e) => {
                    &&& e == TetrisError::InvalidShape
                    &&& !valid_shape(shape.deep_view())
                },
            },
    {
        if !is_rectangular(&shape) || !has_occupied_cell(&shape) {
            return Err(TetrisError::InvalidShape);
        }
        Ok(Piece { shape, row, col })
    }

    /// The current shape matrix, read-only.
    pub fn shape(&self) -> (shape: &Vec<Vec<i8>>)
        ensures
            shape.deep_view() == self.spec_shape(),
    {
        &self.shape
    }

    /// The board row of the shape's top-left corner.
    pub fn row(&self) -> (r: i32)
        ensures
            r as int == self.spec_row(),
    {
        self.row
    }

    /// The board column of the shape's top-left corner.
    pub fn col(&self) -> (c: i32)
        ensures
            c as int == self.spec_col(),
    {
        self.col
    }

    /// Pure translation: the same shape at the offset shifted by
    /// (dr, dc).
    pub fn moved(&self, dr: i32, dc: i32) -> (p: Piece)
        requires
            i32::MIN <= self.spec_row() + dr <= i32::MAX,
            i32::MIN <= self.spec_col() + dc <= i32::MAX,
        ensures
            p.spec_shape() == self.spec_shape(),
            p.spec_row() == self.spec_row() + dr,
            p.spec_col() == self.spec_col() + dc,
            p.wf() == self.wf(),
    {
        Piece { shape: copy_matrix(&self.shape), row: self.row + dr, col: self.col + dc }
    }

    /// Pure rotation: the shape rotated clockwise, the offset kept
    /// fixed. Callers must re-validate the result against the board,
    /// since the rotated bounding box can invalidate the position.
    pub fn rotated(&self) -> (p: Piece)
        requires
            self.wf(),
        ensures
            p.wf(),
            p.spec_shape() == rotate(self.spec_shape()),
            p.spec_row() == self.spec_row(),
            p.spec_col() == self.spec_col(),
    {
        let ghost s = self.spec_shape();
        match rotate_clockwise(copy_matrix(&self.shape)) {
            Ok(m) => {
                proof {
                    lemma_rotate_dims(s);
                    let (r0, c0) = choose|r0: int, c0: int|
                        0 <= r0 < s.len() && 0 <= c0 < s[r0].len() && s[r0][c0] != 0;
                    assert(rotate(s)[c0][s.len() - 1 - r0] == s[r0][c0]);
                    assert(has_nonzero_cell(rotate(s)));
                    assert forall|i: int| 0 <= i < rotate(s).len() implies (#[trigger] rotate(
                        s,
                    )[i]).len() <= i32::MAX as int by {
                        assert(rotate(s)[i].len() == s.len());
                    }
                }
                Piece { shape: m, row: self.row, col: self.col }
            },
            Err(_) => {
                proof {
                    assert(s.len() > 0);
                    assert(false);
                }
                Piece { shape: copy_matrix(&self.shape), row: self.row, col: self.col }
            },
        }
    }
}

} // verus!
