//! Actions taken within a game of Tetris.
//!
//! Pure transforms on shape matrices, taking and returning 2D
//! [`Vec`]s of cell values. A malformed matrix (no rows, or jagged
//! rows) is rejected with [`TetrisError::InvalidShape`]; it is never
//! silently corrected.

use vstd::prelude::*;
use crate::matrix::{rectangular, rotate, width};

verus! {

/// The error taxonomy of the engine.
///
/// Illegal moves, rotations and spawns are not errors (they are
/// ordinary, frequent game behaviour, reported as no-ops); only a
/// malformed shape matrix is.
#[derive(Debug, Clone, Copy, PartialEq, Eq, Structural)]
pub enum TetrisError {
    /// The shape matrix has no rows, or rows of unequal lengths.
    InvalidShape,
}

/// Whether every row of `m` has the length of the first row.
pub fn is_rectangular(m: &Vec<Vec<i8>>) -> (r: bool)
    ensures
        r == rectangular(m.deep_view()),
{
    let ghost md = m.deep_view();
    if m.len() == 0 {
        return true;
    }
    let w = m[0].len();
    for i in 0..m.len()
        invariant
            md == m.deep_view(),
            m@.len() > 0,
            w == width(md),
            forall|k: int| 0 <= k < i ==> #[trigger] md[k].len() == w,
    {
        if m[i].len() != w {
            assert(md[i as int].len() != w);
            return false;
        }
        assert(md[i as int].len() == w);
    }
    true
}

/// A fresh copy of one row of cells.
pub(crate) fn copy_cells(row: &Vec<i8>) -> (out: Vec<i8>)
    ensures
        out@ == row@,
{
    let mut out: Vec<i8> = Vec::new();
    for j in 0..row.len()
        invariant
            out@.len() == j,
            forall|k: int| 0 <= k < j ==> out@[k] == row@[k],
    {
        out.push(row[j]);
    }
    proof {
        assert(out@ =~= row@);
    }
    out
}

/// A fresh copy of a whole cell matrix.
pub(crate) fn copy_matrix(m: &Vec<Vec<i8>>) -> (out: Vec<Vec<i8>>)
    ensures
        out.deep_view() == m.deep_view(),
{
    let mut out: Vec<Vec<i8>> = Vec::new();
    for i in 0..m.len()
        invariant
            out.deep_view().len() == i,
            forall|k: int| 0 <= k < i ==> #[trigger] out.deep_view()[k] == m.deep_view()[k],
    {
        let row = copy_cells(&m[i]);
        let ghost prev = out;
        out.push(row);
        proof {
            assert forall|k: int| 0 <= k < i + 1 implies #[trigger] out.deep_view()[k]
                == m.deep_view()[k] by {
                assert(out.deep_view()[k] == out@[k].deep_view());
                assert(m.deep_view()[k] == m@[k].deep_view());
                if k < i {
                    assert(out@[k] == prev@[k]);
                    assert(prev.deep_view()[k] == prev@[k].deep_view());
                } else {
                    assert(out@[k] == row);
                    assert(row.deep_view() =~= m@[k].deep_view());
                }
            }
        }
    }
    proof {
        assert(out.deep_view() =~= m.deep_view());
    }
    out
}

/// Rotates a shape clockwise.
///
/// For a rectangular matrix of height H and width W, the result has
/// height W and width H: the cell at row `r`, column `c` moves to row
/// `c`, column `H - 1 - r`; output row `x` is input column `x` read
/// from the bottom row up. The input is not mutated; a fresh matrix is
/// allocated and returned. An input with zero rows, or with rows of
/// unequal lengths, is rejected with [`TetrisError::InvalidShape`].
///
/// ```
/// # use tetris::actions::rotate_clockwise;
/// let before = vec![
///     vec![1, 1, 1],
///     vec![0, 1, 0],
/// ];
///
/// let actual = rotate_clockwise(before).unwrap();
///
/// let expect = vec![
///     vec![0, 1],
///     vec![1, 1],
///     vec![0, 1]
/// ];
///
/// assert_eq!(expect, actual);
/// ```
pub fn rotate_clockwise(shape: Vec<Vec<i8>>) -> (result: Result<Vec<Vec<i8>>, TetrisError>)
    ensures
        match result {
            Ok(out) => {
                &&& shape.deep_view().len() > 0
                &&& rectangular(shape.deep_view())
                &&& out.deep_view() == rotate(shape.deep_view())
            },
            Err(e) => {
                &&& e == TetrisError::InvalidShape
                &&& (shape.deep_view().len() == 0 || !rectangular(shape.deep_view()))
            },
        },
{
    let ghost sd = shape.deep_view();
    if shape.len() == 0 || !is_rectangular(&shape) {
        return Err(TetrisError::InvalidShape);
    }
    let h = shape.len();
    let w = shape[0].len();
    let mut ret: Vec<Vec<i8>> = Vec::new();
    for x in 0..w
        invariant
            sd == shape.deep_view(),
            h == sd.len(),
            h > 0,
            rectangular(sd),
            w == width(sd),
            ret.deep_view().len() == x,
            forall|i: int| 0 <= i < x ==> #[trigger] ret.deep_view()[i] == rotate(sd)[i],
    {
        let mut row: Vec<i8> = Vec::new();
        for y in 0..h
            invariant
                sd == shape.deep_view(),
                h == sd.len(),
                h > 0,
                rectangular(sd),
                w == width(sd),
                x < w,
                row@.len() == y,
                forall|k: int| 0 <= k < y ==> #[trigger] row@[k] == sd[h - 1 - k][x as int],
        {
            assert(sd[h - 1 - y].len() == w);
            row.push(shape[h - 1 - y][x]);
        }
        let ghost old_ret = ret.deep_view();
        ret.push(row);
        proof {
            assert(ret.deep_view() =~= old_ret.push(row.deep_view()));
            assert(row.deep_view() =~= rotate(sd)[x as int]);
        }
    }
    proof {
        assert(ret.deep_view() =~= rotate(sd));
    }
    Ok(ret)
}

} // verus!
