//! The persistent grid of locked cells.
//!
//! A board is a fixed-width, fixed-height grid of cell values,
//! initialized to all-empty. It changes only by merging a locked
//! piece's nonzero cells into the grid and by removing fully occupied
//! rows. Collision testing against this grid is the single source of
//! truth for the legality of any piece position.

use vstd::prelude::*;
use crate::matrix::bounded_dims;

verus! {

broadcast use crate::matrix::lemma_row_view;

/// A row is full when it has no empty cell.
pub open spec fn row_full(row: Seq<i8>) -> bool {
    forall|j: int| 0 <= j < row.len() ==> row[j] != 0
}

/// A row of `w` empty cells.
pub open spec fn zero_row(w: int) -> Seq<i8> {
    Seq::new(w as nat, |j: int| 0i8)
}

/// An all-empty grid of height `h` and width `w`.
pub open spec fn empty_grid(w: int, h: int) -> Seq<Seq<i8>> {
    Seq::new(h as nat, |i: int| zero_row(w))
}

/// The rows of `g` that are not full, in their original order.
pub open spec fn kept_rows(g: Seq<Seq<i8>>) -> Seq<Seq<i8>>
    decreases g.len(),
{
    if g.len() == 0 {
        Seq::empty()
    } else {
        let rest = kept_rows(g.drop_last());
        if row_full(g.last()) {
            rest
        } else {
            rest.push(g.last())
        }
    }
}

/// Clearing never keeps more rows than there were.
pub proof fn lemma_kept_rows_len(g: Seq<Seq<i8>>)
    ensures
        kept_rows(g).len() <= g.len(),
    decreases g.len(),
{
    if g.len() > 0 {
        lemma_kept_rows_len(g.drop_last());
    }
}

/// Clearing keeps only rows of the grid, so their widths survive.
pub proof fn lemma_kept_rows_width(g: Seq<Seq<i8>>, w: int)
    requires
        forall|i: int| 0 <= i < g.len() ==> (#[trigger] g[i]).len() == w,
    ensures
        forall|k: int| 0 <= k < kept_rows(g).len() ==> (#[trigger] kept_rows(g)[k]).len() == w,
    decreases g.len(),
{
    if g.len() > 0 {
        assert forall|i: int| 0 <= i < g.drop_last().len() implies (#[trigger] g.drop_last()[i]).len()
            == w by {
            assert(g.drop_last()[i] == g[i]);
        }
        lemma_kept_rows_width(g.drop_last(), w);
        let rest = kept_rows(g.drop_last());
        assert forall|k: int| 0 <= k < kept_rows(g).len() implies (#[trigger] kept_rows(g)[k]).len()
            == w by {
            if k < rest.len() {
                assert(kept_rows(g)[k] == rest[k]);
            } else {
                assert(kept_rows(g)[k] == g.last());
            }
        }
    }
}

/// The grid after a row clear: the full rows of `g` are removed, the
/// rows above each shift down, and as many empty rows enter at the top.
pub open spec fn after_clear(g: Seq<Seq<i8>>, w: int) -> Seq<Seq<i8>> {
    Seq::new((g.len() - kept_rows(g).len()) as nat, |i: int| zero_row(w)) + kept_rows(g)
}

/// A row of `w` empty cells, freshly allocated.
fn make_zero_row(w: usize) -> (row: Vec<i8>)
    ensures
        row@ == zero_row(w as int),
{
    let mut row: Vec<i8> = Vec::new();
    for j in 0..w
        invariant
            row@.len() == j,
            forall|k: int| 0 <= k < j ==> row@[k] == 0,
    {
        row.push(0);
    }
    proof {
        assert(row@ =~= zero_row(w as int));
    }
    row
}

/// Whether the row has no empty cell.
fn row_is_full(row: &Vec<i8>) -> (full: bool)
    ensures
        full == row_full(row@),
{
    for j in 0..row.len()
        invariant
            forall|k: int| 0 <= k < j ==> row@[k] != 0,
    {
        if row[j] == 0 {
            return false;
        }
    }
    true
}

/// A fresh copy of a row of cells.
fn copy_row(row: &Vec<i8>) -> (out: Vec<i8>)
    ensures
        out@ == row@,
{
    let mut out: Vec<i8> = Vec::new();
    for j in 0..row.len()
        invariant
            out@.len() == j,
            forall|k: int| 0 <= k < j ==> out@[k] == row@[k],
    {
        out.push(row[j]);
    }
    proof {
        assert(out@ =~= row@);
    }
    out
}

/// The persistent grid of locked cells. Its dimensions never change
/// after construction; a cell is nonzero only if some locked piece
/// occupied it and its row has not since been cleared.
pub struct Board {
    cells: Vec<Vec<i8>>,
    width: usize,
}

impl Board {
    /// The grid of locked cells, row by row.
    pub closed spec fn grid(self) -> Seq<Seq<i8>> {
        self.cells.deep_view()
    }

    /// The fixed width of the board.
    pub closed spec fn spec_width(self) -> int {
        self.width as int
    }

    /// The fixed height of the board.
    pub open spec fn spec_height(self) -> int {
        self.grid().len() as int
    }

    /// Well-formedness: positive dimensions that fit `i32`, and every
    /// row of the fixed width.
    pub open spec fn wf(self) -> bool {
        &&& 0 < self.spec_width() <= i32::MAX as int
        &&& 0 < self.spec_height() <= i32::MAX as int
        &&& forall|i: int|
            0 <= i < self.grid().len() ==> (#[trigger] self.grid()[i]).len() == self.spec_width()
    }

    /// The position (r, c) lies on the board.
    pub open spec fn in_bounds(self, r: int, c: int) -> bool {
        0 <= r < self.spec_height() && 0 <= c < self.spec_width()
    }

    /// The board cell at (r, c) exists and is empty.
    pub open spec fn cell_open(self, r: int, c: int) -> bool {
        self.in_bounds(r, c) && self.grid()[r][c] == 0
    }

    /// A shape at the given offset collides: some nonzero shape cell
    /// falls outside the board bounds or on an already occupied cell.
    /// Zero shape cells are transparent and never tested.
    pub open spec fn shape_collides(self, s: Seq<Seq<i8>>, row: int, col: int) -> bool {
        exists|r: int, c: int|
            #![trigger s[r][c]]
            0 <= r < s.len() && 0 <= c < s[r].len() && s[r][c] != 0 && !self.cell_open(
                row + r,
                col + c,
            )
    }

    /// No nonzero shape cell before (rlim, clim) in row-major order
    /// hits a closed board cell.
    spec fn no_hit_upto(self, s: Seq<Seq<i8>>, row: int, col: int, rlim: int, clim: int) -> bool {
        forall|r: int, c: int|
            #![trigger s[r][c]]
            0 <= r < s.len() && 0 <= c < s[r].len() && s[r][c] != 0 && (r < rlim || (r == rlim && c
                < clim)) ==> self.cell_open(row + r, col + c)
    }

    /// An all-empty board of the given dimensions.
    pub fn new(width: usize, height: usize) -> (board: Board)
        requires
            0 < width <= i32::MAX as usize,
            0 < height <= i32::MAX as usize,
        ensures
            board.wf(),
            board.spec_width() == width,
            board.spec_height() == height,
            board.grid() == empty_grid(width as int, height as int),
    {
        let mut cells: Vec<Vec<i8>> = Vec::new();
        for i in 0..height
            invariant
                cells.deep_view().len() == i,
                forall|k: int| 0 <= k < i ==> #[trigger] cells.deep_view()[k] == zero_row(
                    width as int,
                ),
        {
            let row = make_zero_row(width);
            let ghost prev = cells;
            cells.push(row);
            proof {
                assert forall|k: int| 0 <= k < i + 1 implies #[trigger] cells.deep_view()[k]
                    == zero_row(width as int) by {
                    assert(cells.deep_view()[k] == cells@[k].deep_view());
                    if k < i {
                        assert(cells@[k] == prev@[k]);
                        assert(prev.deep_view()[k] == prev@[k].deep_view());
                    } else {
                        assert(cells@[k] == row);
                    }
                }
            }
        }
        let board = Board { cells, width };
        proof {
            assert(board.grid() =~= empty_grid(width as int, height as int));
        }
        board
    }

    /// The fixed width of the board.
    pub fn width(&self) -> (w: usize)
        ensures
            w as int == self.spec_width(),
    {
        self.width
    }

    /// The fixed height of the board.
    pub fn height(&self) -> (h: usize)
        ensures
            h as int == self.spec_height(),
    {
        self.cells.len()
    }

    /// The cell value at (r, c).
    pub fn cell(&self, r: usize, c: usize) -> (v: i8)
        requires
            self.wf(),
            r < self.spec_height(),
            c < self.spec_width(),
        ensures
            v == self.grid()[r as int][c as int],
    {
        proof {
            assert(self.grid()[r as int] == self.cells@[r as int].deep_view());
        }
        self.cells[r][c]
    }

    /// Read-only access to the whole grid, for rendering.
    pub fn rows(&self) -> (rows: &Vec<Vec<i8>>)
        ensures
            rows.deep_view() == self.grid(),
    {
        &self.cells
    }

    /// Whether the shape at offset (row, col) collides with the board:
    /// true exactly when some nonzero shape cell lies outside the grid
    /// bounds or overlaps an already nonzero board cell.
    pub fn collides(&self, shape: &Vec<Vec<i8>>, row: i32, col: i32) -> (hit: bool)
        requires
            self.wf(),
            bounded_dims(shape.deep_view()),
        ensures
            hit == self.shape_collides(shape.deep_view(), row as int, col as int),
    {
        let ghost s = shape.deep_view();
        let height = self.cells.len();
        let width = self.width;
        for r in 0..shape.len()
            invariant
                s == shape.deep_view(),
                self.wf(),
                bounded_dims(s),
                height == self.spec_height(),
                width as int == self.spec_width(),
                self.no_hit_upto(s, row as int, col as int, r as int, 0),
        {
            let rl = shape[r].len();
            for c in 0..rl
                invariant
                    s == shape.deep_view(),
                    self.wf(),
                    bounded_dims(s),
                    height == self.spec_height(),
                    width as int == self.spec_width(),
                    r < s.len(),
                    rl == s[r as int].len(),
                    self.no_hit_upto(s, row as int, col as int, r as int, c as int),
            {
                if shape[r][c] != 0 {
                    let br = row as i64 + r as i64;
                    let bc = col as i64 + c as i64;
                    if br < 0 || br >= height as i64 || bc < 0 || bc >= width as i64 {
                        proof {
                            assert(s[r as int][c as int] != 0 && !self.cell_open(
                                row + r,
                                col + c,
                            ));
                        }
                        return true;
                    }
                    proof {
                        assert(self.grid()[br as int] == self.cells@[br as int].deep_view());
                    }
                    if self.cells[br as usize][bc as usize] != 0 {
                        proof {
                            assert(s[r as int][c as int] != 0 && !self.cell_open(
                                row + r,
                                col + c,
                            ));
                        }
                        return true;
                    }
                }
                proof {
                    assert forall|r2: int, c2: int|
                        0 <= r2 < s.len() && 0 <= c2 < s[r2].len() && #[trigger] s[r2][c2] != 0 && (
                        r2 < r || (r2 == r && c2 < c + 1)) implies self.cell_open(
                        row + r2,
                        col + c2,
                    ) by {
                        if r2 == r && c2 == c {
                            assert(self.cell_open(row + r, col + c));
                        }
                    }
                }
            }
            proof {
                assert(self.no_hit_upto(s, row as int, col as int, r as int + 1, 0));
            }
        }
        proof {
            assert(!self.shape_collides(s, row as int, col as int));
        }
        false
    }

    /// The cell of the merged grid at board position (i, j): the shape
    /// cell that lands there if it is nonzero, the old board cell
    /// otherwise.
    pub open spec fn merged_cell(self, s: Seq<Seq<i8>>, row: int, col: int, i: int, j: int) -> i8 {
        let r = i - row;
        let c = j - col;
        if 0 <= r < s.len() && 0 <= c < s[r].len() && s[r][c] != 0 {
            s[r][c]
        } else {
            self.grid()[i][j]
        }
    }

    /// The grid after writing every nonzero cell of the shape at the
    /// given offset over the board.
    pub open spec fn merged_grid(self, s: Seq<Seq<i8>>, row: int, col: int) -> Seq<Seq<i8>> {
        Seq::new(
            self.grid().len(),
            |i: int| Seq::new((self.grid()[i]).len(), |j: int| self.merged_cell(s, row, col, i, j)),
        )
    }

    /// Writes every nonzero cell of the shape at offset (row, col)
    /// into the board, guarding defensively: if the placement collides
    /// the board is left untouched and `false` is returned.
    pub fn merge(&mut self, shape: &Vec<Vec<i8>>, row: i32, col: i32) -> (merged: bool)
        requires
            old(self).wf(),
            bounded_dims(shape.deep_view()),
        ensures
            final(self).wf(),
            final(self).spec_width() == old(self).spec_width(),
            final(self).spec_height() == old(self).spec_height(),
            merged == !old(self).shape_collides(shape.deep_view(), row as int, col as int),
            merged ==> final(self).grid() == old(self).merged_grid(
                shape.deep_view(),
                row as int,
                col as int,
            ),
            !merged ==> *final(self) == *old(self),
    {
        if self.collides(shape, row, col) {
            return false;
        }
        let ghost s = shape.deep_view();
        let ghost target = self.merged_grid(s, row as int, col as int);
        let height = self.cells.len();
        let width = self.width;
        let mut out: Vec<Vec<i8>> = Vec::new();
        for i in 0..height
            invariant
                *self == *old(self),
                self.wf(),
                s == shape.deep_view(),
                bounded_dims(s),
                height == self.grid().len(),
                width as int == self.spec_width(),
                target == self.merged_grid(s, row as int, col as int),
                out.deep_view().len() == i,
                forall|k: int| 0 <= k < i ==> #[trigger] out.deep_view()[k] == target[k],
        {
            proof {
                assert(self.grid()[i as int] == self.cells@[i as int].deep_view());
            }
            let mut newrow: Vec<i8> = Vec::new();
            for j in 0..width
                invariant
                    *self == *old(self),
                    self.wf(),
                    s == shape.deep_view(),
                    bounded_dims(s),
                    height == self.grid().len(),
                    width as int == self.spec_width(),
                    target == self.merged_grid(s, row as int, col as int),
                    i < height,
                    newrow@.len() == j,
                    forall|l: int| 0 <= l < j ==> #[trigger] newrow@[l] == target[i as int][l],
            {
                proof {
                    assert(self.grid()[i as int] == self.cells@[i as int].deep_view());
                }
                let mut val = self.cells[i][j];
                let sr = i as i64 - row as i64;
                let sc = j as i64 - col as i64;
                if 0 <= sr && sr < shape.len() as i64 {
                    let sru = sr as usize;
                    proof {
                        assert(s[sr as int] == shape@[sr as int].deep_view());
                    }
                    if 0 <= sc && sc < shape[sru].len() as i64 {
                        let scu = sc as usize;
                        let sv = shape[sru][scu];
                        if sv != 0 {
                            val = sv;
                        }
                    }
                }
                proof {
                    assert(val == self.merged_cell(s, row as int, col as int, i as int, j as int));
                    assert(target[i as int][j as int] == self.merged_cell(
                        s,
                        row as int,
                        col as int,
                        i as int,
                        j as int,
                    ));
                }
                newrow.push(val);
            }
            proof {
                assert(newrow@ =~= target[i as int]);
            }
            let ghost prev = out;
            out.push(newrow);
            proof {
                assert forall|k: int| 0 <= k < i + 1 implies #[trigger] out.deep_view()[k]
                    == target[k] by {
                    assert(out.deep_view()[k] == out@[k].deep_view());
                    if k < i {
                        assert(out@[k] == prev@[k]);
                        assert(prev.deep_view()[k] == prev@[k].deep_view());
                    } else {
                        assert(out@[k] == newrow);
                    }
                }
            }
        }
        self.cells = out;
        proof {
            assert(self.grid() =~= target);
        }
        true
    }

    /// Removes every fully occupied row, shifts the rows above each
    /// removed row down, inserts that many fresh empty rows at the
    /// top, and returns the number of rows cleared. Handles zero, one,
    /// or several non-contiguous full rows in a single call.
    pub fn clear_full_rows(&mut self) -> (cleared: usize)
        requires
            old(self).wf(),
        ensures
            final(self).wf(),
            final(self).spec_width() == old(self).spec_width(),
            final(self).spec_height() == old(self).spec_height(),
            cleared == old(self).grid().len() - kept_rows(old(self).grid()).len(),
            final(self).grid() == after_clear(old(self).grid(), old(self).spec_width()),
    {
        let ghost g0 = self.grid();
        proof {
            lemma_kept_rows_len(g0);
        }
        let height = self.cells.len();
        let width = self.width;
        let mut kept: Vec<Vec<i8>> = Vec::new();
        for i in 0..height
            invariant
                *self == *old(self),
                self.wf(),
                g0 == self.grid(),
                height == g0.len(),
                width as int == self.spec_width(),
                kept.deep_view() == kept_rows(g0.subrange(0, i as int)),
                kept@.len() <= i,
        {
            proof {
                assert(g0[i as int] == self.cells@[i as int].deep_view());
                assert(g0.subrange(0, i + 1).drop_last() =~= g0.subrange(0, i as int));
                assert(g0.subrange(0, i + 1).last() == g0[i as int]);
            }
            let full = row_is_full(&self.cells[i]);
            if !full {
                let rowc = copy_row(&self.cells[i]);
                let ghost prev = kept;
                kept.push(rowc);
                proof {
                    assert forall|k: int| 0 <= k < kept@.len() implies #[trigger] kept.deep_view()[k]
                        == kept_rows(g0.subrange(0, i + 1))[k] by {
                        assert(kept.deep_view()[k] == kept@[k].deep_view());
                        if k < prev@.len() {
                            assert(kept@[k] == prev@[k]);
                            assert(prev.deep_view()[k] == prev@[k].deep_view());
                        } else {
                            assert(kept@[k] == rowc);
                        }
                    }
                    assert(kept.deep_view() =~= kept_rows(g0.subrange(0, i + 1)));
                }
            } else {
                proof {
                    assert(kept.deep_view() == kept_rows(g0.subrange(0, i + 1)));
                }
            }
        }
        proof {
            assert(g0.subrange(0, height as int) =~= g0);
            lemma_kept_rows_len(g0);
        }
        let cleared = height - kept.len();
        let mut rebuilt: Vec<Vec<i8>> = Vec::new();
        for t in 0..cleared
            invariant
                width as int == old(self).spec_width(),
                rebuilt.deep_view().len() == t,
                forall|k: int| 0 <= k < t ==> #[trigger] rebuilt.deep_view()[k] == zero_row(
                    width as int,
                ),
        {
            let row = make_zero_row(width);
            let ghost prev = rebuilt;
            rebuilt.push(row);
            proof {
                assert forall|k: int| 0 <= k < t + 1 implies #[trigger] rebuilt.deep_view()[k]
                    == zero_row(width as int) by {
                    assert(rebuilt.deep_view()[k] == rebuilt@[k].deep_view());
                    if k < t {
                        assert(rebuilt@[k] == prev@[k]);
                        assert(prev.deep_view()[k] == prev@[k].deep_view());
                    } else {
                        assert(rebuilt@[k] == row);
                    }
                }
            }
        }
        let ghost keptv = kept.deep_view();
        let ghost zpart = rebuilt.deep_view();
        rebuilt.append(&mut kept);
        self.cells = rebuilt;
        proof {
            assert forall|k: int| 0 <= k < self.grid().len() implies #[trigger] self.grid()[k]
                == after_clear(g0, width as int)[k] by {
                assert(self.grid()[k] == self.cells@[k].deep_view());
                if k < cleared {
                    assert(zpart[k] == zero_row(width as int));
                } else {
                    assert(keptv[k - cleared] == kept_rows(g0)[k - cleared]);
                }
            }
            assert(self.grid() =~= after_clear(g0, width as int));
            lemma_kept_rows_width(g0, width as int);
            assert forall|i: int| 0 <= i < self.grid().len() implies (#[trigger] self.grid()[i]).len()
                == self.spec_width() by {
                if i >= cleared {
                    assert(self.grid()[i] == kept_rows(g0)[i - cleared]);
                }
            }
        }
        cleared
    }
}

/// Any placement with a nonzero shape cell outside the grid bounds —
/// past any of the four edges — collides.
pub proof fn lemma_collides_out_of_bounds(
    b: Board,
    s: Seq<Seq<i8>>,
    row: int,
    col: int,
    r: int,
    c: int,
)
    requires
        0 <= r < s.len(),
        0 <= c < s[r].len(),
        s[r][c] != 0,
        !b.in_bounds(row + r, col + c),
    ensures
        b.shape_collides(s, row, col),
{
    assert(!b.cell_open(row + r, col + c));
}

/// A placement whose nonzero shape cell overlaps an already nonzero
/// board cell collides.
pub proof fn lemma_collides_overlap(
    b: Board,
    s: Seq<Seq<i8>>,
    row: int,
    col: int,
    r: int,
    c: int,
)
    requires
        0 <= r < s.len(),
        0 <= c < s[r].len(),
        s[r][c] != 0,
        b.in_bounds(row + r, col + c),
        b.grid()[row + r][col + c] != 0,
    ensures
        b.shape_collides(s, row, col),
{
    assert(!b.cell_open(row + r, col + c));
}

/// On an all-empty board, any placement whose nonzero cells all lie in
/// bounds does not collide.
pub proof fn lemma_empty_board_no_collision(b: Board, s: Seq<Seq<i8>>, row: int, col: int)
    requires
        b.wf(),
        b.grid() == empty_grid(b.spec_width(), b.spec_height()),
        forall|r: int, c: int|
            #![trigger s[r][c]]
            0 <= r < s.len() && 0 <= c < s[r].len() && s[r][c] != 0 ==> b.in_bounds(
                row + r,
                col + c,
            ),
    ensures
        !b.shape_collides(s, row, col),
{
    assert forall|r: int, c: int|
        #![trigger s[r][c]]
        0 <= r < s.len() && 0 <= c < s[r].len() && s[r][c] != 0 implies b.cell_open(
        row + r,
        col + c,
    ) by {
        assert(b.grid()[row + r] == empty_grid(b.spec_width(), b.spec_height())[row + r]);
        assert(b.grid()[row + r][col + c] == zero_row(b.spec_width())[col + c]);
    }
}

} // verus!
