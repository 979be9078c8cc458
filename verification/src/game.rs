//! The tick/command state machine of the engine.
//!
//! A game state owns one board and at most one active piece, together
//! with score and lines-cleared counters. External callers issue
//! discrete commands (spawn, move, rotate, drop, tick); every command
//! is applied atomically and the post-command state is observable
//! through the query surface. Timing and shape selection are entirely
//! the caller's concern: gravity is the `tick` command, and the next
//! tetromino is handed to `spawn` by the caller.

use vstd::prelude::*;
use crate::actions::TetrisError;
use crate::board::{after_clear, empty_grid, kept_rows, Board};
use crate::matrix::{bounded_dims, rotate, valid_shape, width};
use crate::piece::Piece;

verus! {

broadcast use crate::matrix::lemma_row_view;

/// The phases of the game's state machine.
#[derive(Debug, Clone, Copy, PartialEq, Eq, Structural)]
pub enum Phase {
    /// Waiting for the caller to supply the next tetromino.
    Spawning,
    /// A piece is falling and accepts move/rotate/drop commands.
    Falling,
    /// The piece can no longer move down and will be merged next.
    Locking,
    /// The board will have its full rows cleared and scored next.
    Clearing,
    /// Terminal: all further commands are no-ops.
    GameOver,
}

/// The column at which a shape of width `shape_w` spawns on a board of
/// width `board_w`: horizontally centered, or 0 for an oversized shape.
pub open spec fn spawn_col(board_w: int, shape_w: int) -> int {
    if shape_w <= board_w {
        (board_w - shape_w) / 2
    } else {
        0
    }
}

/// The base points awarded for clearing `rows` rows at once: the
/// conventional super-linear mapping, capped at the tetris value.
pub open spec fn line_points(rows: int) -> int {
    if rows <= 0 {
        0
    } else if rows == 1 {
        100
    } else if rows == 2 {
        300
    } else if rows == 3 {
        500
    } else {
        800
    }
}

/// Saturation of a counter value at the largest `u64`.
pub open spec fn sat_u64(x: int) -> int {
    if x > u64::MAX as int {
        u64::MAX as int
    } else {
        x
    }
}

/// A legal (non-colliding) well-formed piece lies strictly within the
/// board: some nonzero cell of it occupies an in-bounds position, so
/// its offset is bounded in all four directions. In particular a
/// falling piece's row is below `spec_height()`, so gravity can move
/// it down at most `spec_height()` times before it locks.
pub proof fn lemma_active_piece_in_range(b: Board, p: Piece)
    requires
        b.wf(),
        p.wf(),
        !b.shape_collides(p.spec_shape(), p.spec_row(), p.spec_col()),
    ensures
        -(i32::MAX as int) < p.spec_row() < b.spec_height(),
        -(i32::MAX as int) < p.spec_col() < b.spec_width(),
{
    let s = p.spec_shape();
    let (r0, c0) = choose|r0: int, c0: int|
        0 <= r0 < s.len() && 0 <= c0 < s[r0].len() && s[r0][c0] != 0;
    assert(b.cell_open(p.spec_row() + r0, p.spec_col() + c0));
}

/// The orchestrator: one board, at most one active piece, counters,
/// and the current phase of the state machine.
pub struct GameState {
    board: Board,
    piece: Option<Piece>,
    phase: Phase,
    score: u64,
    lines: u64,
}

impl GameState {
    /// The board of locked cells.
    pub closed spec fn spec_board(self) -> Board {
        self.board
    }

    /// The active piece, if one is falling or locking.
    pub closed spec fn spec_piece(self) -> Option<Piece> {
        self.piece
    }

    /// The current phase.
    pub closed spec fn spec_phase(self) -> Phase {
        self.phase
    }

    /// The score counter.
    pub closed spec fn spec_score(self) -> int {
        self.score as int
    }

    /// The lines-cleared counter.
    pub closed spec fn spec_lines(self) -> int {
        self.lines as int
    }

    /// The level: it starts at 1 and rises every ten cleared lines.
    pub open spec fn spec_level(self) -> int {
        1 + self.spec_lines() / 10
    }

    /// Well-formedness: the board is well formed; exactly the falling
    /// and locking phases carry a piece; and any carried piece is well
    /// formed and does not collide with the board.
    pub open spec fn wf(self) -> bool {
        &&& self.spec_board().wf()
        &&& ((self.spec_phase() == Phase::Falling || self.spec_phase() == Phase::Locking)
            <==> self.spec_piece() is Some)
        &&& match self.spec_piece() {
            Some(p) => p.wf() && !self.spec_board().shape_collides(
                p.spec_shape(),
                p.spec_row(),
                p.spec_col(),
            ),
            None => true,
        }
    }

    /// The active piece is exactly the shape `s` at offset (r, c).
    pub open spec fn piece_at(self, s: Seq<Seq<i8>>, r: int, c: int) -> bool {
        match self.spec_piece() {
            Some(p) => p.spec_shape() == s && p.spec_row() == r && p.spec_col() == c,
            None => false,
        }
    }

    /// The board, counters and phase that a pure piece command must
    /// not touch are the same in `self` as in `pre`.
    pub open spec fn same_but_piece(self, pre: GameState) -> bool {
        &&& self.spec_board() == pre.spec_board()
        &&& self.spec_phase() == pre.spec_phase()
        &&& self.spec_score() == pre.spec_score()
        &&& self.spec_lines() == pre.spec_lines()
    }

    /// A fresh game: an all-empty board of the given dimensions, no
    /// piece, zero counters, waiting to spawn.
    pub fn new(width: usize, height: usize) -> (game: GameState)
        requires
            0 < width <= i32::MAX as usize,
            0 < height <= i32::MAX as usize,
        ensures
            game.wf(),
            game.spec_phase() == Phase::Spawning,
            game.spec_piece() is None,
            game.spec_score() == 0,
            game.spec_lines() == 0,
            game.spec_board().spec_width() == width,
            game.spec_board().spec_height() == height,
            game.spec_board().grid() == empty_grid(width as int, height as int),
    {
        GameState {
            board: Board::new(width, height),
            piece: None,
            phase: Phase::Spawning,
            score: 0,
            lines: 0,
        }
    }

    /// Read-only access to the board.
    pub fn board(&self) -> (board: &Board)
        ensures
            *board == self.spec_board(),
    {
        &self.board
    }

    /// Read-only access to the active piece.
    pub fn piece(&self) -> (piece: &Option<Piece>)
        ensures
            *piece == self.spec_piece(),
    {
        &self.piece
    }

    /// The current phase.
    pub fn phase(&self) -> (phase: Phase)
        ensures
            phase == self.spec_phase(),
    {
        self.phase
    }

    /// The score counter.
    pub fn score(&self) -> (score: u64)
        ensures
            score as int == self.spec_score(),
    {
        self.score
    }

    /// The lines-cleared counter.
    pub fn lines_cleared(&self) -> (lines: u64)
        ensures
            lines as int == self.spec_lines(),
    {
        self.lines
    }

    /// The level: it starts at 1 and rises every ten cleared lines.
    pub fn level(&self) -> (level: u64)
        ensures
            level as int == self.spec_level(),
    {
        1 + self.lines / 10
    }

    /// Whether the game has ended.
    pub fn is_game_over(&self) -> (over: bool)
        ensures
            over == (self.spec_phase() == Phase::GameOver),
    {
        self.phase == Phase::GameOver
    }

    /// Supplies the next tetromino while the game is spawning. The
    /// piece is placed at the fixed spawn offset (row 0, horizontally
    /// centered); if that position already collides with the locked
    /// cells, the game transitions directly to game over, without
    /// merging anything. A malformed shape is rejected with an error
    /// and changes nothing; outside the spawning phase the command is
    /// a no-op.
    pub fn spawn(&mut self, shape: Vec<Vec<i8>>) -> (result: Result<bool, TetrisError>)
        requires
            old(self).wf(),
            bounded_dims(shape.deep_view()),
        ensures
            final(self).wf(),
            match result {
                Ok(placed) => {
                    if old(self).spec_phase() != Phase::Spawning {
                        &&& !placed
                        &&& *final(self) == *old(self)
                    } else {
                        let s = shape.deep_view();
                        let col = spawn_col(old(self).spec_board().spec_width(), width(s));
                        &&& valid_shape(s)
                        &&& final(self).spec_board() == old(self).spec_board()
                        &&& final(self).spec_score() == old(self).spec_score()
                        &&& final(self).spec_lines() == old(self).spec_lines()
                        &&& placed == !old(self).spec_board().shape_collides(s, 0, col)
                        &&& (placed ==> final(self).spec_phase() == Phase::Falling
                            && final(self).piece_at(s, 0, col))
                        &&& (!placed ==> final(self).spec_phase() == Phase::GameOver
                            && final(self).spec_piece() is None)
                    }
                },
                Err(e) => {
                    &&& e == TetrisError::InvalidShape
                    &&& old(self).spec_phase() == Phase::Spawning
                    &&& !valid_shape(shape.deep_view())
                    &&& *final(self) == *old(self)
                },
            },
    {
        let ghost s = shape.deep_view();
        if self.phase != Phase::Spawning {
            return Ok(false);
        }
        let w = self.board.width();
        let sw = if shape.len() == 0 {
            0
        } else {
            proof {
                assert(s[0] == shape@[0].deep_view());
            }
            shape[0].len()
        };
        let col: i32 = if sw <= w {
            ((w - sw) / 2) as i32
        } else {
            0
        };
        proof {
            assert(col as int == spawn_col(self.spec_board().spec_width(), width(s)));
        }
        match Piece::new(shape, 0, col) {
            Err(e) => Err(e),
            Ok(p) => {
                if self.board.collides(p.shape(), p.row(), p.col()) {
                    self.phase = Phase::GameOver;
                    Ok(false)
                } else {
                    self.piece = Some(p);
                    self.phase = Phase::Falling;
                    Ok(true)
                }
            },
        }
    }

    /// Moves the falling piece one column to the left, if the result
    /// does not collide; otherwise the command is a rejected no-op.
    /// Returns whether the piece moved.
    pub fn move_left(&mut self) -> (moved: bool)
        requires
            old(self).wf(),
        ensures
            final(self).wf(),
            final(self).same_but_piece(*old(self)),
            old(self).spec_phase() != Phase::Falling ==> !moved && *final(self) == *old(self),
            old(self).spec_phase() == Phase::Falling ==> (old(self).spec_piece() matches Some(p)
                ==> {
                let ok = !old(self).spec_board().shape_collides(
                    p.spec_shape(),
                    p.spec_row(),
                    p.spec_col() - 1,
                );
                &&& moved == ok
                &&& final(self).piece_at(
                    p.spec_shape(),
                    p.spec_row(),
                    if ok {
                        p.spec_col() - 1
                    } else {
                        p.spec_col()
                    },
                )
            }),
    {
        if self.phase != Phase::Falling {
            return false;
        }
        let p = self.piece.as_ref().unwrap();
        proof {
            lemma_active_piece_in_range(self.spec_board(), *p);
        }
        let q = p.moved(0, -1);
        if !self.board.collides(q.shape(), q.row(), q.col()) {
            self.piece = Some(q);
            true
        } else {
            false
        }
    }

    /// Moves the falling piece one column to the right, if the result
    /// does not collide; otherwise the command is a rejected no-op.
    /// Returns whether the piece moved.
    pub fn move_right(&mut self) -> (moved: bool)
        requires
            old(self).wf(),
        ensures
            final(self).wf(),
            final(self).same_but_piece(*old(self)),
            old(self).spec_phase() != Phase::Falling ==> !moved && *final(self) == *old(self),
            old(self).spec_phase() == Phase::Falling ==> (old(self).spec_piece() matches Some(p)
                ==> {
                let ok = !old(self).spec_board().shape_collides(
                    p.spec_shape(),
                    p.spec_row(),
                    p.spec_col() + 1,
                );
                &&& moved == ok
                &&& final(self).piece_at(
                    p.spec_shape(),
                    p.spec_row(),
                    if ok {
                        p.spec_col() + 1
                    } else {
                        p.spec_col()
                    },
                )
            }),
    {
        if self.phase != Phase::Falling {
            return false;
        }
        let p = self.piece.as_ref().unwrap();
        proof {
            lemma_active_piece_in_range(self.spec_board(), *p);
        }
        let q = p.moved(0, 1);
        if !self.board.collides(q.shape(), q.row(), q.col()) {
            self.piece = Some(q);
            true
        } else {
            false
        }
    }

    /// Rotates the falling piece clockwise about its offset, if the
    /// rotated shape does not collide; otherwise the rotation is
    /// rejected and the piece is unchanged. Returns whether it rotated.
    pub fn rotate(&mut self) -> (rotated: bool)
        requires
            old(self).wf(),
        ensures
            final(self).wf(),
            final(self).same_but_piece(*old(self)),
            old(self).spec_phase() != Phase::Falling ==> !rotated && *final(self) == *old(self),
            old(self).spec_phase() == Phase::Falling ==> (old(self).spec_piece() matches Some(p)
                ==> {
                let rs = rotate(p.spec_shape());
                let ok = !old(self).spec_board().shape_collides(rs, p.spec_row(), p.spec_col());
                &&& rotated == ok
                &&& (ok ==> final(self).piece_at(rs, p.spec_row(), p.spec_col()))
                &&& (!ok ==> final(self).piece_at(p.spec_shape(), p.spec_row(), p.spec_col()))
            }),
    {
        if self.phase != Phase::Falling {
            return false;
        }
        let p = self.piece.as_ref().unwrap();
        let q = p.rotated();
        if !self.board.collides(q.shape(), q.row(), q.col()) {
            self.piece = Some(q);
            true
        } else {
            false
        }
    }

    /// One gravity step: moves the falling piece one row down if that
    /// is legal, and otherwise transitions to the locking phase with
    /// the piece unchanged. Outside the falling phase the command is a
    /// no-op. Returns whether the piece moved down.
    pub fn soft_drop(&mut self) -> (moved: bool)
        requires
            old(self).wf(),
        ensures
            final(self).wf(),
            final(self).spec_board() == old(self).spec_board(),
            final(self).spec_score() == old(self).spec_score(),
            final(self).spec_lines() == old(self).spec_lines(),
            old(self).spec_phase() != Phase::Falling ==> !moved && *final(self) == *old(self),
            old(self).spec_phase() == Phase::Falling ==> (old(self).spec_piece() matches Some(p)
                ==> {
                let ok = !old(self).spec_board().shape_collides(
                    p.spec_shape(),
                    p.spec_row() + 1,
                    p.spec_col(),
                );
                &&& moved == ok
                &&& (ok ==> final(self).spec_phase() == Phase::Falling && final(self).piece_at(
                    p.spec_shape(),
                    p.spec_row() + 1,
                    p.spec_col(),
                ))
                &&& (!ok ==> final(self).spec_phase() == Phase::Locking && final(self).piece_at(
                    p.spec_shape(),
                    p.spec_row(),
                    p.spec_col(),
                ))
            }),
    {
        if self.phase != Phase::Falling {
            return false;
        }
        let p = self.piece.as_ref().unwrap();
        proof {
            lemma_active_piece_in_range(self.spec_board(), *p);
        }
        if !self.board.collides(p.shape(), p.row() + 1, p.col()) {
            let q = p.moved(1, 0);
            self.piece = Some(q);
            true
        } else {
            self.phase = Phase::Locking;
            false
        }
    }

    /// Drops the falling piece straight down to the last legal row and
    /// transitions to the locking phase. Outside the falling phase the
    /// command is a no-op. Returns whether a drop took place.
    pub fn hard_drop(&mut self) -> (dropped: bool)
        requires
            old(self).wf(),
        ensures
            final(self).wf(),
            final(self).spec_board() == old(self).spec_board(),
            final(self).spec_score() == old(self).spec_score(),
            final(self).spec_lines() == old(self).spec_lines(),
            old(self).spec_phase() != Phase::Falling ==> !dropped && *final(self) == *old(self),
            old(self).spec_phase() == Phase::Falling ==> (old(self).spec_piece() matches Some(p)
                ==> {
                &&& dropped
                &&& final(self).spec_phase() == Phase::Locking
                &&& (final(self).spec_piece() matches Some(q) ==> {
                    &&& q.spec_shape() == p.spec_shape()
                    &&& q.spec_col() == p.spec_col()
                    &&& p.spec_row() <= q.spec_row()
                    &&& old(self).spec_board().shape_collides(
                        p.spec_shape(),
                        q.spec_row() + 1,
                        p.spec_col(),
                    )
                    &&& forall|k: int|
                        p.spec_row() <= k <= q.spec_row() ==> !old(self).spec_board().shape_collides(
                            p.spec_shape(),
                            k,
                            p.spec_col(),
                        )
                })
                &&& final(self).spec_piece() is Some
            }),
    {
        if self.phase != Phase::Falling {
            return false;
        }
        loop
            invariant_except_break
                self.spec_phase() == Phase::Falling,
            invariant
                self.wf(),
                self.spec_piece() is Some,
                self.spec_board() == old(self).spec_board(),
                self.spec_score() == old(self).spec_score(),
                self.spec_lines() == old(self).spec_lines(),
                old(self).spec_phase() == Phase::Falling,
                old(self).spec_piece() matches Some(p0) && (self.spec_piece() matches Some(q) ==> {
                    &&& q.spec_shape() == p0.spec_shape()
                    &&& q.spec_col() == p0.spec_col()
                    &&& p0.spec_row() <= q.spec_row()
                    &&& forall|k: int|
                        p0.spec_row() <= k <= q.spec_row()
                            ==> !old(self).spec_board().shape_collides(
                            p0.spec_shape(),
                            k,
                            p0.spec_col(),
                        )
                }),
            ensures
                self.spec_board() == old(self).spec_board(),
                self.spec_score() == old(self).spec_score(),
                self.spec_lines() == old(self).spec_lines(),
                self.spec_phase() == Phase::Locking,
                self.spec_piece() is Some,
                old(self).spec_piece() matches Some(p0) && (self.spec_piece() matches Some(q) ==> {
                    &&& q.spec_shape() == p0.spec_shape()
                    &&& q.spec_col() == p0.spec_col()
                    &&& p0.spec_row() <= q.spec_row()
                    &&& old(self).spec_board().shape_collides(
                        p0.spec_shape(),
                        q.spec_row() + 1,
                        p0.spec_col(),
                    )
                    &&& forall|k: int|
                        p0.spec_row() <= k <= q.spec_row()
                            ==> !old(self).spec_board().shape_collides(
                            p0.spec_shape(),
                            k,
                            p0.spec_col(),
                        )
                }),
                self.wf(),
            decreases old(self).spec_board().spec_height() - (
            self.spec_piece().unwrap().spec_row()),
        {
            let moved = self.soft_drop();
            if !moved {
                break;
            }
        }
        true
    }

    /// One step of the state machine, driven by the external gravity
    /// cadence:
    /// - falling: one gravity step (as `soft_drop`);
    /// - locking: the piece's cells are merged into the board and the
    ///   piece is destroyed;
    /// - clearing: full rows are removed, the counters are updated
    ///   (base points scale super-linearly with the rows cleared at
    ///   once, multiplied by the level before the clear, saturating),
    ///   and the game waits to spawn;
    /// - spawning and game over: no-ops.
    /// Returns the phase after the step.
    pub fn tick(&mut self) -> (phase: Phase)
        requires
            old(self).wf(),
        ensures
            final(self).wf(),
            phase == final(self).spec_phase(),
            final(self).spec_board().spec_width() == old(self).spec_board().spec_width(),
            final(self).spec_board().spec_height() == old(self).spec_board().spec_height(),
            old(self).spec_phase() == Phase::Spawning || old(self).spec_phase() == Phase::GameOver
                ==> *final(self) == *old(self),
            old(self).spec_phase() == Phase::Falling ==> (old(self).spec_piece() matches Some(p)
                ==> {
                let ok = !old(self).spec_board().shape_collides(
                    p.spec_shape(),
                    p.spec_row() + 1,
                    p.spec_col(),
                );
                &&& final(self).spec_board() == old(self).spec_board()
                &&& final(self).spec_score() == old(self).spec_score()
                &&& final(self).spec_lines() == old(self).spec_lines()
                &&& (ok ==> final(self).spec_phase() == Phase::Falling && final(self).piece_at(
                    p.spec_shape(),
                    p.spec_row() + 1,
                    p.spec_col(),
                ))
                &&& (!ok ==> final(self).spec_phase() == Phase::Locking && final(self).piece_at(
                    p.spec_shape(),
                    p.spec_row(),
                    p.spec_col(),
                ))
            }),
            old(self).spec_phase() == Phase::Locking ==> (old(self).spec_piece() matches Some(p)
                ==> {
                &&& final(self).spec_phase() == Phase::Clearing
                &&& final(self).spec_piece() is None
                &&& final(self).spec_board().grid() == old(self).spec_board().merged_grid(
                    p.spec_shape(),
                    p.spec_row(),
                    p.spec_col(),
                )
                &&& final(self).spec_score() == old(self).spec_score()
                &&& final(self).spec_lines() == old(self).spec_lines()
            }),
            old(self).spec_phase() == Phase::Clearing ==> {
                let g = old(self).spec_board().grid();
                let k = g.len() - kept_rows(g).len();
                &&& final(self).spec_phase() == Phase::Spawning
                &&& final(self).spec_piece() is None
                &&& final(self).spec_board().grid() == after_clear(
                    g,
                    old(self).spec_board().spec_width(),
                )
                &&& final(self).spec_lines() == sat_u64(old(self).spec_lines() + k)
                &&& final(self).spec_score() == sat_u64(
                    old(self).spec_score() + line_points(k) * old(self).spec_level(),
                )
            },
    {
        match self.phase {
            Phase::Spawning => self.phase,
            Phase::GameOver => self.phase,
            Phase::Falling => {
                self.soft_drop();
                self.phase
            },
            Phase::Locking => {
                let p = self.piece.take().unwrap();
                let merged = self.board.merge(p.shape(), p.row(), p.col());
                proof {
                    assert(merged);
                }
                self.phase = Phase::Clearing;
                self.phase
            },
            Phase::Clearing => {
                let ghost pre = *self;
                let cleared = self.board.clear_full_rows();
                let level = 1 + self.lines / 10;
                let base: u64 = if cleared == 0 {
                    0
                } else if cleared == 1 {
                    100
                } else if cleared == 2 {
                    300
                } else if cleared == 3 {
                    500
                } else {
                    800
                };
                proof {
                    assert(base as int == line_points(cleared as int));
                    assert((base as int) * (level as int) <= 800 * (level as int))
                        by (nonlinear_arith)
                        requires
                            0 <= base <= 800,
                            level >= 0,
                    ;
                }
                let total: u128 = self.score as u128 + (base as u128) * (level as u128);
                self.score = if total > u64::MAX as u128 {
                    u64::MAX
                } else {
                    total as u64
                };
                let k64: u64 = cleared as u64;
                self.lines = if self.lines > u64::MAX - k64 {
                    u64::MAX
                } else {
                    self.lines + k64
                };
                self.phase = Phase::Spawning;
                proof {
                    let g = pre.spec_board().grid();
                    let k = g.len() - kept_rows(g).len();
                    assert(cleared as int == k);
                    assert(self.spec_score() == sat_u64(
                        pre.spec_score() + line_points(k) * pre.spec_level(),
                    ));
                    assert(self.spec_lines() == sat_u64(pre.spec_lines() + k));
                }
                self.phase
            },
        }
    }
}

} // verus!
