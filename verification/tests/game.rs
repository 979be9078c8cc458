use tetris::game::{GameState, Phase};

#[test]
fn fresh_game_waits_to_spawn() {
    let g = GameState::new(10, 20);
    assert_eq!(Phase::Spawning, g.phase());
    assert!(g.piece().is_none());
    assert_eq!(0, g.score());
    assert_eq!(0, g.lines_cleared());
    assert_eq!(1, g.level());
    assert!(!g.is_game_over());
}

#[test]
fn spawn_centers_piece_at_top() {
    let mut g = GameState::new(10, 20);
    assert_eq!(Ok(true), g.spawn(vec![vec![6, 6, 6, 6]]));
    assert_eq!(Phase::Falling, g.phase());
    let p = g.piece().as_ref().unwrap();
    assert_eq!(0, p.row());
    assert_eq!(3, p.col());
}

#[test]
fn spawn_rejects_malformed_shape() {
    let mut g = GameState::new(10, 20);
    let r = g.spawn(vec![vec![1, 1], vec![1]]);
    assert!(r.is_err());
    assert_eq!(Phase::Spawning, g.phase());
}

#[test]
fn spawn_outside_spawning_phase_is_noop() {
    let mut g = GameState::new(10, 20);
    assert_eq!(Ok(true), g.spawn(vec![vec![1]]));
    assert_eq!(Ok(false), g.spawn(vec![vec![1]]));
    assert_eq!(Phase::Falling, g.phase());
}

#[test]
fn spawn_collision_ends_the_game_without_merging() {
    let mut g = GameState::new(2, 2);
    // Drop one block down the left column, twice, to occupy both rows.
    for _ in 0..2 {
        assert_eq!(Ok(true), g.spawn(vec![vec![1]]));
        assert!(g.hard_drop());
        assert_eq!(Phase::Clearing, g.tick());
        assert_eq!(Phase::Spawning, g.tick());
    }
    // The spawn cell (0, 0) is now occupied: the third spawn collides.
    assert_eq!(Ok(false), g.spawn(vec![vec![1]]));
    assert!(g.is_game_over());
    assert!(g.piece().is_none());
    // Nothing was merged by the failed spawn.
    assert_eq!(1, g.board().cell(0, 0));
    assert_eq!(1, g.board().cell(1, 0));
    assert_eq!(0, g.board().cell(0, 1));
    assert_eq!(0, g.board().cell(1, 1));
}

#[test]
fn ticks_drive_one_piece_through_the_machine_once() {
    let mut g = GameState::new(2, 3);
    assert_eq!(Ok(true), g.spawn(vec![vec![1]]));
    assert_eq!(Phase::Falling, g.phase());
    // Nothing below: the piece falls one row per tick, then locks,
    // clears, and waits to spawn - each transition exactly once.
    assert_eq!(Phase::Falling, g.tick());
    assert_eq!(Phase::Falling, g.tick());
    assert_eq!(Phase::Locking, g.tick());
    assert!(g.piece().is_some());
    assert_eq!(Phase::Clearing, g.tick());
    assert!(g.piece().is_none());
    assert_eq!(1, g.board().cell(2, 0));
    assert_eq!(Phase::Spawning, g.tick());
    // The merged cell stays locked in the board.
    assert_eq!(1, g.board().cell(2, 0));
    assert_eq!(0, g.score());
    assert_eq!(0, g.lines_cleared());
    // Further ticks while waiting to spawn change nothing.
    assert_eq!(Phase::Spawning, g.tick());
    assert_eq!(1, g.board().cell(2, 0));
}

#[test]
fn score_scales_with_level() {
    let mut g = GameState::new(1, 2);
    // Ten single-line clears: 100 points each at level 1.
    for _ in 0..10 {
        assert_eq!(Ok(true), g.spawn(vec![vec![1]]));
        assert!(g.hard_drop());
        assert_eq!(Phase::Clearing, g.tick());
        assert_eq!(Phase::Spawning, g.tick());
    }
    assert_eq!(10, g.lines_cleared());
    assert_eq!(1000, g.score());
    assert_eq!(2, g.level());
    // The eleventh clear happens at level 2 and scores double.
    assert_eq!(Ok(true), g.spawn(vec![vec![1]]));
    assert!(g.hard_drop());
    assert_eq!(Phase::Clearing, g.tick());
    assert_eq!(Phase::Spawning, g.tick());
    assert_eq!(1200, g.score());
}

#[test]
fn single_line_clear_scores_one_hundred() {
    let mut g = GameState::new(2, 4);
    assert_eq!(Ok(true), g.spawn(vec![vec![1, 1]]));
    assert!(g.hard_drop());
    assert_eq!(Phase::Locking, g.phase());
    assert_eq!(Phase::Clearing, g.tick());
    // The bottom row is full.
    assert_eq!(1, g.board().cell(3, 0));
    assert_eq!(1, g.board().cell(3, 1));
    assert_eq!(Phase::Spawning, g.tick());
    assert_eq!(100, g.score());
    assert_eq!(1, g.lines_cleared());
    assert_eq!(0, g.board().cell(3, 0));
    assert_eq!(0, g.board().cell(3, 1));
}

#[test]
fn double_line_clear_scores_three_hundred() {
    let mut g = GameState::new(2, 4);
    assert_eq!(Ok(true), g.spawn(vec![vec![7, 7], vec![7, 7]]));
    assert!(g.hard_drop());
    assert_eq!(Phase::Clearing, g.tick());
    assert_eq!(Phase::Spawning, g.tick());
    assert_eq!(300, g.score());
    assert_eq!(2, g.lines_cleared());
}

#[test]
fn moves_stop_at_the_walls() {
    let mut g = GameState::new(3, 3);
    assert_eq!(Ok(true), g.spawn(vec![vec![1]]));
    assert_eq!(1, g.piece().as_ref().unwrap().col());
    assert!(g.move_left());
    assert_eq!(0, g.piece().as_ref().unwrap().col());
    assert!(!g.move_left());
    assert_eq!(0, g.piece().as_ref().unwrap().col());
    assert!(g.move_right());
    assert!(g.move_right());
    assert_eq!(2, g.piece().as_ref().unwrap().col());
    assert!(!g.move_right());
    assert_eq!(2, g.piece().as_ref().unwrap().col());
}

#[test]
fn moves_stop_at_locked_cells() {
    let mut g = GameState::new(3, 2);
    assert_eq!(Ok(true), g.spawn(vec![vec![1]]));
    assert!(g.hard_drop());
    assert_eq!(Phase::Clearing, g.tick());
    assert_eq!(Phase::Spawning, g.tick());
    // The locked block sits at (1, 1); a new piece dropped in the left
    // column cannot move right onto it.
    assert_eq!(Ok(true), g.spawn(vec![vec![1]]));
    assert!(g.move_left());
    assert!(g.soft_drop());
    assert_eq!(1, g.piece().as_ref().unwrap().row());
    assert!(!g.move_right());
    assert_eq!(0, g.piece().as_ref().unwrap().col());
}

#[test]
fn rotate_command_rotates_in_place() {
    let mut g = GameState::new(4, 4);
    assert_eq!(Ok(true), g.spawn(vec![vec![6, 6, 6, 6]]));
    assert!(g.rotate());
    let p = g.piece().as_ref().unwrap();
    assert_eq!(vec![vec![6], vec![6], vec![6], vec![6]], *p.shape());
    assert_eq!(0, p.row());
    assert_eq!(0, p.col());
}

#[test]
fn rotate_command_rejected_when_it_would_not_fit() {
    let mut g = GameState::new(4, 2);
    assert_eq!(Ok(true), g.spawn(vec![vec![6, 6, 6, 6]]));
    // Rotated, the bar is four rows tall and cannot fit a two-row
    // board: the command is a no-op.
    assert!(!g.rotate());
    let p = g.piece().as_ref().unwrap();
    assert_eq!(vec![vec![6, 6, 6, 6]], *p.shape());
}

#[test]
fn soft_drop_descends_then_locks() {
    let mut g = GameState::new(2, 2);
    assert_eq!(Ok(true), g.spawn(vec![vec![1]]));
    assert!(g.soft_drop());
    assert_eq!(1, g.piece().as_ref().unwrap().row());
    assert_eq!(Phase::Falling, g.phase());
    assert!(!g.soft_drop());
    assert_eq!(Phase::Locking, g.phase());
    assert_eq!(1, g.piece().as_ref().unwrap().row());
}

#[test]
fn game_over_commands_are_noops() {
    let mut g = GameState::new(1, 1);
    assert_eq!(Ok(true), g.spawn(vec![vec![1]]));
    assert!(g.hard_drop());
    assert_eq!(Phase::Clearing, g.tick());
    assert_eq!(Phase::Spawning, g.tick());
    // Width 1: the single row cleared itself; refill and end the game.
    assert_eq!(100, g.score());
    assert_eq!(Ok(true), g.spawn(vec![vec![1]]));
    assert!(g.hard_drop());
    assert_eq!(Phase::Clearing, g.tick());
    assert_eq!(Phase::Spawning, g.tick());
    assert_eq!(200, g.score());
    assert_eq!(2, g.lines_cleared());
    // End a second game by spawning onto a locked cell, then check
    // that every command is a frozen no-op.
    let mut g2 = GameState::new(2, 1);
    assert_eq!(Ok(true), g2.spawn(vec![vec![1]]));
    assert!(g2.hard_drop());
    assert_eq!(Phase::Clearing, g2.tick());
    assert_eq!(Phase::Spawning, g2.tick());
    // Row not full (width 2), block stays at (0, 0); col = (2-1)/2 = 0.
    assert_eq!(Ok(false), g2.spawn(vec![vec![1]]));
    assert!(g2.is_game_over());
    let score_before = g2.score();
    assert!(!g2.move_left());
    assert!(!g2.move_right());
    assert!(!g2.rotate());
    assert!(!g2.soft_drop());
    assert!(!g2.hard_drop());
    assert_eq!(Phase::GameOver, g2.tick());
    assert_eq!(Ok(false), g2.spawn(vec![vec![1]]));
    assert_eq!(Phase::GameOver, g2.phase());
    assert_eq!(score_before, g2.score());
    assert_eq!(1, g2.board().cell(0, 0));
}

#[test]
fn hard_drop_falls_to_rest_on_stack() {
    let mut g = GameState::new(1, 4);
    assert_eq!(Ok(true), g.spawn(vec![vec![1]]));
    assert!(g.hard_drop());
    assert_eq!(3, g.piece().as_ref().unwrap().row());
    assert_eq!(Phase::Clearing, g.tick());
    assert_eq!(Phase::Spawning, g.tick());
    // Width 1 clears the bottom row; rebuild a two-block stack.
    assert_eq!(Ok(true), g.spawn(vec![vec![2], vec![2]]));
    assert!(g.hard_drop());
    assert_eq!(2, g.piece().as_ref().unwrap().row());
}
