use tetris::board::Board;

fn l_shape() -> Vec<Vec<i8>> {
    vec![vec![1, 1, 1], vec![0, 0, 1]]
}

#[test]
fn new_board_is_empty() {
    let b = Board::new(4, 3);
    assert_eq!(4, b.width());
    assert_eq!(3, b.height());
    for r in 0..3 {
        for c in 0..4 {
            assert_eq!(0, b.cell(r, c));
        }
    }
}

#[test]
fn collides_past_left_edge() {
    let b = Board::new(4, 4);
    assert!(b.collides(&l_shape(), 0, -1));
}

#[test]
fn collides_past_right_edge() {
    let b = Board::new(4, 4);
    assert!(b.collides(&l_shape(), 0, 2));
}

#[test]
fn collides_past_top_edge() {
    let b = Board::new(4, 4);
    assert!(b.collides(&l_shape(), -1, 0));
}

#[test]
fn collides_past_bottom_edge() {
    let b = Board::new(4, 4);
    assert!(b.collides(&l_shape(), 3, 0));
}

#[test]
fn no_collision_on_empty_board_in_bounds() {
    let b = Board::new(4, 4);
    for row in 0..3 {
        for col in 0..2 {
            assert!(!b.collides(&l_shape(), row, col));
        }
    }
}

#[test]
fn zero_cells_are_transparent() {
    let mut b = Board::new(4, 4);
    // Lock a block at (1, 0); the L-shape's zero cell at local (1, 0)
    // lands exactly there and must not be tested.
    assert!(b.merge(&vec![vec![9]], 1, 0));
    assert!(!b.collides(&l_shape(), 0, 0));
}

#[test]
fn collides_on_overlap_with_locked_cell() {
    let mut b = Board::new(4, 4);
    assert!(b.merge(&vec![vec![9]], 0, 2));
    assert!(b.collides(&l_shape(), 0, 0));
}

#[test]
fn merge_writes_only_nonzero_cells() {
    let mut b = Board::new(4, 4);
    assert!(b.merge(&l_shape(), 1, 0));
    assert_eq!(1, b.cell(1, 0));
    assert_eq!(1, b.cell(1, 1));
    assert_eq!(1, b.cell(1, 2));
    assert_eq!(1, b.cell(2, 2));
    assert_eq!(0, b.cell(2, 0));
    assert_eq!(0, b.cell(2, 1));
    assert_eq!(0, b.cell(0, 0));
    assert_eq!(0, b.cell(3, 3));
}

#[test]
fn merge_rejects_colliding_placement() {
    let mut b = Board::new(4, 4);
    assert!(b.merge(&vec![vec![9]], 0, 0));
    assert!(!b.merge(&l_shape(), 0, 0));
    // The rejected merge left the board untouched.
    assert_eq!(9, b.cell(0, 0));
    assert_eq!(0, b.cell(0, 1));
    assert_eq!(0, b.cell(0, 2));
}

#[test]
fn clear_full_rows_on_fresh_board_clears_nothing() {
    let mut b = Board::new(4, 4);
    assert_eq!(0, b.clear_full_rows());
    for r in 0..4 {
        for c in 0..4 {
            assert_eq!(0, b.cell(r, c));
        }
    }
}

#[test]
fn clear_two_nonadjacent_full_rows() {
    // Rows 2 and 4 of 5 fully occupied; a marker in row 3 observes the
    // downward shift.
    let mut b = Board::new(3, 5);
    assert!(b.merge(&vec![vec![1, 1, 1]], 2, 0));
    assert!(b.merge(&vec![vec![2]], 3, 0));
    assert!(b.merge(&vec![vec![1, 1, 1]], 4, 0));
    let cleared = b.clear_full_rows();
    assert_eq!(2, cleared);
    assert_eq!(5, b.height());
    assert_eq!(3, b.width());
    // Two empty rows entered at the top; the marker row shifted down.
    for r in 0..4 {
        for c in 0..3 {
            assert_eq!(0, b.cell(r, c));
        }
    }
    assert_eq!(2, b.cell(4, 0));
    assert_eq!(0, b.cell(4, 1));
    assert_eq!(0, b.cell(4, 2));
}

#[test]
fn clear_simultaneous_adjacent_rows() {
    let mut b = Board::new(2, 3);
    assert!(b.merge(&vec![vec![7, 7], vec![7, 7]], 1, 0));
    assert_eq!(2, b.clear_full_rows());
    for r in 0..3 {
        for c in 0..2 {
            assert_eq!(0, b.cell(r, c));
        }
    }
}

#[test]
fn rows_snapshot_matches_cells() {
    let mut b = Board::new(2, 2);
    assert!(b.merge(&vec![vec![5]], 1, 1));
    let rows = b.rows();
    assert_eq!(vec![vec![0, 0], vec![0, 5]], *rows);
}
