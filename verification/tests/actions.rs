use tetris::actions::{rotate_clockwise, TetrisError};

#[test]
fn rotate_l_shape() {
    let before = vec![
        vec![1, 1, 1],
        vec![0, 0, 1],
    ];

    let actual = rotate_clockwise(before).unwrap();

    let expect = vec![
        vec![0, 1],
        vec![0, 1],
        vec![1, 1]
    ];

    assert_eq!(expect, actual, "Expected {:?}, got {:?}", expect, actual);
}

#[test]
fn rotate_o_shape() {
    let before = vec![
        vec![7, 7],
        vec![7, 7],
    ];

    let actual = rotate_clockwise(before).unwrap();

    let expect = vec![
        vec![7, 7],
        vec![7, 7],
    ];

    assert_eq!(expect, actual, "Expected {:?}, got {:?}", expect, actual);
}

#[test]
fn rotate_i_shape() {
    let before = vec![
        vec![6, 6, 6, 6],
    ];

    let actual = rotate_clockwise(before).unwrap();

    let expect = vec![
        vec![6],
        vec![6],
        vec![6],
        vec![6],
    ];

    assert_eq!(expect, actual, "Expected {:?}, got {:?}", expect, actual);
}

#[test]
fn rotate_i_shape_twice() {
    let before = vec![
        vec![6, 6, 6, 6],
    ];

    let actual = rotate_clockwise(rotate_clockwise(before.to_vec()).unwrap()).unwrap();

    assert_eq!(before, actual, "Expected {:?}, got {:?}", before, actual);
}

#[test]
fn rotate_single_cell_maps_to_itself() {
    let before = vec![vec![5]];
    let actual = rotate_clockwise(before.to_vec()).unwrap();
    assert_eq!(before, actual);
}

#[test]
fn rotate_single_column_to_single_row() {
    let before = vec![vec![3], vec![4], vec![5]];
    let actual = rotate_clockwise(before).unwrap();
    assert_eq!(vec![vec![5, 4, 3]], actual);
}

#[test]
fn rotate_rejects_empty_matrix() {
    let before: Vec<Vec<i8>> = Vec::new();
    assert_eq!(Err(TetrisError::InvalidShape), rotate_clockwise(before));
}

#[test]
fn rotate_rejects_jagged_matrix() {
    let before = vec![vec![1, 2], vec![3]];
    assert_eq!(Err(TetrisError::InvalidShape), rotate_clockwise(before));
}

#[test]
fn rotate_four_times_restores_rectangle() {
    let before = vec![vec![1, 2, 3], vec![4, 5, 6]];
    let mut m = before.to_vec();
    for _ in 0..4 {
        m = rotate_clockwise(m).unwrap();
    }
    assert_eq!(before, m);
}

#[test]
fn rotate_twice_square_is_half_turn() {
    let before = vec![vec![1, 2], vec![3, 4]];
    let actual = rotate_clockwise(rotate_clockwise(before).unwrap()).unwrap();
    assert_eq!(vec![vec![4, 3], vec![2, 1]], actual);
}
