use particle_life::matrix::{BehaviorMatrix, MatrixError};

#[test]
fn from_rows_keeps_an_asymmetric_matrix() {
    let m: BehaviorMatrix =
        BehaviorMatrix::from_rows(vec![vec![0, 1_000_000], vec![-1_000_000, 0]]).unwrap();
    assert_eq!(m.size(), 2);
    assert_eq!(m.lookup(0, 1), 1_000_000);
    assert_eq!(m.lookup(1, 0), -1_000_000);
    assert_ne!(m.lookup(0, 1), m.lookup(1, 0));
    assert_eq!(m.lookup(0, 0), 0);
    assert_eq!(m.lookup(1, 1), 0);
}

#[test]
fn lookup_goes_by_row_then_column() {
    let m: BehaviorMatrix = BehaviorMatrix::from_rows(vec![
        vec![1, 2, 3],
        vec![4, 5, 6],
        vec![7, 8, 9],
    ])
    .unwrap();
    assert_eq!(m.lookup(0, 2), 3);
    assert_eq!(m.lookup(2, 0), 7);
    assert_eq!(m.lookup(1, 2), 6);
}

#[test]
fn from_rows_refuses_an_empty_table() {
    assert_eq!(BehaviorMatrix::from_rows(Vec::new()).err(), Some(MatrixError::Empty));
}

#[test]
fn from_rows_refuses_a_ragged_table() {
    assert_eq!(
        BehaviorMatrix::from_rows(vec![vec![0, 0], vec![0]]).err(),
        Some(MatrixError::RaggedRow { row: 1 })
    );
    assert_eq!(
        BehaviorMatrix::from_rows(vec![vec![0, 0, 0], vec![0, 0]]).err(),
        Some(MatrixError::RaggedRow { row: 0 })
    );
    assert_eq!(
        BehaviorMatrix::from_rows(vec![Vec::new()]).err(),
        Some(MatrixError::RaggedRow { row: 0 })
    );
}

#[test]
fn from_rows_refuses_a_cell_outside_the_unit_interval() {
    assert_eq!(
        BehaviorMatrix::from_rows(vec![vec![0, 1_000_001], vec![0, 0]]).err(),
        Some(MatrixError::CellOutOfRange { row: 0, column: 1 })
    );
    assert_eq!(
        BehaviorMatrix::from_rows(vec![vec![0, 1_000_000], vec![-1_000_001, 0]]).err(),
        Some(MatrixError::CellOutOfRange { row: 1, column: 0 })
    );
}

#[test]
fn from_rows_reports_the_first_fault() {
    assert_eq!(
        BehaviorMatrix::from_rows(vec![vec![0, 0], vec![2_000_000, 0, 0]]).err(),
        Some(MatrixError::RaggedRow { row: 1 })
    );
    assert_eq!(
        BehaviorMatrix::from_rows(vec![vec![0, 5_000_000], vec![0]]).err(),
        Some(MatrixError::CellOutOfRange { row: 0, column: 1 })
    );
    assert_eq!(
        BehaviorMatrix::from_rows(vec![vec![-3_000_000, 5_000_000], vec![0, 0]]).err(),
        Some(MatrixError::CellOutOfRange { row: 0, column: 0 })
    );
}

#[test]
fn from_rows_accepts_the_ends_of_the_interval() {
    let m: BehaviorMatrix = BehaviorMatrix::from_rows(vec![vec![1_000_000]]).unwrap();
    assert_eq!(m.lookup(0, 0), 1_000_000);
    let m: BehaviorMatrix = BehaviorMatrix::from_rows(vec![vec![-1_000_000]]).unwrap();
    assert_eq!(m.lookup(0, 0), -1_000_000);
}

#[test]
fn random_matrix_is_square_and_in_range() {
    let m: BehaviorMatrix = BehaviorMatrix::random(12);
    assert_eq!(m.size(), 12);
    for from in 0..12 {
        for to in 0..12 {
            let cell: i64 = m.lookup(from, to);
            assert!(-1_000_000 <= cell && cell <= 1_000_000);
        }
    }
}

#[test]
fn random_matrix_cells_are_drawn_not_copied() {
    let m: BehaviorMatrix = BehaviorMatrix::random(8);
    let first: i64 = m.lookup(0, 0);
    let mut differs: bool = false;
    for from in 0..8 {
        for to in 0..8 {
            if m.lookup(from, to) != first {
                differs = true;
            }
        }
    }
    assert!(differs);
}

#[test]
fn generated_matrix_draws_its_size_from_the_interval() {
    let mut sizes: Vec<usize> = Vec::new();
    for _ in 0..64 {
        let m: BehaviorMatrix = BehaviorMatrix::generate(2, 16);
        assert!(2 <= m.size() && m.size() <= 16);
        sizes.push(m.size());
    }
    assert!(sizes.iter().any(|n| *n != sizes[0]));
}

#[test]
fn generate_with_one_size_only() {
    let m: BehaviorMatrix = BehaviorMatrix::generate(3, 3);
    assert_eq!(m.size(), 3);
}

#[test]
fn regenerate_keeps_the_size() {
    let mut m: BehaviorMatrix = BehaviorMatrix::from_rows(vec![
        vec![1, 1, 1, 1],
        vec![1, 1, 1, 1],
        vec![1, 1, 1, 1],
        vec![1, 1, 1, 1],
    ])
    .unwrap();
    m.regenerate();
    assert_eq!(m.size(), 4);
    let mut changed: bool = false;
    for from in 0..4 {
        for to in 0..4 {
            let cell: i64 = m.lookup(from, to);
            assert!(-1_000_000 <= cell && cell <= 1_000_000);
            if cell != 1 {
                changed = true;
            }
        }
    }
    assert!(changed);
}
