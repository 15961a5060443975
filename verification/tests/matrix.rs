use dressed_trajectory_fields::matrix::{kron_eye, project_block_range, Matrix, ShapeError};

fn m(rows: Vec<Vec<f64>>) -> Matrix<f64> {
    Matrix::from_rows(rows).unwrap()
}

#[test]
fn from_rows_accepts_rectangular_tables() {
    let a = m(vec![vec![1.0, 2.0, 3.0], vec![4.0, 5.0, 6.0]]);
    assert_eq!(a.nrows(), 2);
    assert_eq!(a.ncols(), 3);
    assert_eq!(a.get(1, 2), 6.0);
    assert_eq!(a.into_rows(), vec![vec![1.0, 2.0, 3.0], vec![4.0, 5.0, 6.0]]);
}

#[test]
fn from_rows_refuses_ragged_tables() {
    let r = Matrix::from_rows(vec![vec![1.0, 2.0], vec![3.0]]);
    assert!(matches!(r, Err(ShapeError::RaggedRows)));
}

#[test]
fn from_rows_of_nothing_is_empty() {
    let e = Matrix::<f64>::from_rows(Vec::new()).unwrap();
    assert_eq!(e.nrows(), 0);
    assert_eq!(e.ncols(), 0);
}

#[test]
fn filled_matrix() {
    let z = Matrix::filled(2, 3, 0.0);
    assert_eq!(z.into_rows(), vec![vec![0.0; 3]; 2]);
}

#[test]
fn kron_eye_repeats_block_on_diagonal() {
    let b = m(vec![vec![1.0, 2.0], vec![3.0, 4.0]]);
    let k = kron_eye(&b, 2, 0.0);
    assert_eq!(
        k.into_rows(),
        vec![
            vec![1.0, 2.0, 0.0, 0.0],
            vec![3.0, 4.0, 0.0, 0.0],
            vec![0.0, 0.0, 1.0, 2.0],
            vec![0.0, 0.0, 3.0, 4.0],
        ]
    );
}

#[test]
fn kron_eye_of_rectangular_block() {
    let b = m(vec![vec![7.0, 8.0, 9.0]]);
    let k = kron_eye(&b, 2, 0.0);
    assert_eq!(k.into_rows(), vec![vec![7.0, 8.0, 9.0, 0.0, 0.0, 0.0], vec![0.0, 0.0, 0.0, 7.0, 8.0, 9.0]]);
}

fn full(n: usize) -> Matrix<f64> {
    m((0..n).map(|i| (0..n).map(|j| (10 * i + j) as f64 + 1.0).collect()).collect())
}

#[test]
fn projection_keeps_near_blocks_only() {
    // Three time blocks of one coordinate each.
    let a = full(3);
    let p = project_block_range(&a, 1, 3, 1, 0.0);
    assert_eq!(
        p.into_rows(),
        vec![vec![1.0, 2.0, 0.0], vec![11.0, 12.0, 13.0], vec![0.0, 22.0, 23.0]]
    );
}

#[test]
fn projection_with_two_coordinates_per_block() {
    let a = full(4);
    let p = project_block_range(&a, 2, 2, 0, 0.0);
    assert_eq!(
        p.into_rows(),
        vec![
            vec![1.0, 2.0, 0.0, 0.0],
            vec![11.0, 12.0, 0.0, 0.0],
            vec![0.0, 0.0, 23.0, 24.0],
            vec![0.0, 0.0, 33.0, 34.0],
        ]
    );
}

#[test]
fn projection_zeroes_rows_beyond_the_trajectory() {
    let a = full(3);
    let p = project_block_range(&a, 1, 2, 5, 0.0);
    assert_eq!(p.into_rows(), vec![vec![1.0, 2.0, 0.0], vec![11.0, 12.0, 0.0], vec![0.0, 0.0, 0.0]]);
}

#[test]
fn projection_is_idempotent_and_composes() {
    let a = full(6);
    let p2 = project_block_range(&a, 2, 3, 1, 0.0);
    let again = project_block_range(&p2, 2, 3, 1, 0.0);
    assert_eq!(again.into_rows(), project_block_range(&a, 2, 3, 1, 0.0).into_rows());
    let p20 = project_block_range(&project_block_range(&a, 2, 3, 2, 0.0), 2, 3, 0, 0.0);
    assert_eq!(p20.into_rows(), project_block_range(&a, 2, 3, 0, 0.0).into_rows());
}

#[test]
fn full_range_projection_is_identity() {
    let a = full(6);
    let p = project_block_range(&a, 2, 3, 2, 0.0);
    assert_eq!(p.into_rows(), full(6).into_rows());
}

#[test]
fn block_diagonal_matrix_is_within_range_zero() {
    let b = m(vec![vec![1.0, 2.0], vec![3.0, 4.0]]);
    let k = kron_eye(&b, 3, 0.0);
    let p = project_block_range(&k, 2, 3, 0, 0.0);
    assert_eq!(p.into_rows(), kron_eye(&b, 3, 0.0).into_rows());
}

#[test]
fn projection_keeps_symmetry() {
    let n = 6;
    let s = m((0..n).map(|i| (0..n).map(|j| (i * j + i + j) as f64).collect()).collect());
    let p = project_block_range(&s, 2, 3, 1, 0.0).into_rows();
    for i in 0..n {
        for j in 0..n {
            assert_eq!(p[i][j], p[j][i]);
        }
    }
    assert_eq!(p[0][5], 0.0);
    assert_eq!(p[1][3], 7.0);
}
