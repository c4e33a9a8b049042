use lib::matrix::{MatrixDynamic, MatrixError};
use lib::static_matrix::Matrix;

fn dot(r: Vec<&f32>, c: Vec<&f32>) -> f32 {
    r.iter().zip(c.iter()).map(|(x, y)| **x * **y).sum::<f32>()
}

#[test]
fn mul() {
    let a = Matrix::<4, 4, f32>::new([
        [21.0, 16.0, 61.0, 80.0],
        [69.0, 68.0, 76.0, 26.0],
        [60.0, 85.0, 82.0, 94.0],
        [94.0, 87.0, 51.0, 49.0],
    ]);
    let b = Matrix::<4, 4, f32>::new([
        [79.0, 49.0, 20.0, 64.0],
        [28.0, 7.0, 39.0, 95.0],
        [55.0, 35.0, 63.0, 92.0],
        [51.0, 50.0, 82.0, 90.0],
    ]);
    let expected = Matrix::<4, 4, f32>::new([
        [9542.0, 7276.0, 11447.0, 15676.0],
        [12861.0, 7817.0, 10952.0, 20208.0],
        [16424.0, 11105.0, 17389.0, 27919.0],
        [15166.0, 9450.0, 12504.0, 23383.0],
    ]);

    assert_eq!(a.mul_with(&b, dot), expected);
}

#[test]
fn static_transpose() {
    let a = Matrix::<2, 3, i32>::new([[1, 2, 3], [4, 5, 6]]);
    assert_eq!(a.transpose(), Matrix::<3, 2, i32>::new([[1, 4], [2, 5], [3, 6]]));
    assert_eq!(a.transpose().transpose(), a);
}

#[test]
fn static_row_and_col() {
    let a = Matrix::<2, 3, i32>::new([[1, 2, 3], [4, 5, 6]]);
    assert_eq!(a.row(1), vec![&4, &5, &6]);
    assert_eq!(a.col(2), vec![&3, &6]);
}

#[test]
fn static_identity() {
    assert_eq!(
        Matrix::<3, 3, f32>::identity(0.0, 1.0),
        Matrix::new([[1.0, 0.0, 0.0], [0.0, 1.0, 0.0], [0.0, 0.0, 1.0]])
    );
}

#[test]
fn static_map() {
    let a = Matrix::<2, 2, f32>::new([[1.0, 2.0], [3.0, 4.0]]);
    assert_eq!(a.map(|x| *x * 2.0), Matrix::new([[2.0, 4.0], [6.0, 8.0]]));
    assert_eq!(a.map(|x| *x as f64), Matrix::new([[1.0f64, 2.0], [3.0, 4.0]]));
}

#[test]
fn mul_with_non_square() {
    let a = Matrix::<2, 3, f32>::new([[1.0, 2.0, 3.0], [4.0, 5.0, 6.0]]);
    let b = Matrix::<3, 1, f32>::new([[1.0], [0.0], [2.0]]);
    assert_eq!(a.mul_with(&b, dot), Matrix::new([[7.0], [16.0]]));
}

#[test]
fn into_dynamic_and_back() {
    let a = Matrix::<2, 3, f32>::new([[1.0, 2.0, 3.0], [4.0, 5.0, 6.0]]);
    let d = a.clone().into_dynamic();
    assert_eq!(d, MatrixDynamic::new(vec![vec![1.0, 2.0, 3.0], vec![4.0, 5.0, 6.0]]).unwrap());
    let back: Matrix<2, 3, f32> = d.try_into_static().unwrap();
    assert_eq!(back, a);
}

#[test]
fn try_into_static_checks_shape() {
    let d = MatrixDynamic::new(vec![vec![1.0f32, 2.0], vec![3.0, 4.0]]).unwrap();
    let r: Result<Matrix<2, 3, f32>, MatrixError> = d.try_into_static();
    assert_eq!(r, Err(MatrixError::MissmatchDimension { lhs: (2, 2), rhs: (2, 3) }));
}

#[test]
fn matrix_without_rows_does_not_come_back() {
    let a = Matrix::<0, 2, f32>::new([]);
    let d = a.into_dynamic();
    assert_eq!(d.cols(), 0);
    let r: Result<Matrix<0, 2, f32>, MatrixError> = d.try_into_static();
    assert_eq!(r, Err(MatrixError::MissmatchDimension { lhs: (0, 0), rhs: (0, 2) }));
}

#[test]
fn static_transpose_copy() {
    let a = Matrix::<2, 3, f32>::new([[1.0, 2.0, 3.0], [4.0, 5.0, 6.0]]);
    assert_eq!(a.transpose_copy(), Matrix::<3, 2, f32>::new([[1.0, 4.0], [2.0, 5.0], [3.0, 6.0]]));
    assert_eq!(a.transpose_copy(), a.transpose());
}

#[test]
fn law_product_transpose_example() {
    let dot_i64 = |r: Vec<&i64>, c: Vec<&i64>| r.iter().zip(c.iter()).map(|(x, y)| **x * **y).sum::<i64>();
    let a = Matrix::<2, 3, i64>::new([[1, 2, 3], [4, 5, 6]]);
    let b = Matrix::<3, 2, i64>::new([[7, 8], [9, 10], [11, 12]]);
    let ab_t = a.mul_with(&b, dot_i64).transpose_copy();
    let bt_at = b.transpose_copy().mul_with(&a.transpose_copy(), dot_i64);
    assert_eq!(ab_t, bt_at);
    assert_eq!(ab_t, Matrix::<2, 2, i64>::new([[58, 139], [64, 154]]));
}

#[test]
fn law_static_round_trip_example() {
    let a = Matrix::<1, 2, i64>::new([[3, 4]]);
    let back: Result<Matrix<1, 2, i64>, MatrixError> = a.clone().into_dynamic().try_into_static();
    assert_eq!(back, Ok(a));
}
