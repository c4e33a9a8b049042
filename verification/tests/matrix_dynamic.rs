use lib::matrix::{MatrixDynamic, MatrixError};

fn m(rows: Vec<Vec<f64>>) -> MatrixDynamic<f64> {
    MatrixDynamic::new(rows).unwrap()
}

#[test]
fn identity() {
    assert_eq!(
        MatrixDynamic::identity(2, 0.0, 1.0),
        MatrixDynamic::new(vec![vec![1.0, 0.0], vec![0.0, 1.0]]).unwrap()
    );
    assert_eq!(
        MatrixDynamic::identity(3, 0.0, 1.0),
        MatrixDynamic::new(vec![
            vec![1.0, 0.0, 0.0],
            vec![0.0, 1.0, 0.0],
            vec![0.0, 0.0, 1.0]
        ])
        .unwrap()
    );
}

#[test]
fn transpose() {
    assert_eq!(
        MatrixDynamic::new(vec![
            vec![1.0, 4.0, 2.0, 3.0],
            vec![2.0, 3.0, 7.0, 0.0],
            vec![3.0, 7.0, 4.0, 4.0],
            vec![9.0, 1.0, 5.0, 0.0]
        ])
        .unwrap()
        .transpose(),
        MatrixDynamic::new(vec![
            vec![1.0, 2.0, 3.0, 9.0],
            vec![4.0, 3.0, 7.0, 1.0],
            vec![2.0, 7.0, 4.0, 5.0],
            vec![3.0, 0.0, 4.0, 0.0]
        ])
        .unwrap()
    );
}

#[test]
fn new_empty_has_no_columns() {
    let e = MatrixDynamic::<f64>::new(vec![]).unwrap();
    assert_eq!(e.rows(), 0);
    assert_eq!(e.cols(), 0);
    let one_empty_row = MatrixDynamic::<f64>::new(vec![vec![]]).unwrap();
    assert_eq!(one_empty_row.rows(), 1);
    assert_eq!(one_empty_row.cols(), 0);
}

#[test]
fn new_rejects_ragged_rows() {
    assert_eq!(
        MatrixDynamic::new(vec![vec![1.0, 2.0], vec![3.0]]),
        Err(MatrixError::NonUniformColumnLength)
    );
    assert_eq!(
        MatrixDynamic::new(vec![vec![1.0], vec![2.0], vec![3.0, 4.0]]),
        Err(MatrixError::NonUniformColumnLength)
    );
}

#[test]
fn rows_cols_and_data() {
    let a = m(vec![vec![1.0, 2.0, 3.0], vec![4.0, 5.0, 6.0]]);
    assert_eq!(a.rows(), 2);
    assert_eq!(a.cols(), 3);
    assert_eq!(a.data(), vec![vec![1.0, 2.0, 3.0], vec![4.0, 5.0, 6.0]]);
    assert_eq!(a.flatten(), vec![1.0, 2.0, 3.0, 4.0, 5.0, 6.0]);
}

#[test]
fn row_and_col() {
    let a = m(vec![vec![1.0, 2.0, 3.0], vec![4.0, 5.0, 6.0]]);
    assert_eq!(a.row(1).unwrap(), vec![&4.0, &5.0, &6.0]);
    assert_eq!(a.col(2).unwrap(), vec![&3.0, &6.0]);
    assert_eq!(a.row(2), Err(MatrixError::OutOfBoundsRC(2)));
    assert_eq!(a.col(3), Err(MatrixError::OutOfBoundsRC(3)));
}

#[test]
fn row_mut_and_col_mut_write_through() {
    let mut a = m(vec![vec![1.0, 2.0], vec![3.0, 4.0]]);
    for x in a.row_mut(0).unwrap() {
        *x = 10.0;
    }
    assert_eq!(a.data(), vec![vec![10.0, 10.0], vec![3.0, 4.0]]);
    let mut c = a.col_mut(1).unwrap();
    *c[1] = 7.0;
    drop(c);
    assert_eq!(a.data(), vec![vec![10.0, 10.0], vec![3.0, 7.0]]);
    assert!(a.row_mut(2).is_err());
    assert_eq!(a.col_mut(5).err(), Some(MatrixError::OutOfBoundsRC(5)));
}

#[test]
fn get_and_get_mut() {
    let mut a = m(vec![vec![1.0, 2.0], vec![3.0, 4.0]]);
    assert_eq!(a.get(1, 0), Ok(&3.0));
    assert_eq!(a.get(2, 0), Err(MatrixError::OutOfBounds(2, 0)));
    assert_eq!(a.get(0, 2), Err(MatrixError::OutOfBounds(0, 2)));
    *a.get_mut(0, 1).unwrap() = 9.0;
    assert_eq!(a.data(), vec![vec![1.0, 9.0], vec![3.0, 4.0]]);
    assert_eq!(a.get_mut(5, 5).err(), Some(MatrixError::OutOfBounds(5, 5)));
}

#[test]
fn remove_row_and_col() {
    let a = m(vec![vec![1.0, 2.0, 3.0], vec![4.0, 5.0, 6.0], vec![7.0, 8.0, 9.0]]);
    let r = a.clone().remove_row(1).unwrap();
    assert_eq!(r, m(vec![vec![1.0, 2.0, 3.0], vec![7.0, 8.0, 9.0]]));
    let c = a.clone().remove_col(0).unwrap();
    assert_eq!(c, m(vec![vec![2.0, 3.0], vec![5.0, 6.0], vec![8.0, 9.0]]));
    assert_eq!(a.clone().remove_row(3), Err(MatrixError::OutOfBoundsRC(3)));
    assert_eq!(a.remove_col(3), Err(MatrixError::OutOfBoundsRC(3)));
}

#[test]
fn remove_last_row_keeps_columns() {
    let a = m(vec![vec![1.0, 2.0, 3.0]]);
    let r = a.remove_row(0).unwrap();
    assert_eq!(r.rows(), 0);
    assert_eq!(r.cols(), 3);
}

#[test]
fn transpose_of_matrix_without_columns_is_empty() {
    let a = MatrixDynamic::<f64>::new(vec![vec![], vec![], vec![]]).unwrap();
    let t = a.transpose();
    assert_eq!(t.rows(), 0);
    assert_eq!(t.cols(), 0);
}

#[test]
fn transpose_twice_gives_back_the_matrix() {
    let a = m(vec![vec![1.0, 2.0, 3.0], vec![4.0, 5.0, 6.0]]);
    assert_eq!(a.transpose().transpose(), a);
}

#[test]
fn expand_grows_by_one() {
    let a = m(vec![vec![1.0, 2.0], vec![3.0, 4.0]]);
    assert_eq!(
        a.expand(0.0, 1.0),
        m(vec![vec![1.0, 2.0, 0.0], vec![3.0, 4.0, 0.0], vec![0.0, 0.0, 1.0]])
    );
    assert_eq!(
        MatrixDynamic::identity(3, 0.0, 1.0).expand(0.0, 1.0),
        MatrixDynamic::identity(4, 0.0, 1.0)
    );
}

#[test]
fn diagonal_of_square_and_non_square() {
    let a = m(vec![vec![1.0, 2.0], vec![3.0, 4.0]]);
    assert_eq!(a.diagonal(), Ok(vec![1.0, 4.0]));
    let b = m(vec![vec![1.0, 2.0, 3.0]]);
    assert_eq!(b.diagonal(), Err(MatrixError::NonSquareMatrix));
}

#[test]
fn diagonal_matches_every_cols_plus_one_flat_entry() {
    let a = m(vec![vec![1.0, 2.0, 3.0], vec![4.0, 5.0, 6.0], vec![7.0, 8.0, 9.0]]);
    let stepped: Vec<f64> = a.flatten().into_iter().step_by(a.cols() + 1).collect();
    assert_eq!(a.diagonal().unwrap(), stepped);
    assert_eq!(a.transpose().diagonal().unwrap(), stepped);
}

#[test]
fn zip_with_adds_and_checks_shape() {
    let a = m(vec![vec![1.0, 2.0], vec![3.0, 4.0]]);
    let b = m(vec![vec![10.0, 20.0], vec![30.0, 40.0]]);
    assert_eq!(
        a.clone().zip_with(b, |x, y| x + y).unwrap(),
        m(vec![vec![11.0, 22.0], vec![33.0, 44.0]])
    );
    let c = m(vec![vec![1.0, 2.0, 3.0]]);
    assert_eq!(
        a.zip_with(c, |x, y| x + y),
        Err(MatrixError::MissmatchDimension { lhs: (2, 2), rhs: (1, 3) })
    );
}

#[test]
fn map_applies_to_every_entry() {
    let a = m(vec![vec![1.0, -2.0], vec![3.0, 4.0]]);
    assert_eq!(a.map(|x| -x), m(vec![vec![-1.0, 2.0], vec![-3.0, -4.0]]));
}

#[test]
fn mul_with_multiplies_and_checks_shape() {
    let dot = |r: Vec<f64>, c: Vec<f64>| r.iter().zip(c.iter()).map(|(x, y)| x * y).sum::<f64>();
    let a = m(vec![vec![1.0, 2.0, 3.0], vec![4.0, 5.0, 6.0]]);
    let b = m(vec![vec![7.0, 8.0], vec![9.0, 10.0], vec![11.0, 12.0]]);
    assert_eq!(
        a.mul_with(&b, dot).unwrap(),
        m(vec![vec![58.0, 64.0], vec![139.0, 154.0]])
    );
    assert_eq!(
        a.mul_with(&a, dot),
        Err(MatrixError::MissmatchDimension { lhs: (2, 3), rhs: (2, 3) })
    );
    let id = MatrixDynamic::identity(3, 0.0, 1.0);
    assert_eq!(a.mul_with(&id, dot).unwrap(), a);
}

#[test]
fn mul_with_no_rows_has_no_columns() {
    let a = m(vec![vec![1.0, 2.0]]).remove_row(0).unwrap();
    let b = m(vec![vec![1.0, 2.0, 3.0], vec![4.0, 5.0, 6.0]]);
    let p = a
        .mul_with(&b, |r: Vec<f64>, c: Vec<f64>| r.iter().zip(c.iter()).map(|(x, y)| x * y).sum::<f64>())
        .unwrap();
    assert_eq!(p.rows(), 0);
    assert_eq!(p.cols(), 0);
}

#[test]
fn clone_is_equal() {
    let a = m(vec![vec![1.0, 2.0], vec![3.0, 4.0]]);
    assert_eq!(a.clone(), a);
}
