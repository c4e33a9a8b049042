use lib::matrix::MatrixDynamic;

fn m(rows: Vec<Vec<i64>>) -> MatrixDynamic<i64> {
    MatrixDynamic::new(rows).unwrap()
}

#[test]
fn law_transpose_involution_example() {
    let a = m(vec![vec![1, 2], vec![3, 4], vec![5, 6]]);
    assert_eq!(a.transpose().transpose(), a);
    let empty = m(vec![]);
    assert_eq!(empty.transpose().transpose(), empty);
}

#[test]
fn law_minor_order_example() {
    let a = m(vec![vec![1, 2, 3], vec![4, 5, 6], vec![7, 8, 9]]);
    let rc = a.clone().remove_row(1).unwrap().remove_col(2).unwrap();
    let cr = a.remove_col(2).unwrap().remove_row(1).unwrap();
    assert_eq!(rc, cr);
    assert_eq!(rc, m(vec![vec![1, 2], vec![7, 8]]));
}

#[test]
fn law_identity_symmetric_example() {
    let id = MatrixDynamic::identity(4, 0i64, 1i64);
    assert_eq!(id.transpose(), id);
}

#[test]
fn law_expand_identity_example() {
    for n in 0..5usize {
        assert_eq!(
            MatrixDynamic::identity(n, 0i64, 1i64).expand(0, 1),
            MatrixDynamic::identity(n + 1, 0i64, 1i64)
        );
    }
}

#[test]
fn law_transpose_remove_col_example() {
    let a = m(vec![vec![1, 2, 3], vec![4, 5, 6]]);
    let lhs = a.clone().remove_col(1).unwrap().transpose();
    let rhs = a.transpose().remove_row(1).unwrap();
    assert_eq!(lhs, rhs);
}

#[test]
fn law_diagonal_transpose_example() {
    let a = m(vec![vec![1, 2, 3], vec![4, 5, 6], vec![7, 8, 9]]);
    assert_eq!(a.transpose().diagonal(), a.diagonal());
    assert_eq!(a.diagonal(), Ok(vec![1, 5, 9]));
}

#[test]
fn law_flatten_layout_example() {
    let a = m(vec![vec![1, 2, 3], vec![4, 5, 6]]);
    let f = a.flatten();
    assert_eq!(f.len(), a.rows() * a.cols());
    for i in 0..a.rows() {
        for j in 0..a.cols() {
            assert_eq!(f[i * a.cols() + j], *a.get(i, j).unwrap());
        }
    }
}

#[test]
fn law_diagonal_in_flatten_example() {
    let a = m(vec![vec![1, 2], vec![3, 4]]);
    let f = a.flatten();
    assert_eq!(vec![f[0], f[3]], a.diagonal().unwrap());
}
