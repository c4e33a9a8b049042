use vstd::prelude::*;

use crate::matrix::{column_of, deref_all, identity_of, transpose_of, MatrixDynamic, MatrixError};

verus! {

/// `<[T; N] as TryFrom<Vec<T>>>::try_from`: std documents that it hands back
/// the entire contents of the vector as an array exactly when the vector's
/// length is `N`, and hands the vector back unchanged otherwise.
#[verifier::external_body]
fn vec_into_array<T, const N: usize>(v: Vec<T>) -> (res: Result<[T; N], Vec<T>>)
    ensures
        match res {
            Ok(a) => v@.len() == N && a@ == v@,
            Err(w) => v@.len() != N && w@ == v@,
        },
{
    <[T; N]>::try_from(v)
}

/// Turns a vector of length `N` into an array with the same items.
fn array_from_vec<T, const N: usize>(v: Vec<T>) -> (a: [T; N])
    requires
        v@.len() == N,
    ensures
        a@ == v@,
{
    match vec_into_array::<T, N>(v) {
        Ok(a) => a,
        Err(_) => vstd::pervasive::unreached(),
    }
}

/// The rows of a two-dimensional array, each as a sequence.
pub open spec fn array_rows<T, const R: usize, const C: usize>(a: [[T; C]; R]) -> Seq<Seq<T>> {
    a@.map_values(|r: [T; C]| r@)
}

/// `x` is what `dot` returned for some pair of vectors of references to the
/// entries of `row` and of `col`.
pub open spec fn ref_dot_entry<'a, T: 'a, F: Fn(Vec<&'a T>, Vec<&'a T>) -> T>(
    dot: F,
    row: Seq<T>,
    col: Seq<T>,
    x: T,
) -> bool {
    exists|a: Vec<&'a T>, b: Vec<&'a T>|
        deref_all(a@) == row && deref_all(b@) == col && #[trigger] call_ensures(dot, (a, b), x)
}

/// An `R` by `C` matrix of `T`, stored row by row.
#[derive(Clone, Debug, PartialEq)]
pub struct Matrix<const R: usize, const C: usize, T> where T: Clone + PartialEq {
    data: [[T; C]; R],
}

impl<const R: usize, const C: usize, T> Matrix<R, C, T> where T: Clone + PartialEq {
    /// The entries, row by row.
    pub closed spec fn view(&self) -> Seq<Seq<T>> {
        array_rows(self.data)
    }

    /// The view has `R` rows of `C` entries each.
    pub proof fn lemma_shape(&self)
        ensures
            self@.len() == R,
            forall|i: int| 0 <= i < R ==> #[trigger] self@[i].len() == C,
    {
        assert forall|i: int| 0 <= i < R implies #[trigger] self@[i].len() == C by {
            assert(self@[i] == self.data@[i]@);
        }
    }

    /// Wraps the given rows.
    pub fn new(data: [[T; C]; R]) -> (m: Self)
        ensures
            m@ == array_rows(data),
    {
        Matrix { data }
    }

    /// Gets column `col`: the entry of that column in each row, top to bottom.
    pub fn col(&self, col: usize) -> (v: Vec<&T>)
        requires
            col < C,
        ensures
            v@.len() == R,
            forall|r: int| 0 <= r < R ==> *#[trigger] v@[r] == self@[r][col as int],
    {
        let mut v: Vec<&T> = Vec::new();
        for r in 0..R
            invariant
                col < C,
                v@.len() == r,
                forall|k: int| 0 <= k < r ==> *#[trigger] v@[k] == self@[k][col as int],
        {
            v.push(&self.data[r][col]);
            assert(self@[r as int] == self.data@[r as int]@);
        }
        v
    }

    /// Gets row `row`: its entries, left to right.
    pub fn row(&self, row: usize) -> (v: Vec<&T>)
        requires
            row < R,
        ensures
            v@.len() == C,
            forall|c: int| 0 <= c < C ==> *#[trigger] v@[c] == self@[row as int][c],
    {
        let mut v: Vec<&T> = Vec::new();
        let ghost the_row = self@[row as int];
        assert(the_row == self.data@[row as int]@);
        for c in 0..C
            invariant
                row < R,
                the_row == self.data@[row as int]@,
                the_row == self@[row as int],
                v@.len() == c,
                forall|k: int| 0 <= k < c ==> *#[trigger] v@[k] == the_row[k],
        {
            v.push(&self.data[row][c]);
        }
        v
    }

    /// Applies `f` to every entry.
    pub fn map<U, F: Fn(&T) -> U>(&self, f: F) -> (m: Matrix<R, C, U>)
        where
            U: Clone + PartialEq,
        requires
            forall|a: &T| #[trigger] f.requires((a,)),
        ensures
            forall|i: int, j: int|
                0 <= i < R && 0 <= j < C ==> #[trigger] f.ensures((&self@[i][j],), m@[i][j]),
    {
        let mut rows: Vec<[U; C]> = Vec::new();
        for i in 0..R
            invariant
                forall|a: &T| #[trigger] f.requires((a,)),
                rows@.len() == i,
                forall|k: int, j: int|
                    0 <= k < i && 0 <= j < C ==> #[trigger] f.ensures((&self@[k][j],), rows@[k]@[j]),
        {
            let mut row: Vec<U> = Vec::new();
            for j in 0..C
                invariant
                    i < R,
                    forall|a: &T| #[trigger] f.requires((a,)),
                    row@.len() == j,
                    forall|l: int| 0 <= l < j ==> #[trigger] f.ensures((&self@[i as int][l],), row@[l]),
            {
                assert(self@[i as int] == self.data@[i as int]@);
                let x = f(&self.data[i][j]);
                row.push(x);
            }
            rows.push(array_from_vec(row));
        }
        let m = Matrix { data: array_from_vec(rows) };
        assert forall|i: int, j: int| 0 <= i < R && 0 <= j < C implies #[trigger] f.ensures(
            (&self@[i][j],),
            m@[i][j],
        ) by {
            assert(m@[i] == m.data@[i]@);
        }
        m
    }

    /// [Transpose](https://en.wikipedia.org/wiki/Transpose): entry (i, j) of the
    /// result is a clone of entry (j, i) of `self`.
    pub fn transpose(&self) -> (t: Matrix<C, R, T>)
        ensures
            forall|i: int, j: int|
                0 <= i < C && 0 <= j < R ==> cloned(self@[j][i], #[trigger] t@[i][j]),
    {
        let mut cols: Vec<[T; R]> = Vec::new();
        for c in 0..C
            invariant
                cols@.len() == c,
                forall|i: int, j: int|
                    0 <= i < c && 0 <= j < R ==> cloned(self@[j][i], #[trigger] cols@[i]@[j]),
        {
            let mut column: Vec<T> = Vec::new();
            for r in 0..R
                invariant
                    c < C,
                    column@.len() == r,
                    forall|j: int| 0 <= j < r ==> cloned(self@[j][c as int], #[trigger] column@[j]),
            {
                let x = self.data[r][c].clone();
                assert(self@[r as int] == self.data@[r as int]@);
                column.push(x);
            }
            let a: [T; R] = array_from_vec(column);
            cols.push(a);
        }
        let t = Matrix { data: array_from_vec(cols) };
        assert forall|i: int, j: int| 0 <= i < C && 0 <= j < R implies cloned(
            self@[j][i],
            #[trigger] t@[i][j],
        ) by {
            assert(t@[i] == t.data@[i]@);
        }
        t
    }
}

impl<const R: usize, const C: usize, T> Matrix<R, C, T> where T: Clone + PartialEq {
    /// Matrix product, with `dot` turning row `i` of `self` and column `j` of
    /// `rhs` into entry (`i`, `j`).
    pub fn mul_with<const C2: usize, F>(&self, rhs: &Matrix<C, C2, T>, dot: F) -> (m: Matrix<R, C2, T>)
        where
            F: for<'a> Fn(Vec<&'a T>, Vec<&'a T>) -> T,
        requires
            forall|a: Vec<&T>, b: Vec<&T>| #[trigger] dot.requires((a, b)),
        ensures
            product_with(dot, self@, rhs@, R as nat, C2 as nat, m@),
    {
        let mut rows: Vec<[T; C2]> = Vec::new();
        for i in 0..R
            invariant
                forall|a: Vec<&T>, b: Vec<&T>| #[trigger] dot.requires((a, b)),
                rows@.len() == i,
                forall|k: int, j: int|
                    0 <= k < i && 0 <= j < C2 ==> #[trigger] ref_dot_entry(
                        dot,
                        self@[k],
                        column_of(rhs@, j),
                        rows@[k]@[j],
                    ),
        {
            let mut row: Vec<T> = Vec::new();
            for j in 0..C2
                invariant
                    i < R,
                    forall|a: Vec<&T>, b: Vec<&T>| #[trigger] dot.requires((a, b)),
                    row@.len() == j,
                    forall|l: int|
                        0 <= l < j ==> #[trigger] ref_dot_entry(dot, self@[i as int], column_of(rhs@, l), row@[l]),
            {
                let a = self.row(i);
                let b = rhs.col(j);
                proof {
                    self.lemma_shape();
                    rhs.lemma_shape();
                    assert(deref_all(a@) == self@[i as int]);
                    assert(deref_all(b@) == column_of(rhs@, j as int));
                }
                let ghost (ga, gb) = (a, b);
                let x = dot(a, b);
                assert(call_ensures(dot, (ga, gb), x));
                row.push(x);
                assert(ref_dot_entry(dot, self@[i as int], column_of(rhs@, j as int), row@[j as int]));
            }
            rows.push(array_from_vec(row));
        }
        let m = Matrix { data: array_from_vec(rows) };
        assert forall|i: int, j: int| 0 <= i < R && 0 <= j < C2 implies #[trigger] ref_dot_entry(
            dot,
            self@[i],
            column_of(rhs@, j),
            m@[i][j],
        ) by {
            assert(m@[i] == m.data@[i]@);
        }
        m
    }
}

impl<const D: usize, T> Matrix<D, D, T> where T: Copy + PartialEq {
    /// The identity matrix: `one` on the diagonal, `zero` everywhere else.
    pub fn identity(zero: T, one: T) -> (m: Self)
        ensures
            m@ == identity_of(D as nat, zero, one),
    {
        let mut rows: Vec<[T; D]> = Vec::new();
        for i in 0..D
            invariant
                rows@.len() == i,
                forall|k: int| 0 <= k < i ==> #[trigger] rows@[k]@ == identity_of(D as nat, zero, one)[k],
        {
            let mut row: Vec<T> = Vec::new();
            for j in 0..D
                invariant
                    i < D,
                    row@.len() == j,
                    forall|l: int| 0 <= l < j ==> #[trigger] row@[l] == (if i == l { one } else { zero }),
            {
                if j == i {
                    row.push(one);
                } else {
                    row.push(zero);
                }
            }
            assert(row@ == identity_of(D as nat, zero, one)[i as int]);
            rows.push(array_from_vec(row));
        }
        let m = Matrix { data: array_from_vec(rows) };
        assert forall|i: int| 0 <= i < D implies #[trigger] m@[i] == identity_of(D as nat, zero, one)[i] by {
            assert(m@[i] == m.data@[i]@);
        }
        assert(m@ == identity_of(D as nat, zero, one));
        m
    }
}

impl<const R: usize, const C: usize, T> Matrix<R, C, T> where T: Copy + PartialEq {
    /// [Transpose](https://en.wikipedia.org/wiki/Transpose) by copying: entry
    /// (i, j) of the result is entry (j, i) of `self`.
    pub fn transpose_copy(&self) -> (t: Matrix<C, R, T>)
        ensures
            t@ == transpose_of(self@, C as nat),
    {
        proof {
            self.lemma_shape();
        }
        let mut cols: Vec<[T; R]> = Vec::new();
        for c in 0..C
            invariant
                self@.len() == R,
                forall|k: int| 0 <= k < R ==> #[trigger] self@[k].len() == C,
                cols@.len() == c,
                forall|k: int| 0 <= k < c ==> #[trigger] cols@[k]@ == column_of(self@, k),
        {
            let mut column: Vec<T> = Vec::new();
            for r in 0..R
                invariant
                    c < C,
                    self@.len() == R,
                    column@.len() == r,
                    forall|j: int| 0 <= j < r ==> #[trigger] column@[j] == self@[j][c as int],
            {
                assert(self@[r as int] == self.data@[r as int]@);
                column.push(self.data[r][c]);
            }
            assert(column@ == column_of(self@, c as int));
            cols.push(array_from_vec(column));
        }
        let t = Matrix { data: array_from_vec(cols) };
        assert forall|i: int| 0 <= i < C implies #[trigger] t@[i] == transpose_of(self@, C as nat)[i] by {
            assert(t@[i] == t.data@[i]@);
        }
        assert(t@ == transpose_of(self@, C as nat));
        t
    }

    /// The same entries as a dynamically sized matrix. It is built from the
    /// rows, so a matrix without rows becomes the empty matrix.
    pub fn into_dynamic(self) -> (d: MatrixDynamic<T>)
        ensures
            dynamic_of(self, d),
    {
        proof {
            self.lemma_shape();
        }
        let mut rows: Vec<Vec<T>> = Vec::new();
        for i in 0..R
            invariant
                self@.len() == R,
                forall|k: int| 0 <= k < R ==> #[trigger] self@[k].len() == C,
                rows@.len() == i,
                forall|k: int| 0 <= k < i ==> #[trigger] rows@[k]@ == self@[k],
        {
            let mut row: Vec<T> = Vec::new();
            for j in 0..C
                invariant
                    i < R,
                    self@[i as int].len() == C,
                    row@.len() == j,
                    forall|l: int| 0 <= l < j ==> #[trigger] row@[l] == self@[i as int][l],
            {
                row.push(self.data[i][j]);
                assert(self@[i as int] == self.data@[i as int]@);
            }
            assert(row@ == self@[i as int]);
            rows.push(row);
        }
        let ghost rows_view = crate::matrix::rows_of(rows@);
        assert(rows_view == self@);
        proof {
            if R > 0 {
                assert(crate::matrix::uniform(rows_view));
            }
        }
        match MatrixDynamic::new(rows) {
            Ok(d) => d,
            Err(_) => vstd::pervasive::unreached(),
        }
    }
}

impl<T> MatrixDynamic<T> where T: Copy + PartialEq {
    /// Converts to an `R` by `C` matrix; fails unless the matrix has exactly
    /// `R` rows and `C` columns.
    pub fn try_into_static<const R: usize, const C: usize>(self) -> (res: Result<Matrix<R, C, T>, MatrixError>)
        requires
            self.wf(),
        ensures
            static_of(self, res),
    {
        if self.rows() != R || self.cols() != C {
            return Err(MatrixError::MissmatchDimension { lhs: (self.rows(), self.cols()), rhs: (R, C) });
        }
        let d = self.data();
        proof {
            self.lemma_wf();
            assert(forall|k: int| 0 <= k < R ==> #[trigger] d@[k]@ == self@[k]);
        }
        let mut rows: Vec<[T; C]> = Vec::new();
        for i in 0..R
            invariant
                d@.len() == R,
                forall|k: int| 0 <= k < R ==> #[trigger] d@[k]@.len() == C,
                rows@.len() == i,
                forall|k: int| 0 <= k < i ==> #[trigger] rows@[k]@ == d@[k]@,
        {
            let mut row: Vec<T> = Vec::new();
            for j in 0..C
                invariant
                    i < R,
                    d@.len() == R,
                    d@[i as int]@.len() == C,
                    row@.len() == j,
                    forall|l: int| 0 <= l < j ==> #[trigger] row@[l] == d@[i as int]@[l],
            {
                row.push(d[i][j]);
            }
            assert(row@ == d@[i as int]@);
            rows.push(array_from_vec(row));
        }
        let m = Matrix { data: array_from_vec(rows) };
        assert(m@ == self@);
        Ok(m)
    }
}

/// `d` holds the entries of `m`, with `R` rows and `C` columns; a matrix
/// without rows has no columns either.
pub open spec fn dynamic_of<const R: usize, const C: usize, T: Clone + PartialEq>(
    m: Matrix<R, C, T>,
    d: MatrixDynamic<T>,
) -> bool {
    &&& d.wf()
    &&& d.rows() == R
    &&& d.cols() == (if R == 0 { 0 } else { C })
    &&& d@ == m@
}

/// `res` is the `R` by `C` matrix holding the entries of `d` when `d` has
/// exactly that shape, and the mismatch error otherwise.
pub open spec fn static_of<const R: usize, const C: usize, T: Clone + PartialEq>(
    d: MatrixDynamic<T>,
    res: Result<Matrix<R, C, T>, MatrixError>,
) -> bool {
    match res {
        Ok(m) => d.rows() == R && d.cols() == C && m@ == d@,
        Err(e) => {
            &&& (d.rows() != R || d.cols() != C)
            &&& e == MatrixError::MissmatchDimension { lhs: (d.rows(), d.cols()), rhs: (R, C) }
        },
    }
}

/// Entry (i, j) of `m` is what `dot` returned for row `i` of `a` and column
/// `j` of `b`, for every `i < rows` and `j < cols`.
pub open spec fn product_with<'a, T: 'a, F: Fn(Vec<&'a T>, Vec<&'a T>) -> T>(
    dot: F,
    a: Seq<Seq<T>>,
    b: Seq<Seq<T>>,
    rows: nat,
    cols: nat,
    m: Seq<Seq<T>>,
) -> bool {
    forall|i: int, j: int|
        0 <= i < rows && 0 <= j < cols ==> #[trigger] ref_dot_entry(dot, a[i], column_of(b, j), m[i][j])
}

} // verus!
