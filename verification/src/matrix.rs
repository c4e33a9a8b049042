use vstd::prelude::*;

verus! {

/// Error type for the matrix operations.
#[derive(Clone, Copy, Debug, PartialEq, Eq)]
pub enum MatrixError {
    /// Incompatible dimensions; each pair is (rows, cols).
    MissmatchDimension { lhs: (usize, usize), rhs: (usize, usize) },
    /// The rows given do not all have the same length.
    NonUniformColumnLength,
    /// Row or column index out of bounds.
    OutOfBoundsRC(usize),
    /// Element index (row, col) out of bounds.
    OutOfBounds(usize, usize),
    /// The matrix is required to be square and is not.
    NonSquareMatrix,
}

/// Every row of `s` has length `cols`.
pub open spec fn rectangular<T>(s: Seq<Seq<T>>, cols: nat) -> bool {
    forall|i: int| 0 <= i < s.len() ==> #[trigger] s[i].len() == cols
}

/// The rows held by a vector of vectors.
pub open spec fn rows_of<T>(data: Seq<Vec<T>>) -> Seq<Seq<T>> {
    data.map_values(|r: Vec<T>| r@)
}

/// All rows have the length of the first one.
pub open spec fn uniform<T>(s: Seq<Seq<T>>) -> bool {
    s.len() == 0 || rectangular(s, s[0].len())
}

/// Column `j` of the rows `s`, top to bottom.
pub open spec fn column_of<T>(s: Seq<Seq<T>>, j: int) -> Seq<T> {
    Seq::new(s.len(), |r: int| s[r][j])
}

/// The first `cols` columns of `s`, each as a row.
pub open spec fn transpose_of<T>(s: Seq<Seq<T>>, cols: nat) -> Seq<Seq<T>> {
    Seq::new(cols, |i: int| column_of(s, i))
}

/// The rows of the `dim` by `dim` identity built from `zero` and `one`.
pub open spec fn identity_of<T>(dim: nat, zero: T, one: T) -> Seq<Seq<T>> {
    Seq::new(dim, |i: int| Seq::new(dim, |j: int| if i == j { one } else { zero }))
}

/// `s` with column `c` taken out of every row.
pub open spec fn remove_col_of<T>(s: Seq<Seq<T>>, c: int) -> Seq<Seq<T>> {
    s.map_values(|r: Seq<T>| r.remove(c))
}

/// `s` (with `cols` columns) grown by one row and one column: a `zero` at the
/// end of every row, then a last row of zeros ending in `one`.
pub open spec fn expand_of<T>(s: Seq<Seq<T>>, cols: nat, zero: T, one: T) -> Seq<Seq<T>> {
    s.map_values(|r: Seq<T>| r.push(zero)).push(
        Seq::new(cols + 1, |j: int| if j == cols { one } else { zero }),
    )
}

/// The diagonal of the square rows `s`.
pub open spec fn diagonal_of<T>(s: Seq<Seq<T>>) -> Seq<T> {
    Seq::new(s.len(), |i: int| s[i][i])
}

/// `x` is what `dot` returned for some pair of vectors holding `row` and `col`.
pub open spec fn dot_entry<T, F: Fn(Vec<T>, Vec<T>) -> T>(dot: F, row: Seq<T>, col: Seq<T>, x: T) -> bool {
    exists|a: Vec<T>, b: Vec<T>| a@ == row && b@ == col && #[trigger] call_ensures(dot, (a, b), x)
}

/// The values of a vector of references.
pub open spec fn deref_all<T>(v: Seq<&T>) -> Seq<T> {
    v.map_values(|x: &T| *x)
}

/// Mutable references to the items of `s`, in order.
fn refs_of<T>(s: &mut [T]) -> (v: Vec<&mut T>)
    ensures
        v@.len() == old(s)@.len(),
        forall|j: int| 0 <= j < v@.len() ==> *#[trigger] v@[j] == old(s)@[j],
        final(s)@ == Seq::new(v@.len(), |j: int| *final(v@[j])),
{
    let mut v: Vec<&mut T> = Vec::new();
    let ghost fs = final(s)@;
    let ghost os = old(s)@;
    let mut rest: &mut [T] = s;
    while rest.len() > 0
        invariant
            v@.len() + rest@.len() == os.len(),
            forall|j: int| 0 <= j < v@.len() ==> *#[trigger] v@[j] == os[j],
            forall|j: int| 0 <= j < rest@.len() ==> #[trigger] rest@[j] == os[v@.len() + j],
            fs == Seq::new(v@.len() as nat, |j: int| *final(v@[j])) + final(rest)@,
        decreases rest@.len(),
    {
        let (head, tail) = rest.split_at_mut(1);
        v.push(&mut head[0]);
        rest = tail;
    }
    assert(final(rest)@.len() == 0);
    v
}

/// Mutable references to item `idx` of every vector in `rows`, in order.
fn col_refs<T>(rows: &mut [Vec<T>], idx: usize) -> (v: Vec<&mut T>)
    requires
        forall|r: int| 0 <= r < old(rows)@.len() ==> idx < #[trigger] old(rows)@[r]@.len(),
    ensures
        v@.len() == old(rows)@.len(),
        forall|r: int| 0 <= r < v@.len() ==> *#[trigger] v@[r] == old(rows)@[r]@[idx as int],
        final(rows)@.len() == old(rows)@.len(),
        forall|r: int|
            0 <= r < v@.len() ==> #[trigger] final(rows)@[r]@ == old(rows)@[r]@.update(
                idx as int,
                *final(v@[r]),
            ),
{
    let mut v: Vec<&mut T> = Vec::new();
    let ghost fs = final(rows)@;
    let ghost os = old(rows)@;
    let ghost n = old(rows)@.len();
    let mut rest: &mut [Vec<T>] = rows;
    while rest.len() > 0
        invariant
            v@.len() + rest@.len() == n,
            os.len() == n,
            forall|r: int| 0 <= r < n ==> idx < #[trigger] os[r]@.len(),
            forall|j: int| 0 <= j < v@.len() ==> *#[trigger] v@[j] == os[j]@[idx as int],
            forall|j: int| 0 <= j < rest@.len() ==> #[trigger] rest@[j] == os[v@.len() + j],
            fs.len() == v@.len() + final(rest)@.len(),
            forall|j: int|
                0 <= j < v@.len() ==> #[trigger] fs[j]@ == os[j]@.update(idx as int, *final(v@[j])),
            forall|j: int| 0 <= j < final(rest)@.len() ==> #[trigger] final(rest)@[j] == fs[v@.len() + j],
        decreases rest@.len(),
    {
        let ghost fr = final(rest)@;
        let ghost k = v@.len();
        let (head, tail) = rest.split_at_mut(1);
        assert(fr == final(head)@ + final(tail)@);
        let ghost fh = final(head)@;
        let ghost oh = head@;
        let row: &mut Vec<T> = &mut head[0];
        assert(fh == oh.update(0, *final(row)));
        let ghost frow = final(row)@;
        let ghost orow = row@;
        let e: &mut T = &mut row[idx];
        assert(frow == orow.update(idx as int, *final(e)));
        v.push(e);
        assert(fs[k as int] == fr[0]);
        assert(forall|j: int| 0 <= j < final(tail)@.len() ==> #[trigger] final(tail)@[j] == fr[1 + j]);
        assert(forall|j: int| 0 <= j < final(tail)@.len() ==> #[trigger] final(tail)@[j] == fs[k + 1 + j]);
        rest = tail;
    }
    v
}

/// A row-major matrix whose size is known at run time.
#[derive(PartialEq, Debug)]
pub struct MatrixDynamic<T> {
    row_count: usize,
    col_count: usize,
    data: Vec<Vec<T>>,
}

impl<T> MatrixDynamic<T> {
    /// The entries, row by row.
    pub closed spec fn view(&self) -> Seq<Seq<T>> {
        rows_of(self.data@)
    }

    pub closed spec fn spec_rows(&self) -> usize {
        self.row_count
    }

    pub closed spec fn spec_cols(&self) -> usize {
        self.col_count
    }

    /// The stored row and column counts agree with the entries.
    pub closed spec fn wf(&self) -> bool {
        &&& self.data@.len() == self.row_count
        &&& forall|i: int| 0 <= i < self.data@.len() ==> #[trigger] self.data@[i]@.len() == self.col_count
    }

    /// Number of rows.
    #[verifier::when_used_as_spec(spec_rows)]
    pub fn rows(&self) -> (r: usize)
        ensures
            r == self.spec_rows(),
    {
        self.row_count
    }

    /// Number of columns.
    #[verifier::when_used_as_spec(spec_cols)]
    pub fn cols(&self) -> (c: usize)
        ensures
            c == self.spec_cols(),
    {
        self.col_count
    }

    /// What well-formedness means in terms of the view.
    pub proof fn lemma_wf(&self)
        ensures
            self.wf() <==> (self@.len() == self.spec_rows() && rectangular(self@, self.spec_cols() as nat)),
    {
        if self.wf() {
            assert(rectangular(self@, self.spec_cols() as nat));
        }
        if self@.len() == self.spec_rows() && rectangular(self@, self.spec_cols() as nat) {
            assert forall|i: int| 0 <= i < self.data@.len() implies #[trigger] self.data@[i]@.len() == self.col_count by {
                assert(self@[i] == self.data@[i]@);
            }
        }
    }
    /// Builds a matrix from its rows; fails when the rows differ in length.
    pub fn new(data: Vec<Vec<T>>) -> (res: Result<Self, MatrixError>)
        ensures
            match res {
                Ok(m) => {
                    &&& uniform(rows_of(data@))
                    &&& m.wf()
                    &&& m@ == rows_of(data@)
                    &&& m.rows() == data@.len()
                    &&& m.cols() == (if data@.len() == 0 { 0 } else { data@[0].len() })
                },
                Err(e) => !uniform(rows_of(data@)) && e == MatrixError::NonUniformColumnLength,
            },
    {
        if data.len() == 0 {
            return Ok(MatrixDynamic { row_count: 0, col_count: 0, data });
        }
        let col_len = data[0].len();
        let mut i: usize = 0;
        while i < data.len()
            invariant
                i <= data@.len(),
                col_len == data@[0].len(),
                forall|k: int| 0 <= k < i ==> #[trigger] data@[k]@.len() == col_len,
            decreases data@.len() - i,
        {
            if data[i].len() != col_len {
                assert(rows_of(data@)[i as int].len() != col_len);
                return Err(MatrixError::NonUniformColumnLength);
            }
            i = i + 1;
        }
        let rows = data.len();
        let m = MatrixDynamic { row_count: rows, col_count: col_len, data };
        proof {
            m.lemma_wf();
        }
        Ok(m)
    }
}


impl<T: Copy> MatrixDynamic<T> {
    /// Creates the `dim` by `dim` identity matrix: `one` on the diagonal,
    /// `zero` elsewhere.
    pub fn identity(dim: usize, zero: T, one: T) -> (m: Self)
        ensures
            m.wf(),
            m.rows() == dim,
            m.cols() == dim,
            m@ == identity_of(dim as nat, zero, one),
    {
        let mut data: Vec<Vec<T>> = Vec::new();
        for i in 0..dim
            invariant
                data@.len() == i,
                forall|k: int| 0 <= k < i ==> #[trigger] data@[k]@ == identity_of(dim as nat, zero, one)[k],
        {
            let mut row: Vec<T> = Vec::new();
            for j in 0..dim
                invariant
                    i < dim,
                    row@.len() == j,
                    forall|l: int| 0 <= l < j ==> #[trigger] row@[l] == (if i == l { one } else { zero }),
            {
                if j == i {
                    row.push(one);
                } else {
                    row.push(zero);
                }
            }
            assert(row@ == identity_of(dim as nat, zero, one)[i as int]);
            data.push(row);
        }
        let m = MatrixDynamic { row_count: dim, col_count: dim, data };
        assert(m@ == identity_of(dim as nat, zero, one));
        m
    }

    /// Gets row `idx`, left to right.
    pub fn row(&self, idx: usize) -> (res: Result<Vec<&T>, MatrixError>)
        requires
            self.wf(),
        ensures
            match res {
                Ok(v) => idx < self.rows() && deref_all(v@) == self@[idx as int],
                Err(e) => idx >= self.rows() && e == MatrixError::OutOfBoundsRC(idx),
            },
    {
        if idx >= self.row_count {
            return Err(MatrixError::OutOfBoundsRC(idx));
        }
        let the_row = &self.data[idx];
        let mut v: Vec<&T> = Vec::new();
        for j in 0..the_row.len()
            invariant
                v@.len() == j,
                forall|k: int| 0 <= k < j ==> *#[trigger] v@[k] == the_row@[k],
        {
            v.push(&the_row[j]);
        }
        assert(deref_all(v@) == self@[idx as int]);
        Ok(v)
    }

    /// Gets mutable references to the entries of row `idx`, left to right;
    /// what is written through reference `j` lands at column `j` of that row.
    pub fn row_mut(&mut self, idx: usize) -> (res: Result<Vec<&mut T>, MatrixError>)
        requires
            old(self).wf(),
        ensures
            final(self).wf(),
            final(self).rows() == old(self).rows(),
            final(self).cols() == old(self).cols(),
            match res {
                Ok(v) => {
                    &&& idx < old(self).rows()
                    &&& v@.len() == old(self).cols()
                    &&& forall|j: int| 0 <= j < v@.len() ==> *#[trigger] v@[j] == old(self)@[idx as int][j]
                    &&& final(self)@ == old(self)@.update(
                        idx as int,
                        Seq::new(v@.len(), |j: int| *final(v@[j])),
                    )
                },
                Err(e) => {
                    &&& idx >= old(self).rows()
                    &&& e == MatrixError::OutOfBoundsRC(idx)
                    &&& final(self)@ == old(self)@
                },
            },
    {
        if idx >= self.row_count {
            return Err(MatrixError::OutOfBoundsRC(idx));
        }
        let ghost old_data = self.data@;
        let ghost fd = final(self).data@;
        let row: &mut Vec<T> = &mut self.data[idx];
        assert(fd == old_data.update(idx as int, *final(row)));
        let ghost frow = final(row)@;
        let s: &mut [T] = row.as_mut_slice();
        assert(frow == final(s)@);
        let v = refs_of(s);
        assert(rows_of(fd) == rows_of(old_data).update(idx as int, Seq::new(v@.len(), |j: int| *final(v@[j]))));
        Ok(v)
    }

    /// Gets mutable references to the entries of column `idx`, top to bottom;
    /// what is written through reference `r` lands at row `r` of that column.
    pub fn col_mut(&mut self, idx: usize) -> (res: Result<Vec<&mut T>, MatrixError>)
        requires
            old(self).wf(),
        ensures
            final(self).wf(),
            final(self).rows() == old(self).rows(),
            final(self).cols() == old(self).cols(),
            match res {
                Ok(v) => {
                    &&& idx < old(self).cols()
                    &&& v@.len() == old(self).rows()
                    &&& forall|r: int| 0 <= r < v@.len() ==> *#[trigger] v@[r] == old(self)@[r][idx as int]
                    &&& final(self)@ == Seq::new(
                        v@.len(),
                        |r: int| old(self)@[r].update(idx as int, *final(v@[r])),
                    )
                },
                Err(e) => {
                    &&& idx >= old(self).cols()
                    &&& e == MatrixError::OutOfBoundsRC(idx)
                    &&& final(self)@ == old(self)@
                },
            },
    {
        if idx >= self.col_count {
            return Err(MatrixError::OutOfBoundsRC(idx));
        }
        let ghost old_data = self.data@;
        let ghost fd = final(self).data@;
        let rows: &mut [Vec<T>] = self.data.as_mut_slice();
        assert(fd == final(rows)@);
        let v = col_refs(rows, idx);
        assert(rows_of(fd) == Seq::new(v@.len(), |r: int| rows_of(old_data)[r].update(idx as int, *final(v@[r]))));
        Ok(v)
    }

    /// Gets column `idx`, top to bottom.
    pub fn col(&self, idx: usize) -> (res: Result<Vec<&T>, MatrixError>)
        requires
            self.wf(),
        ensures
            match res {
                Ok(v) => idx < self.cols() && deref_all(v@) == column_of(self@, idx as int),
                Err(e) => idx >= self.cols() && e == MatrixError::OutOfBoundsRC(idx),
            },
    {
        if idx >= self.col_count {
            return Err(MatrixError::OutOfBoundsRC(idx));
        }
        let mut v: Vec<&T> = Vec::new();
        for r in 0..self.data.len()
            invariant
                self.wf(),
                idx < self.col_count,
                v@.len() == r,
                forall|k: int| 0 <= k < r ==> *#[trigger] v@[k] == self.data@[k]@[idx as int],
        {
            v.push(&self.data[r][idx]);
        }
        assert(deref_all(v@) == column_of(self@, idx as int));
        Ok(v)
    }

    /// Returns the matrix with row `row` removed.
    pub fn remove_row(self, row: usize) -> (res: Result<Self, MatrixError>)
        requires
            self.wf(),
        ensures
            match res {
                Ok(m) => {
                    &&& row < self.rows()
                    &&& m.wf()
                    &&& m.rows() == self.rows() - 1
                    &&& m.cols() == self.cols()
                    &&& m@ == self@.remove(row as int)
                },
                Err(e) => row >= self.rows() && e == MatrixError::OutOfBoundsRC(row),
            },
    {
        if row >= self.row_count {
            return Err(MatrixError::OutOfBoundsRC(row));
        }
        let ghost old_view = self@;
        let MatrixDynamic { row_count, col_count, mut data } = self;
        let ghost before = data@;
        data.remove(row);
        assert(data@ == before.remove(row as int));
        let m = MatrixDynamic { row_count: row_count - 1, col_count, data };
        assert(m@ == old_view.remove(row as int));
        assert forall|i: int| 0 <= i < m.data@.len() implies #[trigger] m.data@[i]@.len() == m.col_count by {
            if i < row {
                assert(m.data@[i] == before[i]);
            } else {
                assert(m.data@[i] == before[i + 1]);
            }
        }
        Ok(m)
    }

    /// Returns the matrix with column `col` removed.
    pub fn remove_col(self, col: usize) -> (res: Result<Self, MatrixError>)
        requires
            self.wf(),
        ensures
            match res {
                Ok(m) => {
                    &&& col < self.cols()
                    &&& m.wf()
                    &&& m.rows() == self.rows()
                    &&& m.cols() == self.cols() - 1
                    &&& m@ == remove_col_of(self@, col as int)
                },
                Err(e) => col >= self.cols() && e == MatrixError::OutOfBoundsRC(col),
            },
    {
        if col >= self.col_count {
            return Err(MatrixError::OutOfBoundsRC(col));
        }
        let ghost old_view = self@;
        let MatrixDynamic { row_count, col_count, mut data } = self;
        let ghost before = data@;
        let mut i: usize = 0;
        while i < data.len()
            invariant
                data@.len() == before.len(),
                before.len() == row_count,
                col < col_count,
                forall|k: int| 0 <= k < before.len() ==> #[trigger] before[k]@.len() == col_count,
                forall|k: int| 0 <= k < i ==> #[trigger] data@[k]@ == before[k]@.remove(col as int),
                forall|k: int| i <= k < before.len() ==> #[trigger] data@[k] == before[k],
            decreases data@.len() - i,
        {
            data[i].remove(col);
            i = i + 1;
        }
        let m = MatrixDynamic { row_count, col_count: col_count - 1, data };
        assert(m@ == remove_col_of(old_view, col as int));
        Ok(m)
    }

    /// [Transpose](https://en.wikipedia.org/wiki/Transpose). The result is
    /// rebuilt from the columns, so a matrix without columns transposes to the
    /// empty matrix.
    pub fn transpose(&self) -> (t: Self)
        requires
            self.wf(),
        ensures
            t.wf(),
            t.rows() == self.cols(),
            t.cols() == (if self.cols() == 0 { 0 } else { self.rows() }),
            t@ == transpose_of(self@, self.cols() as nat),
    {
        let mut data: Vec<Vec<T>> = Vec::new();
        for c in 0..self.col_count
            invariant
                self.wf(),
                data@.len() == c,
                forall|k: int| 0 <= k < c ==> #[trigger] data@[k]@ == column_of(self@, k),
        {
            let mut column: Vec<T> = Vec::new();
            for r in 0..self.row_count
                invariant
                    self.wf(),
                    c < self.col_count,
                    column@.len() == r,
                    forall|k: int| 0 <= k < r ==> #[trigger] column@[k] == self.data@[k]@[c as int],
            {
                column.push(self.data[r][c]);
            }
            assert(column@ == column_of(self@, c as int));
            data.push(column);
        }
        let rows = self.col_count;
        let cols = if self.col_count == 0 { 0 } else { self.row_count };
        let t = MatrixDynamic { row_count: rows, col_count: cols, data };
        assert(t@ == transpose_of(self@, self.cols() as nat));
        t
    }

    /// Gets the entry at (`row`, `col`).
    pub fn get(&self, row: usize, col: usize) -> (res: Result<&T, MatrixError>)
        requires
            self.wf(),
        ensures
            match res {
                Ok(x) => row < self.rows() && col < self.cols() && *x == self@[row as int][col as int],
                Err(e) => (row >= self.rows() || col >= self.cols()) && e == MatrixError::OutOfBounds(row, col),
            },
    {
        if row >= self.row_count || col >= self.col_count {
            Err(MatrixError::OutOfBounds(row, col))
        } else {
            Ok(&self.data[row][col])
        }
    }

    /// Gets a mutable reference to the entry at (`row`, `col`); whatever is
    /// written through it lands at that entry and nowhere else.
    pub fn get_mut(&mut self, row: usize, col: usize) -> (res: Result<&mut T, MatrixError>)
        requires
            old(self).wf(),
        ensures
            final(self).wf(),
            final(self).rows() == old(self).rows(),
            final(self).cols() == old(self).cols(),
            match res {
                Ok(x) => {
                    &&& row < old(self).rows()
                    &&& col < old(self).cols()
                    &&& *x == old(self)@[row as int][col as int]
                    &&& final(self)@ == old(self)@.update(
                        row as int,
                        old(self)@[row as int].update(col as int, *final(x)),
                    )
                },
                Err(e) => {
                    &&& (row >= old(self).rows() || col >= old(self).cols())
                    &&& e == MatrixError::OutOfBounds(row, col)
                    &&& final(self)@ == old(self)@
                },
            },
    {
        if row >= self.row_count || col >= self.col_count {
            Err(MatrixError::OutOfBounds(row, col))
        } else {
            Ok(&mut self.data[row][col])
        }
    }

    /// A copy of the entries, row by row.
    pub fn data(&self) -> (d: Vec<Vec<T>>)
        requires
            self.wf(),
        ensures
            rows_of(d@) == self@,
    {
        let mut d: Vec<Vec<T>> = Vec::new();
        for r in 0..self.data.len()
            invariant
                d@.len() == r,
                forall|k: int| 0 <= k < r ==> #[trigger] d@[k]@ == self.data@[k]@,
        {
            let src = &self.data[r];
            let mut row: Vec<T> = Vec::new();
            for c in 0..src.len()
                invariant
                    row@.len() == c,
                    forall|k: int| 0 <= k < c ==> #[trigger] row@[k] == src@[k],
            {
                row.push(src[c]);
            }
            assert(row@ == src@);
            d.push(row);
        }
        assert(rows_of(d@) == self@);
        d
    }

    /// Grows the matrix by one row and one column: the new column is all
    /// `zero`, the new row is all `zero` but for `one` in the corner.
    pub fn expand(&self, zero: T, one: T) -> (m: Self)
        requires
            self.wf(),
            self.rows() < usize::MAX,
            self.cols() < usize::MAX,
        ensures
            m.wf(),
            m.rows() == self.rows() + 1,
            m.cols() == self.cols() + 1,
            m@ == expand_of(self@, self.cols() as nat, zero, one),
    {
        let mut data: Vec<Vec<T>> = Vec::new();
        for r in 0..self.data.len()
            invariant
                self.wf(),
                data@.len() == r,
                forall|k: int| 0 <= k < r ==> #[trigger] data@[k]@ == self.data@[k]@.push(zero),
        {
            let src = &self.data[r];
            let mut row: Vec<T> = Vec::new();
            for c in 0..src.len()
                invariant
                    row@.len() == c,
                    forall|k: int| 0 <= k < c ==> #[trigger] row@[k] == src@[k],
            {
                row.push(src[c]);
            }
            row.push(zero);
            assert(row@ == src@.push(zero));
            data.push(row);
        }
        let mut last: Vec<T> = Vec::new();
        for c in 0..self.col_count
            invariant
                last@.len() == c,
                forall|k: int| 0 <= k < c ==> #[trigger] last@[k] == zero,
        {
            last.push(zero);
        }
        last.push(one);
        assert(last@ == Seq::new(self.cols() as nat + 1, |j: int| if j == self.cols() { one } else { zero }));
        data.push(last);
        let m = MatrixDynamic { row_count: self.row_count + 1, col_count: self.col_count + 1, data };
        assert(m@.len() == expand_of(self@, self.cols() as nat, zero, one).len());
        assert forall|k: int| 0 <= k < m@.len() implies #[trigger] m@[k] == expand_of(self@, self.cols() as nat, zero, one)[k] by {
            if k < self.row_count {
                assert(self@[k] == self.data@[k]@);
            }
        }
        assert(m@ == expand_of(self@, self.cols() as nat, zero, one));
        m
    }

    /// All entries in one vector, row after row.
    pub fn flatten(&self) -> (v: Vec<T>)
        requires
            self.wf(),
        ensures
            v@ == self@.flatten(),
    {
        let mut v: Vec<T> = Vec::new();
        for r in 0..self.data.len()
            invariant
                v@ == self@.take(r as int).flatten(),
        {
            let src = &self.data[r];
            let ghost start = v@;
            for c in 0..src.len()
                invariant
                    v@ == start + src@.take(c as int),
            {
                v.push(src[c]);
                assert(src@.take(c + 1) == src@.take(c as int).push(src@[c as int]));
            }
            proof {
                assert(src@.take(src@.len() as int) == src@);
                assert(self@.take(r + 1) == self@.take(r as int).push(self@[r as int]));
                self@.take(r as int).lemma_flatten_push(self@[r as int]);
            }
        }
        assert(self@.take(self.data@.len() as int) == self@);
        v
    }

    /// The diagonal entries, top left to bottom right; fails when the matrix
    /// is not square.
    pub fn diagonal(&self) -> (res: Result<Vec<T>, MatrixError>)
        requires
            self.wf(),
        ensures
            match res {
                Ok(v) => self.rows() == self.cols() && v@ == diagonal_of(self@),
                Err(e) => self.rows() != self.cols() && e == MatrixError::NonSquareMatrix,
            },
    {
        if self.row_count != self.col_count {
            return Err(MatrixError::NonSquareMatrix);
        }
        let mut v: Vec<T> = Vec::new();
        for i in 0..self.row_count
            invariant
                self.wf(),
                self.row_count == self.col_count,
                v@.len() == i,
                forall|k: int| 0 <= k < i ==> #[trigger] v@[k] == self.data@[k]@[k],
        {
            v.push(self.data[i][i]);
        }
        assert(v@ == diagonal_of(self@));
        Ok(v)
    }

    /// Combines two matrices of the same shape entry by entry with `f`
    /// (`f(a, b)` for entry `a` of `self` and `b` of `rhs`); fails when the
    /// shapes differ.
    pub fn zip_with<F: Fn(T, T) -> T>(self, rhs: Self, f: F) -> (res: Result<Self, MatrixError>)
        requires
            self.wf(),
            rhs.wf(),
            forall|a: T, b: T| #[trigger] f.requires((a, b)),
        ensures
            match res {
                Ok(m) => {
                    &&& self.rows() == rhs.rows()
                    &&& self.cols() == rhs.cols()
                    &&& m.wf()
                    &&& m.rows() == self.rows()
                    &&& m.cols() == self.cols()
                    &&& forall|i: int, j: int|
                        0 <= i < self.rows() && 0 <= j < self.cols() ==> #[trigger] f.ensures(
                            (self@[i][j], rhs@[i][j]),
                            m@[i][j],
                        )
                },
                Err(e) => {
                    &&& (self.rows() != rhs.rows() || self.cols() != rhs.cols())
                    &&& e == MatrixError::MissmatchDimension {
                        lhs: (self.rows(), self.cols()),
                        rhs: (rhs.rows(), rhs.cols()),
                    }
                },
            },
    {
        if self.col_count != rhs.col_count || self.row_count != rhs.row_count {
            return Err(MatrixError::MissmatchDimension {
                lhs: (self.row_count, self.col_count),
                rhs: (rhs.row_count, rhs.col_count),
            });
        }
        let mut data: Vec<Vec<T>> = Vec::new();
        for i in 0..self.row_count
            invariant
                self.wf(),
                rhs.wf(),
                self.row_count == rhs.row_count,
                self.col_count == rhs.col_count,
                forall|a: T, b: T| #[trigger] f.requires((a, b)),
                data@.len() == i,
                forall|k: int| 0 <= k < i ==> #[trigger] data@[k]@.len() == self.col_count,
                forall|k: int, j: int|
                    0 <= k < i && 0 <= j < self.col_count ==> #[trigger] f.ensures(
                        (self.data@[k]@[j], rhs.data@[k]@[j]),
                        data@[k]@[j],
                    ),
        {
            let mut row: Vec<T> = Vec::new();
            for j in 0..self.col_count
                invariant
                    self.wf(),
                    rhs.wf(),
                    i < self.row_count,
                    self.row_count == rhs.row_count,
                    self.col_count == rhs.col_count,
                    forall|a: T, b: T| #[trigger] f.requires((a, b)),
                    row@.len() == j,
                    forall|l: int|
                        0 <= l < j ==> #[trigger] f.ensures(
                            (self.data@[i as int]@[l], rhs.data@[i as int]@[l]),
                            row@[l],
                        ),
            {
                let x = f(self.data[i][j], rhs.data[i][j]);
                row.push(x);
            }
            data.push(row);
        }
        let m = MatrixDynamic { row_count: self.row_count, col_count: self.col_count, data };
        Ok(m)
    }

    /// Applies `f` to every entry.
    pub fn map<U: Copy, F: Fn(T) -> U>(self, f: F) -> (m: MatrixDynamic<U>)
        requires
            self.wf(),
            forall|a: T| #[trigger] f.requires((a,)),
        ensures
            m.wf(),
            m.rows() == self.rows(),
            m.cols() == self.cols(),
            forall|i: int, j: int|
                0 <= i < self.rows() && 0 <= j < self.cols() ==> #[trigger] f.ensures((self@[i][j],), m@[i][j]),
    {
        let mut data: Vec<Vec<U>> = Vec::new();
        for i in 0..self.row_count
            invariant
                self.wf(),
                forall|a: T| #[trigger] f.requires((a,)),
                data@.len() == i,
                forall|k: int| 0 <= k < i ==> #[trigger] data@[k]@.len() == self.col_count,
                forall|k: int, j: int|
                    0 <= k < i && 0 <= j < self.col_count ==> #[trigger] f.ensures((self.data@[k]@[j],), data@[k]@[j]),
        {
            let mut row: Vec<U> = Vec::new();
            for j in 0..self.col_count
                invariant
                    self.wf(),
                    i < self.row_count,
                    forall|a: T| #[trigger] f.requires((a,)),
                    row@.len() == j,
                    forall|l: int| 0 <= l < j ==> #[trigger] f.ensures((self.data@[i as int]@[l],), row@[l]),
            {
                let x = f(self.data[i][j]);
                row.push(x);
            }
            data.push(row);
        }
        MatrixDynamic { row_count: self.row_count, col_count: self.col_count, data }
    }

    /// Matrix product, with `dot` turning a row of `self` and a column of
    /// `rhs` into an entry. Fails when `self` has not as many columns as `rhs`
    /// has rows. The result is built from its rows, so a product with no rows
    /// has no columns either.
    pub fn mul_with<F: Fn(Vec<T>, Vec<T>) -> T>(&self, rhs: &Self, dot: F) -> (res: Result<Self, MatrixError>)
        requires
            self.wf(),
            rhs.wf(),
            forall|a: Vec<T>, b: Vec<T>| #[trigger] dot.requires((a, b)),
        ensures
            match res {
                Ok(m) => {
                    &&& self.cols() == rhs.rows()
                    &&& m.wf()
                    &&& m.rows() == self.rows()
                    &&& m.cols() == (if self.rows() == 0 { 0 } else { rhs.cols() })
                    &&& forall|i: int, j: int|
                        0 <= i < self.rows() && 0 <= j < rhs.cols() ==> #[trigger] dot_entry(
                            dot,
                            self@[i],
                            column_of(rhs@, j),
                            m@[i][j],
                        )
                },
                Err(e) => {
                    &&& self.cols() != rhs.rows()
                    &&& e == MatrixError::MissmatchDimension {
                        lhs: (self.rows(), self.cols()),
                        rhs: (rhs.rows(), rhs.cols()),
                    }
                },
            },
    {
        if self.col_count != rhs.row_count {
            return Err(MatrixError::MissmatchDimension {
                lhs: (self.row_count, self.col_count),
                rhs: (rhs.row_count, rhs.col_count),
            });
        }
        let mut data: Vec<Vec<T>> = Vec::new();
        for i in 0..self.row_count
            invariant
                self.wf(),
                rhs.wf(),
                forall|a: Vec<T>, b: Vec<T>| #[trigger] dot.requires((a, b)),
                data@.len() == i,
                forall|k: int| 0 <= k < i ==> #[trigger] data@[k]@.len() == rhs.col_count,
                forall|k: int, j: int|
                    0 <= k < i && 0 <= j < rhs.col_count ==> #[trigger] dot_entry(
                        dot,
                        self@[k],
                        column_of(rhs@, j),
                        data@[k]@[j],
                    ),
        {
            let mut row: Vec<T> = Vec::new();
            for j in 0..rhs.col_count
                invariant
                    self.wf(),
                    rhs.wf(),
                    i < self.row_count,
                    forall|a: Vec<T>, b: Vec<T>| #[trigger] dot.requires((a, b)),
                    row@.len() == j,
                    forall|l: int|
                        0 <= l < j ==> #[trigger] dot_entry(dot, self@[i as int], column_of(rhs@, l), row@[l]),
            {
                let a = self.copy_row(i);
                let b = rhs.copy_col(j);
                let ghost (ga, gb) = (a, b);
                let x = dot(a, b);
                assert(call_ensures(dot, (ga, gb), x));
                row.push(x);
                assert(dot_entry(dot, self@[i as int], column_of(rhs@, j as int), row@[j as int]));
            }
            data.push(row);
        }
        let rows = self.row_count;
        let cols = if self.row_count == 0 { 0 } else { rhs.col_count };
        Ok(MatrixDynamic { row_count: rows, col_count: cols, data })
    }

    /// A copy of row `i`.
    fn copy_row(&self, i: usize) -> (v: Vec<T>)
        requires
            self.wf(),
            i < self.rows(),
        ensures
            v@ == self@[i as int],
    {
        let src = &self.data[i];
        let mut v: Vec<T> = Vec::new();
        for c in 0..src.len()
            invariant
                v@.len() == c,
                forall|k: int| 0 <= k < c ==> #[trigger] v@[k] == src@[k],
        {
            v.push(src[c]);
        }
        assert(v@ == src@);
        v
    }

    /// A copy of column `j`.
    fn copy_col(&self, j: usize) -> (v: Vec<T>)
        requires
            self.wf(),
            j < self.cols(),
        ensures
            v@ == column_of(self@, j as int),
    {
        let mut v: Vec<T> = Vec::new();
        for r in 0..self.data.len()
            invariant
                self.wf(),
                j < self.col_count,
                v@.len() == r,
                forall|k: int| 0 <= k < r ==> #[trigger] v@[k] == self.data@[k]@[j as int],
        {
            v.push(self.data[r][j]);
        }
        assert(v@ == column_of(self@, j as int));
        v
    }
}


impl<T: Copy> Clone for MatrixDynamic<T> {
    /// An entry-for-entry copy.
    fn clone(&self) -> (res: Self)
        ensures
            res.rows() == self.rows(),
            res.cols() == self.cols(),
            res@ == self@,
            self.wf() ==> res.wf(),
    {
        let mut data: Vec<Vec<T>> = Vec::new();
        for r in 0..self.data.len()
            invariant
                data@.len() == r,
                forall|k: int| 0 <= k < r ==> #[trigger] data@[k]@ == self.data@[k]@,
        {
            let src = &self.data[r];
            let mut row: Vec<T> = Vec::new();
            for c in 0..src.len()
                invariant
                    row@.len() == c,
                    forall|k: int| 0 <= k < c ==> #[trigger] row@[k] == src@[k],
            {
                row.push(src[c]);
            }
            assert(row@ == src@);
            data.push(row);
        }
        let res = MatrixDynamic { row_count: self.row_count, col_count: self.col_count, data };
        assert(res@ == self@);
        res
    }
}

} // verus!
