use vstd::prelude::*;

use crate::matrix::{
    column_of, deref_all, diagonal_of, dot_entry, expand_of, identity_of, rectangular,
    remove_col_of, rows_of, transpose_of, uniform, MatrixDynamic, MatrixError,
};
use crate::static_matrix::{
    array_rows, dynamic_of, product_with, ref_dot_entry, static_of, Matrix,
};

verus! {

/// Transposing twice gives back the entries, for every matrix that has
/// columns or has no rows (a matrix with rows but no columns transposes to
/// the empty matrix, which loses its row count).
pub proof fn law_transpose_involution<T>(s: Seq<Seq<T>>, cols: nat)
    requires
        rectangular(s, cols),
        cols > 0 || s.len() == 0,
    ensures
        rectangular(transpose_of(s, cols), s.len()),
        transpose_of(transpose_of(s, cols), s.len()) == s,
{
    let t = transpose_of(s, cols);
    assert(rectangular(t, s.len())) by {
        assert forall|i: int| 0 <= i < t.len() implies #[trigger] t[i].len() == s.len() by {
            assert(t[i] == column_of(s, i));
        }
    }
    let tt = transpose_of(t, s.len());
    if s.len() == 0 {
        assert(tt == s);
    } else {
        assert(tt.len() == s.len());
        assert forall|i: int| 0 <= i < s.len() implies #[trigger] tt[i] == s[i] by {
            assert(tt[i] == column_of(t, i));
            assert(s[i].len() == cols);
            assert forall|j: int| 0 <= j < cols implies #[trigger] column_of(t, i)[j] == s[i][j] by {
                assert(t[j] == column_of(s, j));
            }
            assert(column_of(t, i) == s[i]);
        }
        assert(tt == s);
    }
}

/// Taking out a row and taking out a column can be done in either order:
/// the minor does not depend on it.
pub proof fn law_minor_order<T>(s: Seq<Seq<T>>, cols: nat, i: int, j: int)
    requires
        rectangular(s, cols),
        0 <= i < s.len(),
        0 <= j < cols,
    ensures
        remove_col_of(s.remove(i), j) == remove_col_of(s, j).remove(i),
{
    let a = remove_col_of(s.remove(i), j);
    let b = remove_col_of(s, j).remove(i);
    assert(a.len() == b.len());
    assert forall|k: int| 0 <= k < a.len() implies #[trigger] a[k] == b[k] by {
        if k < i {
            assert(s.remove(i)[k] == s[k]);
        } else {
            assert(s.remove(i)[k] == s[k + 1]);
        }
    }
    assert(a == b);
}

/// The identity matrix is its own transpose.
pub proof fn law_identity_symmetric<T>(dim: nat, zero: T, one: T)
    ensures
        transpose_of(identity_of(dim, zero, one), dim) == identity_of(dim, zero, one),
{
    let id = identity_of(dim, zero, one);
    let t = transpose_of(id, dim);
    assert forall|i: int| 0 <= i < dim implies #[trigger] t[i] == id[i] by {
        assert(t[i] == column_of(id, i));
        assert(column_of(id, i) == id[i]);
    }
    assert(t == id);
}

/// Growing the `dim` by `dim` identity gives the identity of the next size.
pub proof fn law_expand_identity<T>(dim: nat, zero: T, one: T)
    ensures
        expand_of(identity_of(dim, zero, one), dim, zero, one) == identity_of(dim + 1, zero, one),
{
    let e = expand_of(identity_of(dim, zero, one), dim, zero, one);
    let id = identity_of(dim + 1, zero, one);
    assert forall|i: int| 0 <= i < dim + 1 implies #[trigger] e[i] == id[i] by {
        if i < dim {
            assert(e[i] == identity_of(dim, zero, one)[i].push(zero));
        }
    }
    assert(e == id);
}

/// Taking out column `j` and then transposing is transposing and then taking
/// out row `j`.
pub proof fn law_transpose_remove_col<T>(s: Seq<Seq<T>>, cols: nat, j: int)
    requires
        rectangular(s, cols),
        0 <= j < cols,
    ensures
        transpose_of(remove_col_of(s, j), (cols - 1) as nat) == transpose_of(s, cols).remove(j),
{
    let a = transpose_of(remove_col_of(s, j), (cols - 1) as nat);
    let b = transpose_of(s, cols).remove(j);
    assert forall|k: int| 0 <= k < cols - 1 implies #[trigger] a[k] == b[k] by {
        assert(a[k] == column_of(remove_col_of(s, j), k));
        if k < j {
            assert(b[k] == column_of(s, k));
            assert forall|r: int| 0 <= r < s.len() implies #[trigger] column_of(remove_col_of(s, j), k)[r]
                == column_of(s, k)[r] by {
                assert(s[r].len() == cols);
            }
        } else {
            assert(b[k] == column_of(s, k + 1));
            assert forall|r: int| 0 <= r < s.len() implies #[trigger] column_of(remove_col_of(s, j), k)[r]
                == column_of(s, k + 1)[r] by {
                assert(s[r].len() == cols);
            }
        }
    }
    assert(a == b);
}

/// A square matrix and its transpose have the same diagonal.
pub proof fn law_diagonal_transpose<T>(s: Seq<Seq<T>>)
    requires
        rectangular(s, s.len()),
    ensures
        diagonal_of(transpose_of(s, s.len())) == diagonal_of(s),
{
    let t = transpose_of(s, s.len());
    assert forall|i: int| 0 <= i < s.len() implies #[trigger] diagonal_of(t)[i] == diagonal_of(s)[i] by {
        assert(t[i] == column_of(s, i));
    }
    assert(diagonal_of(t) == diagonal_of(s));
}

/// Flattening rows of `cols` entries each lays entry (i, j) at `i * cols + j`.
pub proof fn law_flatten_layout<T>(s: Seq<Seq<T>>, cols: nat)
    requires
        rectangular(s, cols),
    ensures
        s.flatten().len() == s.len() * cols,
        forall|i: int, j: int|
            0 <= i < s.len() && 0 <= j < cols ==> s.flatten()[i * cols + j] == #[trigger] s[i][j],
    decreases s.len(),
{
    if s.len() == 0 {
        assert(s.flatten() == Seq::<T>::empty());
    } else {
        let rest = s.drop_first();
        assert(rectangular(rest, cols)) by {
            assert forall|k: int| 0 <= k < rest.len() implies #[trigger] rest[k].len() == cols by {
                assert(rest[k] == s[k + 1]);
            }
        }
        law_flatten_layout(rest, cols);
        assert(s.flatten() == s[0] + rest.flatten());
        assert(s[0].len() == cols);
        assert(s.len() * cols == cols + rest.len() * cols) by (nonlinear_arith)
            requires
                rest.len() == s.len() - 1,
        ;
        assert forall|i: int, j: int| 0 <= i < s.len() && 0 <= j < cols implies s.flatten()[i * cols + j]
            == #[trigger] s[i][j] by {
            if i == 0 {
                assert(i * cols + j == j) by (nonlinear_arith)
                    requires
                        i == 0,
                ;
            } else {
                assert(i * cols + j == cols + ((i - 1) * cols + j)) by (nonlinear_arith);
                assert((i - 1) * cols + j < rest.len() * cols) by (nonlinear_arith)
                    requires
                        0 <= i - 1 < rest.len(),
                        0 <= j < cols,
                ;
                assert(0 <= (i - 1) * cols) by (nonlinear_arith)
                    requires
                        i >= 1,
                ;
                assert(rest[i - 1] == s[i]);
                assert(rest.flatten()[(i - 1) * cols + j] == rest[i - 1][j]);
            }
        }
    }
}

/// In the flattened entries of an `n` by `n` matrix, every `(n + 1)`-th
/// entry from the first one is the next diagonal entry.
pub proof fn law_diagonal_in_flatten<T>(s: Seq<Seq<T>>)
    requires
        rectangular(s, s.len()),
    ensures
        forall|i: int| 0 <= i < s.len() ==> s.flatten()[i * (s.len() + 1)] == #[trigger] diagonal_of(s)[i],
{
    law_flatten_layout(s, s.len());
    assert forall|i: int| 0 <= i < s.len() implies s.flatten()[i * (s.len() + 1)] == #[trigger] diagonal_of(s)[i] by {
        assert(i * (s.len() + 1) == i * s.len() + i) by (nonlinear_arith);
        assert(s.flatten()[i * s.len() + i] == s[i][i]);
    }
}

/// Writing `v` at (`r`, `c`), as `get_mut` does, is read back by `get` at
/// (`r`, `c`), leaves every other entry as it was and keeps the shape.
pub proof fn law_write_then_read<T>(s: Seq<Seq<T>>, cols: nat, r: int, c: int, v: T)
    requires
        rectangular(s, cols),
        0 <= r < s.len(),
        0 <= c < cols,
    ensures
        ({
            let w = s.update(r, s[r].update(c, v));
            &&& w.len() == s.len()
            &&& rectangular(w, cols)
            &&& w[r][c] == v
            &&& forall|i: int, j: int|
                0 <= i < s.len() && 0 <= j < cols && (i != r || j != c) ==> #[trigger] w[i][j] == s[i][j]
        }),
{
    let w = s.update(r, s[r].update(c, v));
    assert(rectangular(w, cols)) by {
        assert forall|i: int| 0 <= i < w.len() implies #[trigger] w[i].len() == cols by {
            if i != r {
                assert(w[i] == s[i]);
            }
        }
    }
}

/// Turning a statically sized matrix into a dynamic one (`into_dynamic`) and
/// back (`try_into_static`) succeeds with the same entries exactly when the
/// matrix has rows or has no columns; a matrix without rows but with columns
/// comes back as the mismatch error, since the dynamic matrix does not keep
/// its column count. `d` and `res` are the results of the two calls.
pub proof fn law_static_round_trip<const R: usize, const C: usize, T>(
    m: Matrix<R, C, T>,
    d: MatrixDynamic<T>,
    res: Result<Matrix<R, C, T>, MatrixError>,
)
    where
        T: Copy + PartialEq,
    requires
        dynamic_of(m, d),
        static_of(d, res),
    ensures
        res is Ok <==> (R > 0 || C == 0),
        res matches Ok(back) ==> back@ == m@,
{
}

/// The transpose of a product is the product of the transposes in reverse
/// order, for a dot function that is symmetric and gives one value for each
/// row and column: `ab` is `a.mul_with(&b, dot)`, `bt` and `at` are the
/// transposes of `b` and `a`, `abt` that of `ab`, and `btat` is
/// `bt.mul_with(&at, dot)`.
pub proof fn law_product_transpose<const R: usize, const K: usize, const C: usize, T, F>(
    dot: F,
    d: spec_fn(Seq<T>, Seq<T>) -> T,
    a: Matrix<R, K, T>,
    b: Matrix<K, C, T>,
    ab: Matrix<R, C, T>,
    abt: Matrix<C, R, T>,
    bt: Matrix<C, K, T>,
    at: Matrix<K, R, T>,
    btat: Matrix<C, R, T>,
)
    where
        T: Copy + PartialEq,
        F: for<'x> Fn(Vec<&'x T>, Vec<&'x T>) -> T,
    requires
        forall|x: Vec<&T>, y: Vec<&T>, z: T|
            #[trigger] call_ensures(dot, (x, y), z) ==> z == d(deref_all(x@), deref_all(y@)),
        forall|x: Seq<T>, y: Seq<T>| #[trigger] d(x, y) == d(y, x),
        product_with(dot, a@, b@, R as nat, C as nat, ab@),
        abt@ == transpose_of(ab@, C as nat),
        bt@ == transpose_of(b@, C as nat),
        at@ == transpose_of(a@, K as nat),
        product_with(dot, bt@, at@, C as nat, R as nat, btat@),
    ensures
        abt@ == btat@,
{
    a.lemma_shape();
    b.lemma_shape();
    ab.lemma_shape();
    btat.lemma_shape();
    assert forall|j: int, i: int| 0 <= j < C && 0 <= i < R implies #[trigger] abt@[j][i] == btat@[j][i] by {
        assert(abt@[j] == column_of(ab@, j));
        assert(abt@[j][i] == ab@[i][j]);
        assert(ref_dot_entry(dot, a@[i], column_of(b@, j), ab@[i][j]));
        let (x1, y1) = choose|x1: Vec<&T>, y1: Vec<&T>|
            deref_all(x1@) == a@[i] && deref_all(y1@) == column_of(b@, j) && #[trigger] call_ensures(
                dot,
                (x1, y1),
                ab@[i][j],
            );
        assert(ab@[i][j] == d(a@[i], column_of(b@, j)));
        assert(ref_dot_entry(dot, bt@[j], column_of(at@, i), btat@[j][i]));
        let (x2, y2) = choose|x2: Vec<&T>, y2: Vec<&T>|
            deref_all(x2@) == bt@[j] && deref_all(y2@) == column_of(at@, i) && #[trigger] call_ensures(
                dot,
                (x2, y2),
                btat@[j][i],
            );
        assert(btat@[j][i] == d(bt@[j], column_of(at@, i)));
        assert(bt@[j] == column_of(b@, j));
        assert(column_of(at@, i) == a@[i]) by {
            assert(a@[i].len() == K);
            assert forall|r: int| 0 <= r < K implies #[trigger] column_of(at@, i)[r] == a@[i][r] by {
                assert(at@[r] == column_of(a@, r));
            }
        }
        assert(d(column_of(b@, j), a@[i]) == d(a@[i], column_of(b@, j)));
    }
    assert forall|j: int| 0 <= j < C implies #[trigger] abt@[j] == btat@[j] by {
        assert(abt@[j].len() == R);
        assert(btat@[j].len() == R);
        assert forall|i: int| 0 <= i < R implies #[trigger] abt@[j][i] == btat@[j][i] by {
            assert(abt@[j][i] == btat@[j][i]);
        }
    }
    assert(abt@ == btat@);
}

/// An entry of a dynamic product (`mul_with`) is what `dot` returned for a
/// vector holding all of row `i` of the left matrix and a vector holding all
/// of column `j` of the right one, `inner` entries each.
pub proof fn law_dynamic_product_entry<T, F: Fn(Vec<T>, Vec<T>) -> T>(
    dot: F,
    a: Seq<Seq<T>>,
    b: Seq<Seq<T>>,
    inner: nat,
    i: int,
    j: int,
    x: T,
)
    requires
        rectangular(a, inner),
        b.len() == inner,
        0 <= i < a.len(),
        dot_entry(dot, a[i], column_of(b, j), x),
    ensures
        exists|va: Vec<T>, vb: Vec<T>|
            {
                &&& va@.len() == inner
                &&& vb@.len() == inner
                &&& forall|k: int| 0 <= k < inner ==> va@[k] == a[i][k] && vb@[k] == #[trigger] b[k][j]
                &&& #[trigger] call_ensures(dot, (va, vb), x)
            },
{
    let (va, vb) = choose|va: Vec<T>, vb: Vec<T>|
        va@ == a[i] && vb@ == column_of(b, j) && #[trigger] call_ensures(dot, (va, vb), x);
    assert(forall|k: int| 0 <= k < inner ==> va@[k] == a[i][k] && vb@[k] == #[trigger] b[k][j]);
}

/// An entry of a product of statically sized matrices (`mul_with`) is what
/// `dot` returned for references to all of row `i` of the left matrix and to
/// all of column `j` of the right one, `inner` entries each.
pub proof fn law_static_product_entry<'a, T: 'a, F: Fn(Vec<&'a T>, Vec<&'a T>) -> T>(
    dot: F,
    a: Seq<Seq<T>>,
    b: Seq<Seq<T>>,
    m: Seq<Seq<T>>,
    rows: nat,
    cols: nat,
    inner: nat,
    i: int,
    j: int,
)
    requires
        product_with(dot, a, b, rows, cols, m),
        rows <= a.len(),
        rectangular(a, inner),
        b.len() == inner,
        0 <= i < rows,
        0 <= j < cols,
    ensures
        exists|va: Vec<&'a T>, vb: Vec<&'a T>|
            {
                &&& va@.len() == inner
                &&& vb@.len() == inner
                &&& forall|k: int| 0 <= k < inner ==> *va@[k] == a[i][k] && *vb@[k] == #[trigger] b[k][j]
                &&& #[trigger] call_ensures(dot, (va, vb), m[i][j])
            },
{
    assert(ref_dot_entry(dot, a[i], column_of(b, j), m[i][j]));
    let (va, vb) = choose|va: Vec<&'a T>, vb: Vec<&'a T>|
        deref_all(va@) == a[i] && deref_all(vb@) == column_of(b, j) && #[trigger] call_ensures(
            dot,
            (va, vb),
            m[i][j],
        );
    assert(a[i].len() == inner);
    assert(deref_all(va@).len() == va@.len());
    assert(deref_all(vb@).len() == vb@.len());
    assert(va@.len() == inner);
    assert(vb@.len() == inner);
    assert forall|k: int| 0 <= k < inner implies *va@[k] == a[i][k] && *vb@[k] == #[trigger] b[k][j] by {
        assert(deref_all(va@)[k] == *va@[k]);
        assert(deref_all(vb@)[k] == *vb@[k]);
    }
}

/// Converting a dynamic matrix `d` to an `R` by `C` one (`try_into_static`)
/// succeeds exactly when `d` has `R` rows and `C` columns, and then holds the
/// entries of `d`; any other shape gives the mismatch error with both shapes.
pub proof fn law_to_static_exact<const R: usize, const C: usize, T>(
    d: MatrixDynamic<T>,
    res: Result<Matrix<R, C, T>, MatrixError>,
)
    where
        T: Copy + PartialEq,
    requires
        d.wf(),
        static_of(d, res),
    ensures
        res is Ok <==> (d.rows() == R && d.cols() == C),
        res matches Ok(m) ==> forall|i: int, j: int|
            0 <= i < R && 0 <= j < C ==> #[trigger] m@[i][j] == d@[i][j],
        res matches Ok(m) ==> m@.len() == d@.len(),
        res matches Err(e) ==> (e == MatrixError::MissmatchDimension {
            lhs: (d.rows(), d.cols()),
            rhs: (R, C),
        }),
{
}

/// Converting a statically sized matrix to a dynamic one (`into_dynamic`)
/// keeps every entry in place and the row count.
pub proof fn law_to_dynamic_exact<const R: usize, const C: usize, T>(
    m: Matrix<R, C, T>,
    d: MatrixDynamic<T>,
)
    where
        T: Copy + PartialEq,
    requires
        dynamic_of(m, d),
    ensures
        d.rows() == R,
        d@.len() == R,
        R > 0 ==> (d.cols() == C),
        forall|i: int, j: int| 0 <= i < R && 0 <= j < C ==> #[trigger] d@[i][j] == m@[i][j],
{
    m.lemma_shape();
    d.lemma_wf();
}

/// Growing a matrix of `cols` columns (`expand`) keeps every entry in place,
/// puts `zero` at the end of every row, and adds a last row that is `zero`
/// everywhere but `one` at column `cols`.
pub proof fn law_expand_entries<T>(s: Seq<Seq<T>>, cols: nat, zero: T, one: T)
    requires
        rectangular(s, cols),
    ensures
        ({
            let e = expand_of(s, cols, zero, one);
            &&& e.len() == s.len() + 1
            &&& rectangular(e, cols + 1)
            &&& forall|i: int, j: int| 0 <= i < s.len() && 0 <= j < cols ==> #[trigger] e[i][j] == s[i][j]
            &&& forall|i: int| 0 <= i < s.len() ==> #[trigger] e[i][cols as int] == zero
            &&& e[s.len() as int][cols as int] == one
            &&& forall|j: int| 0 <= j < cols ==> #[trigger] e[s.len() as int][j] == zero
        }),
{
    let e = expand_of(s, cols, zero, one);
    assert forall|i: int| 0 <= i < e.len() implies #[trigger] e[i].len() == cols + 1 by {
        if i < s.len() {
            assert(e[i] == s[i].push(zero));
        }
    }
    assert forall|i: int, j: int| 0 <= i < s.len() && 0 <= j < cols implies #[trigger] e[i][j] == s[i][j] by {
        assert(e[i] == s[i].push(zero));
    }
    assert forall|i: int| 0 <= i < s.len() implies #[trigger] e[i][cols as int] == zero by {
        assert(e[i] == s[i].push(zero));
    }
}

/// The diagonal of a square matrix (`diagonal`) has exactly one entry per
/// row, entry `i` being the one at (`i`, `i`).
pub proof fn law_diagonal_entries<T>(s: Seq<Seq<T>>)
    requires
        rectangular(s, s.len()),
    ensures
        diagonal_of(s).len() == s.len(),
        forall|i: int| 0 <= i < s.len() ==> #[trigger] diagonal_of(s)[i] == s[i][i],
{
}

/// Column `j` (`col`) has one entry per row, entry `r` being the one at
/// (`r`, `j`).
pub proof fn law_column_entries<T>(s: Seq<Seq<T>>, j: int)
    ensures
        column_of(s, j).len() == s.len(),
        forall|r: int| 0 <= r < s.len() ==> #[trigger] column_of(s, j)[r] == s[r][j],
{
}

/// The transpose (`transpose`) of a matrix of `cols` columns has `cols` rows
/// of one entry per row of `s`, entry (i, j) being entry (j, i) of `s`.
pub proof fn law_transpose_entries<T>(s: Seq<Seq<T>>, cols: nat)
    requires
        rectangular(s, cols),
    ensures
        transpose_of(s, cols).len() == cols,
        rectangular(transpose_of(s, cols), s.len()),
        forall|i: int, j: int|
            0 <= i < cols && 0 <= j < s.len() ==> #[trigger] transpose_of(s, cols)[i][j] == s[j][i],
{
    let t = transpose_of(s, cols);
    assert forall|i: int| 0 <= i < t.len() implies #[trigger] t[i].len() == s.len() by {
        assert(t[i] == column_of(s, i));
    }
    assert forall|i: int, j: int| 0 <= i < cols && 0 <= j < s.len() implies #[trigger] t[i][j] == s[j][i] by {
        assert(t[i] == column_of(s, i));
    }
}

/// The `dim` by `dim` identity (`identity`) has `one` exactly on the diagonal
/// and `zero` everywhere else.
pub proof fn law_identity_entries<T>(dim: nat, zero: T, one: T)
    ensures
        identity_of(dim, zero, one).len() == dim,
        rectangular(identity_of(dim, zero, one), dim),
        forall|i: int| 0 <= i < dim ==> #[trigger] identity_of(dim, zero, one)[i][i] == one,
        forall|i: int, j: int|
            0 <= i < dim && 0 <= j < dim && i != j ==> #[trigger] identity_of(dim, zero, one)[i][j] == zero,
{
}

/// Taking out column `c` (`remove_col`) shortens every row by one, keeps the
/// entries left of `c` in place and moves those right of it one to the left.
pub proof fn law_remove_col_entries<T>(s: Seq<Seq<T>>, cols: nat, c: int)
    requires
        rectangular(s, cols),
        0 <= c < cols,
    ensures
        remove_col_of(s, c).len() == s.len(),
        rectangular(remove_col_of(s, c), (cols - 1) as nat),
        forall|i: int, j: int|
            0 <= i < s.len() && 0 <= j < c ==> #[trigger] remove_col_of(s, c)[i][j] == s[i][j],
        forall|i: int, j: int|
            0 <= i < s.len() && c <= j < cols - 1 ==> #[trigger] remove_col_of(s, c)[i][j] == s[i][j + 1],
{
    let r = remove_col_of(s, c);
    assert forall|i: int| 0 <= i < r.len() implies #[trigger] r[i].len() == cols - 1 by {
        assert(r[i] == s[i].remove(c));
    }
    assert forall|i: int, j: int| 0 <= i < s.len() && 0 <= j < c implies #[trigger] r[i][j] == s[i][j] by {
        assert(r[i] == s[i].remove(c));
    }
    assert forall|i: int, j: int| 0 <= i < s.len() && c <= j < cols - 1 implies #[trigger] r[i][j] == s[i][j + 1] by {
        assert(r[i] == s[i].remove(c));
    }
}

/// The rows held by a vector of vectors (`new`, `data`) are its vectors' items,
/// one row per vector.
pub proof fn law_rows_of_entries<T>(data: Seq<Vec<T>>)
    ensures
        rows_of(data).len() == data.len(),
        forall|i: int| 0 <= i < data.len() ==> #[trigger] rows_of(data)[i] == data[i]@,
{
}

/// `new` accepts exactly the rows that all have the length of the first row.
pub proof fn law_uniform_meaning<T>(s: Seq<Seq<T>>)
    ensures
        uniform(s) <==> (forall|i: int| 0 <= i < s.len() ==> #[trigger] s[i].len() == s[0].len()),
{
}

/// The values behind a vector of references (`row`, `col`) are, in order,
/// what each reference points to.
pub proof fn law_deref_all_entries<T>(v: Seq<&T>)
    ensures
        deref_all(v).len() == v.len(),
        forall|i: int| 0 <= i < v.len() ==> #[trigger] deref_all(v)[i] == *v[i],
{
}

/// The rows of a two-dimensional array (the entries of a statically sized
/// matrix) are `R` rows of `C` entries, entry (i, j) being `a[i][j]`.
pub proof fn law_array_rows_entries<T, const R: usize, const C: usize>(a: [[T; C]; R])
    ensures
        array_rows(a).len() == R,
        rectangular(array_rows(a), C as nat),
        forall|i: int, j: int| 0 <= i < R && 0 <= j < C ==> #[trigger] array_rows(a)[i][j] == a@[i]@[j],
{
    assert forall|i: int| 0 <= i < R implies #[trigger] array_rows(a)[i].len() == C by {
        assert(array_rows(a)[i] == a@[i]@);
    }
    assert forall|i: int, j: int| 0 <= i < R && 0 <= j < C implies #[trigger] array_rows(a)[i][j] == a@[i]@[j] by {
        assert(array_rows(a)[i] == a@[i]@);
    }
}

/// Rows `s` are rectangular with `cols` columns exactly when every row has
/// `cols` entries.
pub proof fn law_rectangular_meaning<T>(s: Seq<Seq<T>>, cols: nat)
    ensures
        rectangular(s, cols) <==> (forall|i: int| 0 <= i < s.len() ==> #[trigger] s[i].len() == cols),
{
}

} // verus!
