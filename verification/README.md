# Matrices

Dense matrices for 3D graphics.

- `src/` is the verified library, generic over the entry type:
  - `matrix.rs`: `MatrixDynamic<T>`, a matrix sized at run time, and
    `MatrixError`. Construction with shape checking, identity, row and column
    access (shared and mutable), element access, row and column removal,
    transposition, growth by one dimension, flattening, the diagonal, and
    entry-wise, mapped and row-by-column combination with caller-supplied
    functions.
  - `static_matrix.rs`: `Matrix<R, C, T>`, a matrix sized at compile time:
    construction, rows, columns, transposition, identity, mapping, product
    with a caller-supplied dot function, and conversion to and from
    `MatrixDynamic`.
  - `laws.rs`: properties stated over the specification functions.
- `app/` holds the `f32`/`f64` layer: determinant, cofactors, inverse, trace,
  arithmetic, affine and projection matrices, vectors and quaternions.
- `tests/` exercises the library.
