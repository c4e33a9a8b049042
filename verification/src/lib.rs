//! Dense matrices: a dynamically sized matrix and a statically sized one,
//! with shape checks, element access, row and column removal and transposition.

pub mod matrix;
pub mod static_matrix;
pub mod laws;
