//! Exact arithmetic over the finite field GF(16) and the matrix/vector
//! algebra built on top of it, as used by a multivariate-quadratic
//! signature scheme: branch-free scalar field operations, dynamically
//! sized matrix operations, and fixed-dimension specializations for the
//! scheme's parameter constants.

pub mod batched;
pub mod constants;
pub mod finite_field;
pub mod fixed;
pub mod matrix;
