use vstd::prelude::*;

verus! {

/// Number of vectors in a signature batch.
pub const K: usize = 9;

/// Number of rows of the public-map matrices.
pub const M: usize = 64;

/// Total number of variables of the quadratic map.
pub const N: usize = 66;

/// Dimension of the oil space.
pub const O: usize = 8;

/// Dimension of the vinegar space; the oil and vinegar variables
/// together make up all `N` variables.
pub const V: usize = 58;

/// Length of the flattened coefficient array formed from `K` blocks
/// of `O` entries each.
pub const KO: usize = K * O;

} // verus!
