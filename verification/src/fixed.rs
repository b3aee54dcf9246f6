//! Fixed-dimension matrix and vector operations over GF(16), specialized
//! to the signature scheme's parameter constants for its hot paths.
//!
//! Each operation has the same mathematical shape as a dynamically sized
//! counterpart, and its contract says so: the result equals the very spec
//! function that the dynamic operation ensures, so the two families are
//! behaviorally identical on overlapping shapes.  Shapes are baked into
//! the signatures, so no runtime dimension check is needed.

use vstd::prelude::*;

use crate::constants::{KO, M, N, O, V};
use crate::finite_field::is_elem;
use crate::matrix::{
    gf_dot, gf_dot_prefix, mat_col, mat_cols, mat_in_field, mat_wf, spec_matrix_vector_mul,
    spec_vector_matrix_mul, vec_in_field,
};

verus! {

broadcast use vstd::array::group_array_axioms;

/// The mathematical view of a fixed-dimension matrix: its rows as
/// sequences of field elements.
pub open spec fn grid_view<const C: usize, const R: usize>(m: [[u8; C]; R]) -> Seq<Seq<u8>> {
    Seq::new(R as nat, |i: int| m@[i]@)
}

/// A fixed-dimension matrix is always well formed: every row has the
/// column count that its type fixes.
pub proof fn lemma_grid_wf<const C: usize, const R: usize>(m: [[u8; C]; R])
    requires
        R >= 1,
    ensures
        grid_view(m).len() == R,
        mat_wf(grid_view(m)),
        mat_cols(grid_view(m)) == C,
        forall|i: int| 0 <= i < R ==> #[trigger] grid_view(m)[i] == m@[i]@,
{
    assert forall|i: int| 0 <= i < R implies #[trigger] grid_view(m)[i] == m@[i]@ by {}
    assert(grid_view(m)[0].len() == C);
    assert forall|i: int| 0 <= i < grid_view(m).len() implies (#[trigger] grid_view(
        m,
    )[i]).len() == mat_cols(grid_view(m)) by {}
}

/// Multiplies a `V`-length vector by a `V x O` matrix, as in applying a
/// vinegar assignment to the oil-space transform; equals the dynamic
/// `vector_matrix_mul` on the same values.  The accumulation walks the
/// matrix row by row, adding each row's contribution to every output
/// column before moving to the next row.
#[verifier::loop_isolation(false)]
pub fn matrix_mul_v_l(a: [u8; V], b: [[u8; O]; V]) -> (r: [u8; O])
    requires
        vec_in_field(a@),
        mat_in_field(grid_view(b)),
    ensures
        r@ == spec_vector_matrix_mul(a@, grid_view(b)),
        vec_in_field(r@),
{
    proof {
        lemma_grid_wf(b);
    }
    let mut result: [u8; O] = [0; O];
    let mut j: usize = 0;
    while j < V
        invariant
            j <= V,
            forall|kk: int| 0 <= kk < O ==> #[trigger] result@[kk] == gf_dot_prefix(
                a@,
                mat_col(grid_view(b), kk),
                j as int,
            ),
            forall|kk: int| 0 <= kk < O ==> is_elem(#[trigger] result@[kk]),
        decreases V - j,
    {
        let mut k: usize = 0;
        while k < O
            invariant
                j < V,
                k <= O,
                forall|kk: int| 0 <= kk < k ==> #[trigger] result@[kk] == gf_dot_prefix(
                    a@,
                    mat_col(grid_view(b), kk),
                    j as int + 1,
                ),
                forall|kk: int| k <= kk < O ==> #[trigger] result@[kk] == gf_dot_prefix(
                    a@,
                    mat_col(grid_view(b), kk),
                    j as int,
                ),
                forall|kk: int| 0 <= kk < O ==> is_elem(#[trigger] result@[kk]),
            decreases O - k,
        {
            proof {
                assert(grid_view(b)[j as int] == b@[j as int]@);
                assert(is_elem(grid_view(b)[j as int][k as int]));
                assert(mat_col(grid_view(b), k as int)[j as int] == grid_view(
                    b,
                )[j as int][k as int]);
            }
            result[k] = crate::finite_field::add(
                result[k],
                crate::finite_field::mul(a[j], b[j][k]),
            );
            k += 1;
        }
        j += 1;
    }
    proof {
        assert(result@ =~= spec_vector_matrix_mul(a@, grid_view(b)));
    }
    result
}

/// Multiplies an `N`-length vector (a transposed signature candidate) by
/// an `N x N` public quadratic-form matrix; equals the dynamic
/// `vector_matrix_mul` on the same values.
#[verifier::loop_isolation(false)]
pub fn matrix_mul_s_trans_big_p(s: [u8; N], big_p: [[u8; N]; N]) -> (r: [u8; N])
    requires
        vec_in_field(s@),
        mat_in_field(grid_view(big_p)),
    ensures
        r@ == spec_vector_matrix_mul(s@, grid_view(big_p)),
        vec_in_field(r@),
{
    proof {
        lemma_grid_wf(big_p);
    }
    let mut result: [u8; N] = [0; N];
    let mut j: usize = 0;
    while j < N
        invariant
            j <= N,
            forall|kk: int| 0 <= kk < N ==> #[trigger] result@[kk] == gf_dot_prefix(
                s@,
                mat_col(grid_view(big_p), kk),
                j as int,
            ),
            forall|kk: int| 0 <= kk < N ==> is_elem(#[trigger] result@[kk]),
        decreases N - j,
    {
        let mut k: usize = 0;
        while k < N
            invariant
                j < N,
                k <= N,
                forall|kk: int| 0 <= kk < k ==> #[trigger] result@[kk] == gf_dot_prefix(
                    s@,
                    mat_col(grid_view(big_p), kk),
                    j as int + 1,
                ),
                forall|kk: int| k <= kk < N ==> #[trigger] result@[kk] == gf_dot_prefix(
                    s@,
                    mat_col(grid_view(big_p), kk),
                    j as int,
                ),
                forall|kk: int| 0 <= kk < N ==> is_elem(#[trigger] result@[kk]),
            decreases N - k,
        {
            proof {
                assert(grid_view(big_p)[j as int] == big_p@[j as int]@);
                assert(is_elem(grid_view(big_p)[j as int][k as int]));
                assert(mat_col(grid_view(big_p), k as int)[j as int] == grid_view(
                    big_p,
                )[j as int][k as int]);
            }
            result[k] = crate::finite_field::add(
                result[k],
                crate::finite_field::mul(s[j], big_p[j][k]),
            );
            k += 1;
        }
        j += 1;
    }
    proof {
        assert(result@ =~= spec_vector_matrix_mul(s@, grid_view(big_p)));
    }
    result
}

/// Multiplies a `V`-length vinegar vector by the `V x V` public matrix;
/// equals the dynamic `vector_matrix_mul` on the same values.  Each
/// output entry is fully accumulated before the next.
#[verifier::loop_isolation(false)]
pub fn matrix_mul_v_p1(v: [u8; V], p1: [[u8; V]; V]) -> (r: [u8; V])
    requires
        vec_in_field(v@),
        mat_in_field(grid_view(p1)),
    ensures
        r@ == spec_vector_matrix_mul(v@, grid_view(p1)),
        vec_in_field(r@),
{
    proof {
        lemma_grid_wf(p1);
    }
    let mut result: [u8; V] = [0; V];
    let mut j: usize = 0;
    while j < V
        invariant
            j <= V,
            forall|jj: int| 0 <= jj < j ==> #[trigger] result@[jj] == gf_dot(
                v@,
                mat_col(grid_view(p1), jj),
            ),
            forall|jj: int| j <= jj < V ==> #[trigger] result@[jj] == 0,
            forall|jj: int| 0 <= jj < V ==> is_elem(#[trigger] result@[jj]),
        decreases V - j,
    {
        let mut k: usize = 0;
        while k < V
            invariant
                j < V,
                k <= V,
                result@[j as int] == gf_dot_prefix(v@, mat_col(grid_view(p1), j as int), k as int),
                forall|jj: int| 0 <= jj < j ==> #[trigger] result@[jj] == gf_dot(
                    v@,
                    mat_col(grid_view(p1), jj),
                ),
                forall|jj: int| j < jj < V ==> #[trigger] result@[jj] == 0,
                forall|jj: int| 0 <= jj < V ==> is_elem(#[trigger] result@[jj]),
            decreases V - k,
        {
            proof {
                assert(grid_view(p1)[k as int] == p1@[k as int]@);
                assert(is_elem(grid_view(p1)[k as int][j as int]));
                assert(mat_col(grid_view(p1), j as int)[k as int] == grid_view(
                    p1,
                )[k as int][j as int]);
            }
            result[j] = crate::finite_field::add(
                result[j],
                crate::finite_field::mul(v[k], p1[k][j]),
            );
            k += 1;
        }
        j += 1;
    }
    proof {
        assert(result@ =~= spec_vector_matrix_mul(v@, grid_view(p1)));
    }
    result
}

/// Dot product of two `N`-length vectors, the trace-like scalar product
/// used when evaluating the quadratic map; equals the GF(16) dot product
/// of the sequences.
#[verifier::loop_isolation(false)]
pub fn array_mul_s_p(s: [u8; N], p: [u8; N]) -> (r: u8)
    requires
        vec_in_field(s@),
        vec_in_field(p@),
    ensures
        r == gf_dot(s@, p@),
        is_elem(r),
{
    let mut result: u8 = 0;
    let mut i: usize = 0;
    while i < N
        invariant
            i <= N,
            result == gf_dot_prefix(s@, p@, i as int),
            is_elem(result),
        decreases N - i,
    {
        result = crate::finite_field::add(
            result,
            crate::finite_field::mul(s[i], p[i]),
        );
        i += 1;
    }
    result
}

/// Multiplies the `M x (K*O)` linear-system matrix by a flattened
/// `K*O`-length coefficient array; equals the dynamic
/// `matrix_vector_mul` on the same values.
#[verifier::loop_isolation(false)]
pub fn a_mul_r(matrix: [[u8; KO]; M], array: [u8; KO]) -> (r: [u8; M])
    requires
        mat_in_field(grid_view(matrix)),
        vec_in_field(array@),
    ensures
        r@ == spec_matrix_vector_mul(grid_view(matrix), array@),
        vec_in_field(r@),
{
    proof {
        lemma_grid_wf(matrix);
    }
    let mut result: [u8; M] = [0; M];
    let mut i: usize = 0;
    while i < M
        invariant
            i <= M,
            forall|ii: int| 0 <= ii < i ==> #[trigger] result@[ii] == gf_dot(
                grid_view(matrix)[ii],
                array@,
            ),
            forall|ii: int| i <= ii < M ==> #[trigger] result@[ii] == 0,
            forall|ii: int| 0 <= ii < M ==> is_elem(#[trigger] result@[ii]),
        decreases M - i,
    {
        let mut j: usize = 0;
        while j < KO
            invariant
                i < M,
                j <= KO,
                result@[i as int] == gf_dot_prefix(grid_view(matrix)[i as int], array@, j as int),
                forall|ii: int| 0 <= ii < i ==> #[trigger] result@[ii] == gf_dot(
                    grid_view(matrix)[ii],
                    array@,
                ),
                forall|ii: int| i < ii < M ==> #[trigger] result@[ii] == 0,
                forall|ii: int| 0 <= ii < M ==> is_elem(#[trigger] result@[ii]),
            decreases KO - j,
        {
            proof {
                assert(grid_view(matrix)[i as int] == matrix@[i as int]@);
                assert(is_elem(grid_view(matrix)[i as int][j as int]));
            }
            result[i] = crate::finite_field::add(
                result[i],
                crate::finite_field::mul(matrix[i][j], array[j]),
            );
            j += 1;
        }
        i += 1;
    }
    proof {
        assert(result@ =~= spec_matrix_vector_mul(grid_view(matrix), array@));
    }
    result
}

/// Multiplies the `V x O` oil-space matrix by the first `O` entries of a
/// coefficient slice; equals the dynamic `matrix_vector_mul` applied to
/// that `O`-length prefix.
#[verifier::loop_isolation(false)]
pub fn o_matrix_x_idx_mul(matrix: [[u8; O]; V], array: &[u8]) -> (r: [u8; V])
    requires
        mat_in_field(grid_view(matrix)),
        array@.len() >= O,
        vec_in_field(array@),
    ensures
        r@ == spec_matrix_vector_mul(grid_view(matrix), array@.subrange(0, O as int)),
        vec_in_field(r@),
{
    proof {
        lemma_grid_wf(matrix);
    }
    let mut result: [u8; V] = [0; V];
    let mut i: usize = 0;
    while i < V
        invariant
            i <= V,
            forall|ii: int| 0 <= ii < i ==> #[trigger] result@[ii] == gf_dot(
                grid_view(matrix)[ii],
                array@.subrange(0, O as int),
            ),
            forall|ii: int| i <= ii < V ==> #[trigger] result@[ii] == 0,
            forall|ii: int| 0 <= ii < V ==> is_elem(#[trigger] result@[ii]),
        decreases V - i,
    {
        let mut j: usize = 0;
        while j < O
            invariant
                i < V,
                j <= O,
                result@[i as int] == gf_dot_prefix(
                    grid_view(matrix)[i as int],
                    array@.subrange(0, O as int),
                    j as int,
                ),
                forall|ii: int| 0 <= ii < i ==> #[trigger] result@[ii] == gf_dot(
                    grid_view(matrix)[ii],
                    array@.subrange(0, O as int),
                ),
                forall|ii: int| i < ii < V ==> #[trigger] result@[ii] == 0,
                forall|ii: int| 0 <= ii < V ==> is_elem(#[trigger] result@[ii]),
            decreases O - j,
        {
            proof {
                assert(grid_view(matrix)[i as int] == matrix@[i as int]@);
                assert(is_elem(grid_view(matrix)[i as int][j as int]));
                assert(array@.subrange(0, O as int)[j as int] == array@[j as int]);
            }
            result[i] = crate::finite_field::add(
                result[i],
                crate::finite_field::mul(matrix[i][j], array[j]),
            );
            j += 1;
        }
        i += 1;
    }
    proof {
        assert(result@ =~= spec_matrix_vector_mul(grid_view(matrix), array@.subrange(0, O as int)));
    }
    result
}

/// Dot product of two `V`-length vectors, a row of the public matrix
/// against a vinegar vector; equals the GF(16) dot product of the
/// sequences.
#[verifier::loop_isolation(false)]
pub fn p1_matrix_v_mul(p1: [u8; V], v: [u8; V]) -> (r: u8)
    requires
        vec_in_field(p1@),
        vec_in_field(v@),
    ensures
        r == gf_dot(p1@, v@),
        is_elem(r),
{
    let mut result: u8 = 0;
    let mut i: usize = 0;
    while i < V
        invariant
            i <= V,
            result == gf_dot_prefix(p1@, v@, i as int),
            is_elem(result),
        decreases V - i,
    {
        result = crate::finite_field::add(
            result,
            crate::finite_field::mul(p1[i], v[i]),
        );
        i += 1;
    }
    result
}

} // verus!
