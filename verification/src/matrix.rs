//! Dynamically sized matrix and vector operations over GF(16).
//!
//! A matrix is an ordered sequence of rows of equal length; shapes are
//! checked at the call boundary (every operation's precondition demands
//! conformant dimensions), so a shape mismatch can never reach the
//! arithmetic.  Every element-wise result is a field addition or
//! subtraction of scalars, and every dot product an accumulation of
//! field products via field addition.

use vstd::prelude::*;

use crate::finite_field::{gf_add, gf_sub, gf_neg, gf_mul, is_elem};
use crate::finite_field::{
    lemma_add_bound, lemma_add_zero, lemma_mul_assoc, lemma_mul_bound, lemma_mul_distrib,
    lemma_mul_distrib_right, lemma_mul_zero,
};

verus! {

/// Every entry of the sequence is a field element.
pub open spec fn vec_in_field(v: Seq<u8>) -> bool {
    forall|i: int| 0 <= i < v.len() ==> is_elem(#[trigger] v[i])
}

/// The mathematical view of a vector of rows.
pub open spec fn rows_view(m: Seq<Vec<u8>>) -> Seq<Seq<u8>> {
    Seq::new(m.len(), |i: int| m[i]@)
}

/// Column count of a matrix: the length of its first row.
pub open spec fn mat_cols(m: Seq<Seq<u8>>) -> nat {
    if m.len() == 0 {
        0
    } else {
        m[0].len()
    }
}

/// A well-formed matrix: all rows have equal length.
pub open spec fn mat_wf(m: Seq<Seq<u8>>) -> bool {
    forall|i: int| 0 <= i < m.len() ==> (#[trigger] m[i]).len() == mat_cols(m)
}

/// Every entry of the matrix is a field element.
pub open spec fn mat_in_field(m: Seq<Seq<u8>>) -> bool {
    forall|i: int| 0 <= i < m.len() ==> vec_in_field(#[trigger] m[i])
}

/// The `j`-th column of a matrix.
pub open spec fn mat_col(m: Seq<Seq<u8>>, j: int) -> Seq<u8> {
    Seq::new(m.len(), |i: int| m[i][j])
}

/// GF(16) dot product of the first `n` entries of two sequences:
/// the field sum of the pairwise field products, accumulated in
/// index order.
pub open spec fn gf_dot_prefix(u: Seq<u8>, w: Seq<u8>, n: int) -> u8
    decreases n,
{
    if n <= 0 {
        0
    } else {
        gf_add(gf_dot_prefix(u, w, n - 1), gf_mul(u[n - 1], w[n - 1]))
    }
}

/// GF(16) dot product of two sequences of equal length.
pub open spec fn gf_dot(u: Seq<u8>, w: Seq<u8>) -> u8
    recommends
        u.len() == w.len(),
{
    gf_dot_prefix(u, w, u.len() as int)
}

/// Element-wise sum of two matrices of equal shape.
pub open spec fn spec_matrix_add(a: Seq<Seq<u8>>, b: Seq<Seq<u8>>) -> Seq<Seq<u8>> {
    Seq::new(a.len(), |i: int| Seq::new(a[i].len(), |j: int| gf_add(a[i][j], b[i][j])))
}

/// Element-wise difference of two matrices of equal shape.
pub open spec fn spec_matrix_sub(a: Seq<Seq<u8>>, b: Seq<Seq<u8>>) -> Seq<Seq<u8>> {
    Seq::new(a.len(), |i: int| Seq::new(a[i].len(), |j: int| gf_sub(a[i][j], b[i][j])))
}

/// Element-wise negation of a matrix.
pub open spec fn spec_matrix_neg(a: Seq<Seq<u8>>) -> Seq<Seq<u8>> {
    Seq::new(a.len(), |i: int| Seq::new(a[i].len(), |j: int| gf_neg(a[i][j])))
}

/// Matrix product: entry `(i, j)` is the dot product of row `i` of `a`
/// with column `j` of `b`.
pub open spec fn spec_matrix_mul(a: Seq<Seq<u8>>, b: Seq<Seq<u8>>) -> Seq<Seq<u8>> {
    Seq::new(a.len(), |i: int| Seq::new(mat_cols(b), |j: int| gf_dot(a[i], mat_col(b, j))))
}

/// Row-vector-by-matrix product: entry `j` is the dot product of `v`
/// with column `j` of `m`.
pub open spec fn spec_vector_matrix_mul(v: Seq<u8>, m: Seq<Seq<u8>>) -> Seq<u8> {
    Seq::new(mat_cols(m), |j: int| gf_dot(v, mat_col(m, j)))
}

/// Matrix-by-column-vector product: entry `i` is the dot product of
/// row `i` of `m` with `v`.
pub open spec fn spec_matrix_vector_mul(m: Seq<Seq<u8>>, v: Seq<u8>) -> Seq<u8> {
    Seq::new(m.len(), |i: int| gf_dot(m[i], v))
}

/// Element-wise matrix addition; the matrices must have equal row and
/// column counts, and a new matrix of the same shape is returned.
#[verifier::loop_isolation(false)]
pub fn matrix_add(a: &Vec<Vec<u8>>, b: &Vec<Vec<u8>>) -> (r: Vec<Vec<u8>>)
    requires
        a@.len() == b@.len(),
        mat_wf(rows_view(a@)),
        mat_wf(rows_view(b@)),
        mat_cols(rows_view(a@)) == mat_cols(rows_view(b@)),
        mat_in_field(rows_view(a@)),
        mat_in_field(rows_view(b@)),
    ensures
        rows_view(r@) == spec_matrix_add(rows_view(a@), rows_view(b@)),
        r@.len() == a@.len(),
        mat_wf(rows_view(r@)),
        mat_in_field(rows_view(r@)),
        mat_cols(rows_view(r@)) == mat_cols(rows_view(a@)),
{
    let mut result: Vec<Vec<u8>> = Vec::new();
    let mut i: usize = 0;
    while i < a.len()
        invariant
            i <= a@.len(),
            result@.len() == i,
            forall|ii: int| 0 <= ii < i ==> (#[trigger] result@[ii])@ == spec_matrix_add(
                rows_view(a@),
                rows_view(b@),
            )[ii],
            forall|ii: int| 0 <= ii < i ==> vec_in_field((#[trigger] result@[ii])@),
            forall|ii: int| 0 <= ii < i ==> (#[trigger] result@[ii])@.len() == mat_cols(
                rows_view(a@),
            ),
        decreases a@.len() - i,
    {
        let mut row: Vec<u8> = Vec::new();
        let mut j: usize = 0;
        while j < a[i].len()
            invariant
                i < a@.len(),
                j <= a@[i as int]@.len(),
                row@.len() == j,
                forall|jj: int| 0 <= jj < j ==> row@[jj] == gf_add(
                    rows_view(a@)[i as int][jj],
                    rows_view(b@)[i as int][jj],
                ),
                forall|jj: int| 0 <= jj < j ==> is_elem(#[trigger] row@[jj]),
            decreases a@[i as int]@.len() - j,
        {
            proof {
                assert(rows_view(a@)[i as int] == a@[i as int]@);
                assert(rows_view(b@)[i as int] == b@[i as int]@);
                assert(is_elem(rows_view(a@)[i as int][j as int]));
                assert(is_elem(rows_view(b@)[i as int][j as int]));
            }
            let s: u8 = crate::finite_field::add(a[i][j], b[i][j]);
            row.push(s);
            j += 1;
        }
        proof {
            assert(row@ =~= spec_matrix_add(rows_view(a@), rows_view(b@))[i as int]);
        }
        result.push(row);
        i += 1;
    }
    proof {
        assert(rows_view(result@) =~= spec_matrix_add(rows_view(a@), rows_view(b@)));
    }
    result
}

/// Element-wise matrix subtraction; identical to addition in
/// characteristic 2, and stated so in its contract.
#[verifier::loop_isolation(false)]
pub fn matrix_sub(a: &Vec<Vec<u8>>, b: &Vec<Vec<u8>>) -> (r: Vec<Vec<u8>>)
    requires
        a@.len() == b@.len(),
        mat_wf(rows_view(a@)),
        mat_wf(rows_view(b@)),
        mat_cols(rows_view(a@)) == mat_cols(rows_view(b@)),
        mat_in_field(rows_view(a@)),
        mat_in_field(rows_view(b@)),
    ensures
        rows_view(r@) == spec_matrix_sub(rows_view(a@), rows_view(b@)),
        r@.len() == a@.len(),
        mat_wf(rows_view(r@)),
        mat_in_field(rows_view(r@)),
        mat_cols(rows_view(r@)) == mat_cols(rows_view(a@)),
{
    let mut result: Vec<Vec<u8>> = Vec::new();
    let mut i: usize = 0;
    while i < a.len()
        invariant
            i <= a@.len(),
            result@.len() == i,
            forall|ii: int| 0 <= ii < i ==> (#[trigger] result@[ii])@ == spec_matrix_sub(
                rows_view(a@),
                rows_view(b@),
            )[ii],
            forall|ii: int| 0 <= ii < i ==> vec_in_field((#[trigger] result@[ii])@),
            forall|ii: int| 0 <= ii < i ==> (#[trigger] result@[ii])@.len() == mat_cols(
                rows_view(a@),
            ),
        decreases a@.len() - i,
    {
        let mut row: Vec<u8> = Vec::new();
        let mut j: usize = 0;
        while j < a[i].len()
            invariant
                i < a@.len(),
                j <= a@[i as int]@.len(),
                row@.len() == j,
                forall|jj: int| 0 <= jj < j ==> row@[jj] == gf_sub(
                    rows_view(a@)[i as int][jj],
                    rows_view(b@)[i as int][jj],
                ),
                forall|jj: int| 0 <= jj < j ==> is_elem(#[trigger] row@[jj]),
            decreases a@[i as int]@.len() - j,
        {
            proof {
                assert(rows_view(a@)[i as int] == a@[i as int]@);
                assert(rows_view(b@)[i as int] == b@[i as int]@);
                assert(is_elem(rows_view(a@)[i as int][j as int]));
                assert(is_elem(rows_view(b@)[i as int][j as int]));
            }
            let s: u8 = crate::finite_field::sub(a[i][j], b[i][j]);
            row.push(s);
            j += 1;
        }
        proof {
            assert(row@ =~= spec_matrix_sub(rows_view(a@), rows_view(b@))[i as int]);
        }
        result.push(row);
        i += 1;
    }
    proof {
        assert(rows_view(result@) =~= spec_matrix_sub(rows_view(a@), rows_view(b@)));
    }
    result
}

/// Element-wise matrix negation: the identity over GF(16), included so
/// call sites stay representation-agnostic.
#[verifier::loop_isolation(false)]
pub fn matrix_neg(a: &Vec<Vec<u8>>) -> (r: Vec<Vec<u8>>)
    requires
        mat_wf(rows_view(a@)),
        mat_in_field(rows_view(a@)),
    ensures
        rows_view(r@) == spec_matrix_neg(rows_view(a@)),
        rows_view(r@) == rows_view(a@),
        r@.len() == a@.len(),
        mat_wf(rows_view(r@)),
        mat_in_field(rows_view(r@)),
        mat_cols(rows_view(r@)) == mat_cols(rows_view(a@)),
{
    let mut result: Vec<Vec<u8>> = Vec::new();
    let mut i: usize = 0;
    while i < a.len()
        invariant
            i <= a@.len(),
            result@.len() == i,
            forall|ii: int| 0 <= ii < i ==> (#[trigger] result@[ii])@ == rows_view(a@)[ii],
        decreases a@.len() - i,
    {
        let mut row: Vec<u8> = Vec::new();
        let mut j: usize = 0;
        while j < a[i].len()
            invariant
                i < a@.len(),
                j <= a@[i as int]@.len(),
                row@.len() == j,
                forall|jj: int| 0 <= jj < j ==> row@[jj] == rows_view(a@)[i as int][jj],
            decreases a@[i as int]@.len() - j,
        {
            proof {
                assert(rows_view(a@)[i as int] == a@[i as int]@);
                assert(is_elem(rows_view(a@)[i as int][j as int]));
            }
            let s: u8 = crate::finite_field::neg(a[i][j]);
            row.push(s);
            j += 1;
        }
        proof {
            assert(row@ =~= rows_view(a@)[i as int]);
        }
        result.push(row);
        i += 1;
    }
    proof {
        assert(rows_view(result@) =~= rows_view(a@));
        assert(spec_matrix_neg(rows_view(a@)) =~~= rows_view(a@));
    }
    result
}

/// Row-vector-by-matrix multiplication over GF(16); the vector's length
/// must equal the matrix's row count, and the result has one entry per
/// matrix column, each fully accumulated before the next.
#[verifier::loop_isolation(false)]
pub fn vector_matrix_mul(v: &Vec<u8>, matrix: &Vec<Vec<u8>>) -> (r: Vec<u8>)
    requires
        v@.len() == matrix@.len(),
        matrix@.len() >= 1,
        mat_wf(rows_view(matrix@)),
        mat_in_field(rows_view(matrix@)),
        vec_in_field(v@),
    ensures
        r@ == spec_vector_matrix_mul(v@, rows_view(matrix@)),
        r@.len() == mat_cols(rows_view(matrix@)),
        vec_in_field(r@),
{
    let rows_matrix: usize = matrix.len();
    let cols_matrix: usize = matrix[0].len();
    proof {
        assert(rows_view(matrix@)[0] == matrix@[0]@);
        assert(cols_matrix == mat_cols(rows_view(matrix@)));
    }
    let mut result: Vec<u8> = Vec::new();
    let mut j: usize = 0;
    while j < cols_matrix
        invariant
            j <= cols_matrix,
            result@.len() == j,
            forall|jj: int| 0 <= jj < j ==> result@[jj] == gf_dot(
                v@,
                mat_col(rows_view(matrix@), jj),
            ),
            forall|jj: int| 0 <= jj < j ==> is_elem(#[trigger] result@[jj]),
        decreases cols_matrix - j,
    {
        let mut acc: u8 = 0;
        let mut i: usize = 0;
        while i < rows_matrix
            invariant
                j < cols_matrix,
                i <= rows_matrix,
                acc == gf_dot_prefix(v@, mat_col(rows_view(matrix@), j as int), i as int),
                is_elem(acc),
            decreases rows_matrix - i,
        {
            proof {
                assert(rows_view(matrix@)[i as int] == matrix@[i as int]@);
                assert(is_elem(rows_view(matrix@)[i as int][j as int]));
                assert(mat_col(rows_view(matrix@), j as int)[i as int] == rows_view(
                    matrix@,
                )[i as int][j as int]);
            }
            acc = crate::finite_field::add(
                acc,
                crate::finite_field::mul(v[i], matrix[i][j]),
            );
            i += 1;
        }
        result.push(acc);
        j += 1;
    }
    proof {
        assert(result@ =~= spec_vector_matrix_mul(v@, rows_view(matrix@)));
    }
    result
}

/// Matrix-by-column-vector multiplication over GF(16); the matrix's
/// column count must equal the vector's length, and the result has one
/// entry per matrix row.
#[verifier::loop_isolation(false)]
pub fn matrix_vector_mul(matrix: &Vec<Vec<u8>>, v: &Vec<u8>) -> (r: Vec<u8>)
    requires
        matrix@.len() >= 1,
        mat_cols(rows_view(matrix@)) == v@.len(),
        mat_wf(rows_view(matrix@)),
        mat_in_field(rows_view(matrix@)),
        vec_in_field(v@),
    ensures
        r@ == spec_matrix_vector_mul(rows_view(matrix@), v@),
        r@.len() == matrix@.len(),
        vec_in_field(r@),
{
    let rows_matrix: usize = matrix.len();
    let cols_matrix: usize = matrix[0].len();
    proof {
        assert(rows_view(matrix@)[0] == matrix@[0]@);
        assert(cols_matrix == mat_cols(rows_view(matrix@)));
    }
    let mut result: Vec<u8> = Vec::new();
    let mut i: usize = 0;
    while i < rows_matrix
        invariant
            i <= rows_matrix,
            result@.len() == i,
            forall|ii: int| 0 <= ii < i ==> result@[ii] == gf_dot(
                rows_view(matrix@)[ii],
                v@,
            ),
            forall|ii: int| 0 <= ii < i ==> is_elem(#[trigger] result@[ii]),
        decreases rows_matrix - i,
    {
        let mut acc: u8 = 0;
        let mut k: usize = 0;
        while k < cols_matrix
            invariant
                i < rows_matrix,
                k <= cols_matrix,
                acc == gf_dot_prefix(rows_view(matrix@)[i as int], v@, k as int),
                is_elem(acc),
            decreases cols_matrix - k,
        {
            proof {
                assert(rows_view(matrix@)[i as int] == matrix@[i as int]@);
                assert(is_elem(rows_view(matrix@)[i as int][k as int]));
            }
            acc = crate::finite_field::add(
                acc,
                crate::finite_field::mul(matrix[i][k], v[k]),
            );
            k += 1;
        }
        result.push(acc);
        i += 1;
    }
    proof {
        assert(result@ =~= spec_matrix_vector_mul(rows_view(matrix@), v@));
    }
    result
}

/// Standard matrix product over GF(16); `a`'s column count must equal
/// `b`'s row count.  Entry `(i, j)` is accumulated in row-major order,
/// then column order, then reduction order.
#[verifier::loop_isolation(false)]
pub fn matrix_mul(a: &Vec<Vec<u8>>, b: &Vec<Vec<u8>>) -> (r: Vec<Vec<u8>>)
    requires
        b@.len() >= 1,
        mat_cols(rows_view(a@)) == b@.len(),
        mat_wf(rows_view(a@)),
        mat_wf(rows_view(b@)),
        mat_in_field(rows_view(a@)),
        mat_in_field(rows_view(b@)),
    ensures
        rows_view(r@) == spec_matrix_mul(rows_view(a@), rows_view(b@)),
        r@.len() == a@.len(),
        mat_wf(rows_view(r@)),
        mat_in_field(rows_view(r@)),
        mat_cols(rows_view(r@)) == if a@.len() == 0 {
            0nat
        } else {
            mat_cols(rows_view(b@))
        },
{
    let rows_a: usize = a.len();
    let cols_b: usize = b[0].len();
    proof {
        assert(rows_view(b@)[0] == b@[0]@);
        assert(cols_b == mat_cols(rows_view(b@)));
    }
    let mut result: Vec<Vec<u8>> = Vec::new();
    let mut i: usize = 0;
    while i < rows_a
        invariant
            i <= rows_a,
            result@.len() == i,
            forall|ii: int| 0 <= ii < i ==> (#[trigger] result@[ii])@ == spec_matrix_mul(
                rows_view(a@),
                rows_view(b@),
            )[ii],
            forall|ii: int| 0 <= ii < i ==> vec_in_field((#[trigger] result@[ii])@),
            forall|ii: int| 0 <= ii < i ==> (#[trigger] result@[ii])@.len() == mat_cols(
                rows_view(b@),
            ),
        decreases rows_a - i,
    {
        let mut row: Vec<u8> = Vec::new();
        let mut j: usize = 0;
        while j < cols_b
            invariant
                i < rows_a,
                j <= cols_b,
                row@.len() == j,
                forall|jj: int| 0 <= jj < j ==> row@[jj] == gf_dot(
                    rows_view(a@)[i as int],
                    mat_col(rows_view(b@), jj),
                ),
                forall|jj: int| 0 <= jj < j ==> is_elem(#[trigger] row@[jj]),
            decreases cols_b - j,
        {
            let mut acc: u8 = 0;
            let mut k: usize = 0;
            while k < b.len()
                invariant
                    i < rows_a,
                    j < cols_b,
                    k <= b@.len(),
                    acc == gf_dot_prefix(
                        rows_view(a@)[i as int],
                        mat_col(rows_view(b@), j as int),
                        k as int,
                    ),
                    is_elem(acc),
                decreases b@.len() - k,
            {
                proof {
                    assert(rows_view(a@)[i as int] == a@[i as int]@);
                    assert(rows_view(b@)[k as int] == b@[k as int]@);
                    assert(is_elem(rows_view(a@)[i as int][k as int]));
                    assert(is_elem(rows_view(b@)[k as int][j as int]));
                    assert(mat_col(rows_view(b@), j as int)[k as int] == rows_view(
                        b@,
                    )[k as int][j as int]);
                }
                acc = crate::finite_field::add(
                    acc,
                    crate::finite_field::mul(a[i][k], b[k][j]),
                );
                k += 1;
            }
            row.push(acc);
            j += 1;
        }
        proof {
            assert(row@ =~= spec_matrix_mul(rows_view(a@), rows_view(b@))[i as int]);
        }
        result.push(row);
        i += 1;
    }
    proof {
        assert(rows_view(result@) =~= spec_matrix_mul(rows_view(a@), rows_view(b@)));
    }
    result
}

/// Law: over GF(16), matrix addition and matrix subtraction are the
/// same operation, for all matrices of equal shape.
pub proof fn lemma_matrix_add_eq_sub(a: Seq<Seq<u8>>, b: Seq<Seq<u8>>)
    ensures
        spec_matrix_add(a, b) == spec_matrix_sub(a, b),
{
    assert(spec_matrix_add(a, b) =~~= spec_matrix_sub(a, b));
}

/// Law: over GF(16), matrix negation is the identity.
pub proof fn lemma_matrix_neg_identity(a: Seq<Seq<u8>>)
    ensures
        spec_matrix_neg(a) == a,
{
    assert(spec_matrix_neg(a) =~~= a);
}

/// Law: a dot-product prefix is always a field element.
pub proof fn lemma_dot_prefix_bound(u: Seq<u8>, w: Seq<u8>, n: int)
    ensures
        is_elem(gf_dot_prefix(u, w, n)),
    decreases n,
{
    if n <= 0 {
    } else {
        lemma_dot_prefix_bound(u, w, n - 1);
        lemma_mul_bound(u[n - 1], w[n - 1]);
        lemma_add_bound(gf_dot_prefix(u, w, n - 1), gf_mul(u[n - 1], w[n - 1]));
    }
}

/// Element-wise field sum of two sequences.
spec fn seq_add(w1: Seq<u8>, w2: Seq<u8>) -> Seq<u8> {
    Seq::new(w1.len(), |i: int| gf_add(w1[i], w2[i]))
}

/// A sequence with every entry scaled by a field element.
spec fn seq_scale(w: Seq<u8>, c: u8) -> Seq<u8> {
    Seq::new(w.len(), |i: int| gf_mul(w[i], c))
}

/// The dot products of one vector against each member of a family of
/// columns.
spec fn dots_with(u: Seq<u8>, cols: Seq<Seq<u8>>) -> Seq<u8> {
    Seq::new(cols.len(), |k: int| gf_dot(u, cols[k]))
}

/// Entry `l` is the dot-product prefix, over the first `n` columns, of
/// the columns' `l`-th entries against `c`: the partial column-wise
/// combination of the family `cols` with coefficients `c`.
spec fn partial_combo(cols: Seq<Seq<u8>>, c: Seq<u8>, m: nat, n: int) -> Seq<u8> {
    Seq::new(m, |l: int| gf_dot_prefix(mat_col(cols, l), c, n))
}

/// A dot-product prefix against a sequence of zeros is zero.
proof fn lemma_dot_prefix_zeros(u: Seq<u8>, z: Seq<u8>, n: int)
    requires
        forall|l: int| 0 <= l < n ==> z[l] == 0,
    ensures
        gf_dot_prefix(u, z, n) == 0,
    decreases n,
{
    if n <= 0 {
    } else {
        lemma_dot_prefix_zeros(u, z, n - 1);
        lemma_mul_zero(u[n - 1]);
        lemma_add_zero(0);
    }
}

/// Dot products are linear in their second argument: distributing a
/// pointwise sum out of a dot-product prefix.
proof fn lemma_dot_prefix_add(u: Seq<u8>, w1: Seq<u8>, w2: Seq<u8>, n: int)
    requires
        vec_in_field(u),
        vec_in_field(w1),
        vec_in_field(w2),
        n <= u.len(),
        n <= w1.len(),
        n <= w2.len(),
    ensures
        gf_dot_prefix(u, seq_add(w1, w2), n) == gf_add(
            gf_dot_prefix(u, w1, n),
            gf_dot_prefix(u, w2, n),
        ),
    decreases n,
{
    if n <= 0 {
        lemma_add_zero(0);
    } else {
        lemma_dot_prefix_add(u, w1, w2, n - 1);
        let d1 = gf_dot_prefix(u, w1, n - 1);
        let d2 = gf_dot_prefix(u, w2, n - 1);
        let m1 = gf_mul(u[n - 1], w1[n - 1]);
        let m2 = gf_mul(u[n - 1], w2[n - 1]);
        lemma_mul_distrib(u[n - 1], w1[n - 1], w2[n - 1]);
        assert(gf_add(gf_add(d1, d2), gf_add(m1, m2)) == gf_add(gf_add(d1, m1), gf_add(d2, m2)))
            by (bit_vector);
    }
}

/// Dot products respect scaling of their second argument.
proof fn lemma_dot_prefix_scale(u: Seq<u8>, w: Seq<u8>, c: u8, n: int)
    requires
        vec_in_field(u),
        vec_in_field(w),
        is_elem(c),
        n <= u.len(),
        n <= w.len(),
    ensures
        gf_dot_prefix(u, seq_scale(w, c), n) == gf_mul(gf_dot_prefix(u, w, n), c),
    decreases n,
{
    if n <= 0 {
        lemma_mul_zero(c);
    } else {
        lemma_dot_prefix_scale(u, w, c, n - 1);
        let d = gf_dot_prefix(u, w, n - 1);
        let m = gf_mul(u[n - 1], w[n - 1]);
        lemma_mul_assoc(u[n - 1], w[n - 1], c);
        lemma_dot_prefix_bound(u, w, n - 1);
        lemma_mul_bound(u[n - 1], w[n - 1]);
        lemma_mul_distrib_right(d, m, c);
    }
}

/// The sum-exchange step behind associativity: dotting the dot products
/// `u . cols[k]` against coefficients `c` equals dotting `u` against the
/// column-wise combination of `cols` with coefficients `c`.
proof fn lemma_dot_of_dots(u: Seq<u8>, cols: Seq<Seq<u8>>, c: Seq<u8>, n: int)
    requires
        vec_in_field(u),
        mat_in_field(cols),
        vec_in_field(c),
        forall|k: int| 0 <= k < cols.len() ==> (#[trigger] cols[k]).len() == u.len(),
        0 <= n <= cols.len(),
        n <= c.len(),
    ensures
        gf_dot_prefix(dots_with(u, cols), c, n) == gf_dot(u, partial_combo(cols, c, u.len(), n)),
    decreases n,
{
    let m = u.len();
    if n <= 0 {
        assert forall|l: int| 0 <= l < m implies partial_combo(cols, c, m, n)[l] == 0 by {}
        lemma_dot_prefix_zeros(u, partial_combo(cols, c, m, n), m as int);
    } else {
        lemma_dot_of_dots(u, cols, c, n - 1);
        let w1 = partial_combo(cols, c, m, n - 1);
        let w2 = seq_scale(cols[n - 1], c[n - 1]);

        // The scaled column is the step from the partial combination at
        // n - 1 to the one at n.
        assert forall|l: int| 0 <= l < m implies seq_add(w1, w2)[l] == partial_combo(
            cols,
            c,
            m,
            n,
        )[l] by {
            assert(mat_col(cols, l)[n - 1] == cols[n - 1][l]);
        }
        assert(seq_add(w1, w2) =~= partial_combo(cols, c, m, n));

        // Both arguments of the pointwise sum hold field elements.
        assert forall|l: int| 0 <= l < w1.len() implies is_elem(#[trigger] w1[l]) by {
            lemma_dot_prefix_bound(mat_col(cols, l), c, n - 1);
        }
        assert forall|l: int| 0 <= l < w2.len() implies is_elem(#[trigger] w2[l]) by {
            lemma_mul_bound(cols[n - 1][l], c[n - 1]);
        }

        lemma_dot_prefix_scale(u, cols[n - 1], c[n - 1], m as int);
        lemma_dot_prefix_add(u, w1, w2, m as int);
        assert(dots_with(u, cols)[n - 1] == gf_dot(u, cols[n - 1]));
    }
}

/// Law: the matrix product is associative: for conformant matrices,
/// `(A B) C == A (B C)`.
pub proof fn lemma_matrix_mul_assoc(a: Seq<Seq<u8>>, b: Seq<Seq<u8>>, c: Seq<Seq<u8>>)
    requires
        mat_wf(a),
        mat_wf(b),
        mat_wf(c),
        mat_in_field(a),
        mat_in_field(b),
        mat_in_field(c),
        a.len() >= 1,
        b.len() >= 1,
        c.len() >= 1,
        mat_cols(a) == b.len(),
        mat_cols(b) == c.len(),
    ensures
        spec_matrix_mul(spec_matrix_mul(a, b), c) == spec_matrix_mul(a, spec_matrix_mul(b, c)),
{
    let ab = spec_matrix_mul(a, b);
    let bc = spec_matrix_mul(b, c);
    assert(mat_cols(ab) == mat_cols(b));
    assert(mat_cols(bc) == mat_cols(c));

    assert forall|i: int, j: int|
        0 <= i < a.len() && 0 <= j < mat_cols(c) implies #[trigger] spec_matrix_mul(
        ab,
        c,
    )[i][j] == #[trigger] spec_matrix_mul(a, bc)[i][j] by {
        let u = a[i];
        let colsb = Seq::new(mat_cols(b), |k: int| mat_col(b, k));
        let cc = mat_col(c, j);

        // Field-membership and length side conditions for the exchange.
        assert forall|k: int| 0 <= k < colsb.len() implies vec_in_field(#[trigger] colsb[k])
            && colsb[k].len() == u.len() by {
            assert forall|l: int| 0 <= l < mat_col(b, k).len() implies is_elem(
                #[trigger] mat_col(b, k)[l],
            ) by {
                assert(mat_col(b, k)[l] == b[l][k]);
            }
        }
        assert forall|l: int| 0 <= l < cc.len() implies is_elem(#[trigger] cc[l]) by {
            assert(cc[l] == c[l][j]);
        }

        lemma_dot_of_dots(u, colsb, cc, c.len() as int);

        // The left side is the dot of row i of AB against column j of C.
        assert(ab[i] =~= dots_with(u, colsb));

        // The right side is the dot of row i of A against column j of BC.
        assert forall|l: int| 0 <= l < u.len() implies partial_combo(
            colsb,
            cc,
            u.len(),
            c.len() as int,
        )[l] == mat_col(bc, j)[l] by {
            assert(mat_col(colsb, l) =~= b[l]);
            assert(mat_col(bc, j)[l] == bc[l][j]);
        }
        assert(partial_combo(colsb, cc, u.len(), c.len() as int) =~= mat_col(bc, j));
    }
    assert(spec_matrix_mul(ab, c) =~~= spec_matrix_mul(a, bc));
}

} // verus!
