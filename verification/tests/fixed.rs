use gf16::constants::{KO, M, N, O, V};
use gf16::{fixed, matrix};

fn element(i: usize, j: usize, seed: u8) -> u8 {
    ((i as u8).wrapping_mul(5) ^ (j as u8).wrapping_mul(3) ^ seed) & 0x0f
}

fn to_rows<const C: usize, const R: usize>(m: &[[u8; C]; R]) -> Vec<Vec<u8>> {
    m.iter().map(|row| row.to_vec()).collect()
}

#[test]
fn matrix_mul_v_l_matches_dynamic() {
    let mut a = [0u8; V];
    for (i, e) in a.iter_mut().enumerate() {
        *e = element(i, 1, 7);
    }
    let mut b = [[0u8; O]; V];
    for i in 0..V {
        for j in 0..O {
            b[i][j] = element(i, j, 2);
        }
    }
    let r = fixed::matrix_mul_v_l(a, b);
    let dynamic = matrix::vector_matrix_mul(&a.to_vec(), &to_rows(&b));
    assert_eq!(r.to_vec(), dynamic);
}

#[test]
fn matrix_mul_s_trans_big_p_matches_dynamic() {
    let mut s = [0u8; N];
    for (i, e) in s.iter_mut().enumerate() {
        *e = element(i, 2, 5);
    }
    let mut big_p = [[0u8; N]; N];
    for i in 0..N {
        for j in 0..N {
            big_p[i][j] = element(i, j, 9);
        }
    }
    let r = fixed::matrix_mul_s_trans_big_p(s, big_p);
    let dynamic = matrix::vector_matrix_mul(&s.to_vec(), &to_rows(&big_p));
    assert_eq!(r.to_vec(), dynamic);
}

#[test]
fn matrix_mul_v_p1_matches_dynamic() {
    let mut v = [0u8; V];
    for (i, e) in v.iter_mut().enumerate() {
        *e = element(i, 3, 11);
    }
    let mut p1 = [[0u8; V]; V];
    for i in 0..V {
        for j in 0..V {
            p1[i][j] = element(i, j, 4);
        }
    }
    let r = fixed::matrix_mul_v_p1(v, p1);
    let dynamic = matrix::vector_matrix_mul(&v.to_vec(), &to_rows(&p1));
    assert_eq!(r.to_vec(), dynamic);
}

#[test]
fn array_mul_s_p_matches_dynamic() {
    let mut s = [0u8; N];
    let mut p = [0u8; N];
    for i in 0..N {
        s[i] = element(i, 4, 13);
        p[i] = element(i, 5, 6);
    }
    let r = fixed::array_mul_s_p(s, p);
    // A dot product is a 1-row matrix times a column vector.
    let dynamic = matrix::matrix_vector_mul(&vec![s.to_vec()], &p.to_vec());
    assert_eq!(vec![r], dynamic);
}

#[test]
fn a_mul_r_matches_dynamic() {
    let mut m = [[0u8; KO]; M];
    for i in 0..M {
        for j in 0..KO {
            m[i][j] = element(i, j, 1);
        }
    }
    let mut arr = [0u8; KO];
    for (i, e) in arr.iter_mut().enumerate() {
        *e = element(i, 6, 3);
    }
    let r = fixed::a_mul_r(m, arr);
    let dynamic = matrix::matrix_vector_mul(&to_rows(&m), &arr.to_vec());
    assert_eq!(r.to_vec(), dynamic);
}

#[test]
fn o_matrix_x_idx_mul_matches_dynamic() {
    let mut m = [[0u8; O]; V];
    for i in 0..V {
        for j in 0..O {
            m[i][j] = element(i, j, 14);
        }
    }
    // A longer slice: only the first O entries take part.
    let mut xs = Vec::new();
    for i in 0..(O + 5) {
        xs.push(element(i, 7, 8));
    }
    let r = fixed::o_matrix_x_idx_mul(m, &xs);
    let dynamic = matrix::matrix_vector_mul(&to_rows(&m), &xs[..O].to_vec());
    assert_eq!(r.to_vec(), dynamic);
}

#[test]
fn p1_matrix_v_mul_matches_dynamic() {
    let mut p1 = [0u8; V];
    let mut v = [0u8; V];
    for i in 0..V {
        p1[i] = element(i, 8, 10);
        v[i] = element(i, 9, 15);
    }
    let r = fixed::p1_matrix_v_mul(p1, v);
    let dynamic = matrix::matrix_vector_mul(&vec![p1.to_vec()], &v.to_vec());
    assert_eq!(vec![r], dynamic);
}

#[test]
fn fixed_dot_products_agree_with_each_other() {
    // The two dot-product specializations compute the same function on
    // equal-length inputs of the overlapping shape.
    let mut a = [0u8; V];
    let mut b = [0u8; V];
    for i in 0..V {
        a[i] = element(i, 10, 12);
        b[i] = element(i, 11, 1);
    }
    let mut a_n = [0u8; N];
    let mut b_n = [0u8; N];
    a_n[..V].copy_from_slice(&a);
    b_n[..V].copy_from_slice(&b);
    // The tail of the N-length arrays is zero and contributes nothing.
    assert_eq!(
        fixed::p1_matrix_v_mul(a, b),
        fixed::array_mul_s_p(a_n, b_n)
    );
}
