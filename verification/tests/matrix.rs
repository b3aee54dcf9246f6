use gf16::matrix;

fn sample_matrix(rows: usize, cols: usize, seed: u8) -> Vec<Vec<u8>> {
    let mut m = Vec::new();
    for i in 0..rows {
        let mut row = Vec::new();
        for j in 0..cols {
            row.push(((i as u8).wrapping_mul(5) ^ (j as u8).wrapping_mul(3) ^ seed) & 0x0f);
        }
        m.push(row);
    }
    m
}

fn sample_vector(len: usize, seed: u8) -> Vec<u8> {
    let mut v = Vec::new();
    for i in 0..len {
        v.push(((i as u8).wrapping_mul(7) ^ seed) & 0x0f);
    }
    v
}

#[test]
fn matrix_mul_end_to_end_scenario() {
    // A is 2 x 1, B is 1 x 2; the product reproduces exact GF(16) values.
    let a = vec![vec![2u8], vec![8u8]];
    let b = vec![vec![3u8, 1u8]];
    let product = matrix::matrix_mul(&a, &b);
    assert_eq!(product, vec![vec![6u8, 2u8], vec![11u8, 8u8]]);
}

#[test]
fn matrix_add_equals_matrix_sub() {
    let a = sample_matrix(4, 5, 9);
    let b = sample_matrix(4, 5, 2);
    assert_eq!(matrix::matrix_add(&a, &b), matrix::matrix_sub(&a, &b));
}

#[test]
fn matrix_add_exact_values() {
    let a = vec![vec![0x1u8, 0x2], vec![0xf, 0x6]];
    let b = vec![vec![0x1u8, 0x3], vec![0x9, 0x6]];
    let sum = matrix::matrix_add(&a, &b);
    assert_eq!(sum, vec![vec![0x0u8, 0x1], vec![0x6, 0x0]]);
}

#[test]
fn matrix_add_of_empty_matrices_is_empty() {
    let a: Vec<Vec<u8>> = Vec::new();
    let b: Vec<Vec<u8>> = Vec::new();
    assert_eq!(matrix::matrix_add(&a, &b), Vec::<Vec<u8>>::new());
}

#[test]
fn matrix_neg_is_identity() {
    let a = sample_matrix(3, 7, 4);
    assert_eq!(matrix::matrix_neg(&a), a);
}

#[test]
fn matrix_mul_is_associative() {
    let a = sample_matrix(3, 4, 1);
    let b = sample_matrix(4, 2, 6);
    let c = sample_matrix(2, 5, 11);
    let left = matrix::matrix_mul(&matrix::matrix_mul(&a, &b), &c);
    let right = matrix::matrix_mul(&a, &matrix::matrix_mul(&b, &c));
    assert_eq!(left, right);
}

#[test]
fn vector_matrix_mul_exact_values() {
    // [1, 2] times [[3, 1], [4, 5]]: entries 1*3 + 2*4, 1*1 + 2*5.
    let v = vec![1u8, 2u8];
    let m = vec![vec![3u8, 1u8], vec![4u8, 5u8]];
    let r = matrix::vector_matrix_mul(&v, &m);
    let e0 = gf16::finite_field::add(
        gf16::finite_field::mul(1, 3),
        gf16::finite_field::mul(2, 4),
    );
    let e1 = gf16::finite_field::add(
        gf16::finite_field::mul(1, 1),
        gf16::finite_field::mul(2, 5),
    );
    assert_eq!(r, vec![e0, e1]);
}

#[test]
fn matrix_vector_mul_exact_values() {
    // [[3, 1], [4, 5]] times [1, 2]: entries 3*1 + 1*2, 4*1 + 5*2.
    let m = vec![vec![3u8, 1u8], vec![4u8, 5u8]];
    let v = vec![1u8, 2u8];
    let r = matrix::matrix_vector_mul(&m, &v);
    let e0 = gf16::finite_field::add(
        gf16::finite_field::mul(3, 1),
        gf16::finite_field::mul(1, 2),
    );
    let e1 = gf16::finite_field::add(
        gf16::finite_field::mul(4, 1),
        gf16::finite_field::mul(5, 2),
    );
    assert_eq!(r, vec![e0, e1]);
}

#[test]
fn matrix_mul_as_vector_products() {
    // A row vector as a 1-row matrix and a column vector as a 1-column
    // matrix give the same products as the dedicated vector operations.
    let v = sample_vector(4, 3);
    let m = sample_matrix(4, 6, 8);
    let via_vector = matrix::vector_matrix_mul(&v, &m);
    let via_matrix = matrix::matrix_mul(&vec![v.clone()], &m);
    assert_eq!(via_matrix, vec![via_vector]);

    let w = sample_vector(6, 12);
    let column: Vec<Vec<u8>> = w.iter().map(|e| vec![*e]).collect();
    let via_vector = matrix::matrix_vector_mul(&m, &w);
    let via_matrix = matrix::matrix_mul(&m, &column);
    let expected: Vec<Vec<u8>> = via_vector.iter().map(|e| vec![*e]).collect();
    assert_eq!(via_matrix, expected);
}
