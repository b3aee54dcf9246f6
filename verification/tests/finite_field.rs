use gf16::finite_field;

#[test]
fn test_neg() {
    // Negation is the additive inverse; in a binary field every element
    // is its own inverse, so negation is the identity.
    assert_eq!(finite_field::neg(0x0), 0x0);
    assert_eq!(finite_field::neg(0x1), 0x1);
    assert_eq!(finite_field::neg(0xf), 0xf);
    assert_eq!(finite_field::neg(0xe), 0xe);
}

#[test]
fn test_add() {
    assert_eq!(finite_field::add(0x0, 0x0), 0x0);
    assert_eq!(finite_field::add(0x1, 0x1), 0x0);
    assert_eq!(finite_field::add(0x1, 0x2), 0x3);
    assert_eq!(finite_field::add(0x3, 0x1), 0x2);
    assert_eq!(finite_field::add(0x6, 0x6), 0x0);
}

#[test]
fn test_sub() {
    // Subtraction coincides with addition in GF(16).
    assert_eq!(finite_field::sub(0x0, 0x0), 0x0);
    assert_eq!(finite_field::sub(0x3, 0x1), 0x2);
    assert_eq!(finite_field::sub(0x1, 0x2), 0x3);
    assert_eq!(finite_field::sub(0x6, 0xf), 0x9);
}

#[test]
fn test_mul() {
    assert_eq!(finite_field::mul(0x0, 0x0), 0x0);
    assert_eq!(finite_field::mul(0x1, 0x1), 0x1);
    assert_eq!(finite_field::mul(0x2, 0x2), 0x4);
    assert_eq!(finite_field::mul(0x3, 0x3), 0x5);
    assert_eq!(finite_field::mul(0xC, 0x3), 0x7);
    assert_eq!(finite_field::mul(0xC, 0x7), 0x2);
    assert_eq!(finite_field::mul(0xf, 0xf), 0xa);
}

#[test]
fn test_inv() {
    // inv(0) returns 0 by convention, though no inverse exists.
    assert_eq!(finite_field::inv(0x0), 0x0);
    assert_eq!(finite_field::inv(0x1), 0x1);
    assert_eq!(finite_field::inv(0x2), 0x9);
    assert_eq!(finite_field::inv(0x3), 0xe);
    assert_eq!(finite_field::inv(0x4), 0xd);
    assert_eq!(finite_field::inv(0x5), 0xb);
    assert_eq!(finite_field::inv(0x6), 0x7);
    assert_eq!(finite_field::inv(0x8), 0xf);
}

#[test]
fn add_is_self_inverse_with_identity_zero() {
    for x in 0u8..16 {
        assert_eq!(finite_field::add(x, x), 0);
        assert_eq!(finite_field::add(x, 0), x);
    }
}

#[test]
fn add_commutative_and_associative() {
    for x in 0u8..16 {
        for y in 0u8..16 {
            assert_eq!(finite_field::add(x, y), finite_field::add(y, x));
            for z in 0u8..16 {
                assert_eq!(
                    finite_field::add(finite_field::add(x, y), z),
                    finite_field::add(x, finite_field::add(y, z))
                );
            }
        }
    }
}

#[test]
fn mul_commutative_and_associative_with_identity_one() {
    for x in 0u8..16 {
        assert_eq!(finite_field::mul(x, 1), x);
        for y in 0u8..16 {
            assert_eq!(finite_field::mul(x, y), finite_field::mul(y, x));
            for z in 0u8..16 {
                assert_eq!(
                    finite_field::mul(finite_field::mul(x, y), z),
                    finite_field::mul(x, finite_field::mul(y, z))
                );
            }
        }
    }
}

#[test]
fn mul_distributes_over_add() {
    for x in 0u8..16 {
        for y in 0u8..16 {
            for z in 0u8..16 {
                assert_eq!(
                    finite_field::mul(x, finite_field::add(y, z)),
                    finite_field::add(finite_field::mul(x, y), finite_field::mul(x, z))
                );
            }
        }
    }
}

#[test]
fn sub_equals_add_everywhere() {
    for x in 0u8..16 {
        for y in 0u8..16 {
            assert_eq!(finite_field::sub(x, y), finite_field::add(x, y));
        }
    }
}

#[test]
fn every_nonzero_element_times_its_inverse_is_one() {
    for x in 1u8..16 {
        assert_eq!(finite_field::mul(x, finite_field::inv(x)), 1);
    }
}

#[test]
fn div_multiplies_by_the_inverse() {
    for x in 0u8..16 {
        // Division by zero returns 0, an unchecked degenerate case.
        assert_eq!(finite_field::div(x, 0), 0);
        for y in 1u8..16 {
            let q = finite_field::div(x, y);
            assert_eq!(finite_field::mul(q, y), x);
            assert_eq!(q, finite_field::mul(x, finite_field::inv(y)));
        }
    }
}
