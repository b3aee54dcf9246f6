//! Scalar arithmetic over GF(16), the field of degree-3 polynomials over
//! GF(2) reduced modulo the irreducible polynomial `t^4 + t + 1`.
//!
//! A field element is an integer in `[0, 15]` held in a `u8`; its four low
//! bits are the polynomial's coefficients.  Every operation is branch-free:
//! no conditional, table lookup or shift depends on an operand's value, so
//! running time is independent of (possibly secret) inputs.

use vstd::prelude::*;

verus! {

/// A value is a field element when its high bits are zero.
pub open spec fn is_elem(x: u8) -> bool {
    x < 16
}

/// Negation: every element of a binary field is its own additive inverse.
pub open spec fn gf_neg(x: u8) -> u8 {
    x
}

/// Addition: coefficient-wise addition modulo 2, with no carry.
pub open spec fn gf_add(x: u8, y: u8) -> u8 {
    x ^ y
}

/// Subtraction coincides with addition in characteristic 2.
pub open spec fn gf_sub(x: u8, y: u8) -> u8 {
    x ^ y
}

/// Carryless product of two 4-bit polynomials: for each bit of `x`, mask it
/// against `y` and XOR-accumulate, giving a degree-at-most-6 polynomial.
pub open spec fn gf_clmul(x: u8, y: u8) -> u8 {
    (((x & 1) * y) as u8) ^ (((x & 2) * y) as u8) ^ (((x & 4) * y) as u8) ^ (((x & 8) * y) as u8)
}

/// Reduction of a degree-at-most-6 polynomial modulo `t^4 + t + 1`: the
/// bits above bit 3 are folded down by the rule `t^4 = t + 1`, applied as
/// a shift-and-XOR with no conditional.
pub open spec fn gf_reduce(p: u8) -> u8 {
    (p ^ (((p & 0xf0) >> 4) ^ ((p & 0xf0) >> 3))) & 0x0f
}

/// Multiplication: the carryless product reduced modulo `t^4 + t + 1`.
pub open spec fn gf_mul(x: u8, y: u8) -> u8 {
    gf_reduce(gf_clmul(x, y))
}

/// Inversion as `x^14`, built from five multiplications by repeated
/// squaring; `x^15 == 1` for nonzero `x`, so `x^14` is the multiplicative
/// inverse, and `gf_inv(0) == 0` by convention.
pub open spec fn gf_inv(x: u8) -> u8 {
    let x2: u8 = gf_mul(x, x);
    let x4: u8 = gf_mul(x2, x2);
    let x6: u8 = gf_mul(x2, x4);
    let x8: u8 = gf_mul(x4, x4);
    gf_mul(x8, x6)
}

/// Division: multiplication by the divisor's inverse; `gf_div(x, 0) == 0`.
pub open spec fn gf_div(x: u8, y: u8) -> u8 {
    gf_mul(x, gf_inv(y))
}

/// Negation in GF(16): the identity, since `x + x == 0` makes every
/// element its own additive inverse.
pub fn neg(x: u8) -> (r: u8)
    requires
        is_elem(x),
    ensures
        r == gf_neg(x),
        is_elem(r),
{
    x
}

/// Addition in GF(16): bitwise XOR, coefficient-wise addition modulo 2.
pub fn add(x: u8, y: u8) -> (r: u8)
    requires
        is_elem(x),
        is_elem(y),
    ensures
        r == gf_add(x, y),
        is_elem(r),
{
    proof {
        assert(x < 16 && y < 16 ==> (x ^ y) < 16) by (bit_vector);
    }
    x ^ y
}

/// Subtraction in GF(16): identical to addition, since the field has
/// characteristic 2.
pub fn sub(x: u8, y: u8) -> (r: u8)
    requires
        is_elem(x),
        is_elem(y),
    ensures
        r == gf_sub(x, y),
        r == gf_add(x, y),
        is_elem(r),
{
    proof {
        assert(x < 16 && y < 16 ==> (x ^ y) < 16) by (bit_vector);
    }
    x ^ y
}

/// Multiplication in GF(16): carryless product of the operands, then
/// reduction modulo `t^4 + t + 1` by a constant-time shift-and-XOR fold.
pub fn mul(x: u8, y: u8) -> (r: u8)
    requires
        is_elem(x),
        is_elem(y),
    ensures
        r == gf_mul(x, y),
        is_elem(r),
{
    proof {
        assert((x & 1) * y < 256 && (x & 2) * y < 256 && (x & 4) * y < 256 && (x & 8) * y < 256)
            by (bit_vector)
            requires
                x < 16,
                y < 16,
        ;
    }
    // Carryless multiplication: mask each bit of x against y, XOR-accumulate.
    let mut res: u8 = (x & 1) * y;
    res ^= (x & 2) * y;
    res ^= (x & 4) * y;
    res ^= (x & 8) * y;

    // Fold the bits above bit 3 back down using t^4 = t + 1.
    let high_bits: u8 = res & 0xf0;
    let folded: u8 = (high_bits >> 4) ^ (high_bits >> 3);
    let out: u8 = (res ^ folded) & 0x0f;
    proof {
        assert(((res ^ folded) & 0x0f) < 16) by (bit_vector);
    }
    out
}

/// Inversion in GF(16) by exponentiation to the 14th power via repeated
/// squaring, with no table lookup; returns `0` for the input `0`, which
/// has no inverse.
pub fn inv(x: u8) -> (r: u8)
    requires
        is_elem(x),
    ensures
        r == gf_inv(x),
        is_elem(r),
        x != 0 ==> gf_mul(x, r) == 1,
        x == 0 ==> r == 0,
{
    proof {
        lemma_mul_inv(x);
        if x == 0 {
            lemma_mul_zero(0);
        }
    }
    let x2: u8 = crate::finite_field::mul(x, x);
    let x4: u8 = crate::finite_field::mul(x2, x2);
    let x6: u8 = crate::finite_field::mul(x2, x4);
    let x8: u8 = crate::finite_field::mul(x4, x4);
    let x14: u8 = crate::finite_field::mul(x8, x6);
    x14
}

/// Division in GF(16): the dividend times the divisor's inverse; division
/// by `0` returns `0`, which callers must treat as a degenerate case.
pub fn div(x: u8, y: u8) -> (r: u8)
    requires
        is_elem(x),
        is_elem(y),
    ensures
        r == gf_div(x, y),
        is_elem(r),
        y != 0 ==> gf_mul(r, y) == x,
        y == 0 ==> r == 0,
{
    let y_inv: u8 = crate::finite_field::inv(y);
    let r: u8 = crate::finite_field::mul(x, y_inv);
    proof {
        if y != 0 {
            lemma_mul_comm(y, y_inv);
            lemma_mul_assoc(x, y_inv, y);
            lemma_mul_one(x);
        } else {
            lemma_mul_zero(x);
        }
    }
    r
}

/// Law: every element is its own additive inverse.
pub proof fn lemma_add_self(x: u8)
    by (bit_vector)
    ensures
        gf_add(x, x) == 0,
{
}

/// Law: `0` is the additive identity.
pub proof fn lemma_add_zero(x: u8)
    by (bit_vector)
    ensures
        gf_add(x, 0) == x,
{
}

/// Law: addition is commutative.
pub proof fn lemma_add_comm(x: u8, y: u8)
    by (bit_vector)
    ensures
        gf_add(x, y) == gf_add(y, x),
{
}

/// Law: addition is associative.
pub proof fn lemma_add_assoc(x: u8, y: u8, z: u8)
    by (bit_vector)
    ensures
        gf_add(gf_add(x, y), z) == gf_add(x, gf_add(y, z)),
{
}

/// Law: subtraction and addition are the same operation.
pub proof fn lemma_sub_is_add(x: u8, y: u8)
    ensures
        gf_sub(x, y) == gf_add(x, y),
{
}

/// Law: a product is always a field element, whatever the inputs.
pub proof fn lemma_mul_bound(x: u8, y: u8)
    by (bit_vector)
    ensures
        gf_mul(x, y) < 16,
{
}

/// Law: the sum of two field elements is a field element.
pub proof fn lemma_add_bound(x: u8, y: u8)
    by (bit_vector)
    requires
        x < 16,
        y < 16,
    ensures
        gf_add(x, y) < 16,
{
}

/// Law: multiplication is commutative.
pub proof fn lemma_mul_comm(x: u8, y: u8)
    by (bit_vector)
    requires
        x < 16,
        y < 16,
    ensures
        gf_mul(x, y) == gf_mul(y, x),
{
}

/// Law: multiplication is associative.
pub proof fn lemma_mul_assoc(x: u8, y: u8, z: u8)
    requires
        x < 16,
        y < 16,
        z < 16,
    ensures
        gf_mul(gf_mul(x, y), z) == gf_mul(x, gf_mul(y, z)),
{
    let xy: u8 = gf_mul(x, y);
    let yz: u8 = gf_mul(y, z);
    assert(gf_mul(xy, z) == gf_mul(x, yz)) by (bit_vector)
        requires
            x < 16,
            y < 16,
            z < 16,
            xy == gf_mul(x, y),
            yz == gf_mul(y, z),
    ;
}

/// Law: `1` is the multiplicative identity.
pub proof fn lemma_mul_one(x: u8)
    by (bit_vector)
    requires
        x < 16,
    ensures
        gf_mul(x, 1) == x,
{
}

/// Law: `0` annihilates under multiplication.
pub proof fn lemma_mul_zero(x: u8)
    by (bit_vector)
    ensures
        gf_mul(x, 0) == 0,
        gf_mul(0, x) == 0,
{
}

/// Law: multiplication distributes over addition on the left.
pub proof fn lemma_mul_distrib(x: u8, y: u8, z: u8)
    by (bit_vector)
    requires
        x < 16,
        y < 16,
        z < 16,
    ensures
        gf_mul(x, gf_add(y, z)) == gf_add(gf_mul(x, y), gf_mul(x, z)),
{
}

/// Law: multiplication distributes over addition on the right.
pub proof fn lemma_mul_distrib_right(x: u8, y: u8, z: u8)
    by (bit_vector)
    requires
        x < 16,
        y < 16,
        z < 16,
    ensures
        gf_mul(gf_add(x, y), z) == gf_add(gf_mul(x, z), gf_mul(y, z)),
{
}

/// Law: every nonzero element times its inverse gives `1`, and the
/// inverse is always a field element.
pub proof fn lemma_mul_inv(x: u8)
    requires
        x < 16,
    ensures
        x != 0 ==> gf_mul(x, gf_inv(x)) == 1,
        gf_inv(x) < 16,
{
    let x2: u8 = gf_mul(x, x);
    let x4: u8 = gf_mul(x2, x2);
    let x6: u8 = gf_mul(x2, x4);
    let x8: u8 = gf_mul(x4, x4);
    let x14: u8 = gf_mul(x8, x6);
    assert((x != 0 ==> gf_mul(x, x14) == 1) && x14 < 16) by (bit_vector)
        requires
            x < 16,
            x2 == gf_mul(x, x),
            x4 == gf_mul(x2, x2),
            x6 == gf_mul(x2, x4),
            x8 == gf_mul(x4, x4),
            x14 == gf_mul(x8, x6),
    ;
}

} // verus!
