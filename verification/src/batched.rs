//! A batched representation of GF(16) elements: two field elements packed
//! into each byte, the element at an even position in the low nibble and
//! its odd-position neighbour in the high nibble.
//!
//! The representation exists for parallel evaluation — one byte-wide XOR
//! adds two pairs of elements at once — and its acceptance criterion is
//! equivalence with the scalar layer: decoding the batched result of an
//! operation gives exactly the scalar operation applied to each decoded
//! element.  That equivalence is stated in every operation's contract.

use vstd::prelude::*;

use crate::finite_field::{gf_add, gf_mul, gf_neg, gf_sub, is_elem};
use crate::matrix::vec_in_field;

verus! {

/// The sequence of field elements a packed batch stands for: each byte
/// contributes its low nibble, then its high nibble.
pub open spec fn spec_decode(b: Seq<u8>) -> Seq<u8> {
    Seq::new(
        b.len() * 2,
        |i: int|
            if i % 2 == 0 {
                b[i / 2] & 0x0f
            } else {
                b[i / 2] >> 4
            },
    )
}

/// Packs a sequence of field elements, two per byte; decoding the result
/// gives back exactly the input.
#[verifier::loop_isolation(false)]
pub fn encode(elems: &Vec<u8>) -> (r: Vec<u8>)
    requires
        elems@.len() % 2 == 0,
        vec_in_field(elems@),
    ensures
        r@.len() * 2 == elems@.len(),
        spec_decode(r@) == elems@,
{
    let half: usize = elems.len() / 2;
    let mut packed: Vec<u8> = Vec::new();
    let mut i: usize = 0;
    while i < half
        invariant
            i <= half,
            packed@.len() == i,
            forall|ii: int| 0 <= ii < i ==> #[trigger] packed@[ii] & 0x0f == elems@[2 * ii],
            forall|ii: int| 0 <= ii < i ==> #[trigger] packed@[ii] >> 4 == elems@[2 * ii + 1],
        decreases half - i,
    {
        let lo: u8 = elems[2 * i];
        let hi: u8 = elems[2 * i + 1];
        proof {
            assert(lo < 16 && hi < 16 ==> ((lo | (hi << 4)) & 0x0f) == lo && ((lo | (hi << 4))
                >> 4) == hi) by (bit_vector);
        }
        packed.push(lo | (hi << 4));
        i += 1;
    }
    proof {
        assert(spec_decode(packed@) =~= elems@);
    }
    packed
}

/// Unpacks a batch into the sequence of field elements it stands for.
#[verifier::loop_isolation(false)]
pub fn decode(packed: &Vec<u8>) -> (r: Vec<u8>)
    ensures
        r@ == spec_decode(packed@),
        r@.len() == packed@.len() * 2,
        vec_in_field(r@),
{
    let mut elems: Vec<u8> = Vec::new();
    let mut i: usize = 0;
    while i < packed.len()
        invariant
            i <= packed@.len(),
            elems@.len() == 2 * i,
            forall|ii: int| 0 <= ii < 2 * i ==> #[trigger] elems@[ii] == spec_decode(packed@)[ii],
            forall|ii: int| 0 <= ii < 2 * i ==> is_elem(#[trigger] elems@[ii]),
        decreases packed@.len() - i,
    {
        let b: u8 = packed[i];
        proof {
            assert((b & 0x0f) < 16 && (b >> 4) < 16) by (bit_vector);
        }
        elems.push(b & 0x0f);
        elems.push(b >> 4);
        i += 1;
    }
    proof {
        assert(elems@ =~= spec_decode(packed@));
    }
    elems
}

/// Batched negation: the identity, element for element, exactly as the
/// scalar `neg` is.
pub fn batched_neg(x: &Vec<u8>) -> (r: Vec<u8>)
    ensures
        r@ == x@,
        forall|i: int| 0 <= i < spec_decode(r@).len() ==> #[trigger] spec_decode(r@)[i] == gf_neg(
            spec_decode(x@)[i],
        ),
{
    x.clone()
}

/// Batched addition: one byte-wide XOR per packed pair.  Decoding the
/// result gives the scalar sum of each pair of decoded elements.
#[verifier::loop_isolation(false)]
pub fn batched_add(x: &Vec<u8>, y: &Vec<u8>) -> (r: Vec<u8>)
    requires
        x@.len() == y@.len(),
    ensures
        r@.len() == x@.len(),
        forall|i: int| 0 <= i < spec_decode(r@).len() ==> #[trigger] spec_decode(r@)[i] == gf_add(
            spec_decode(x@)[i],
            spec_decode(y@)[i],
        ),
{
    let mut out: Vec<u8> = Vec::new();
    let mut i: usize = 0;
    while i < x.len()
        invariant
            i <= x@.len(),
            out@.len() == i,
            forall|ii: int| 0 <= ii < i ==> #[trigger] out@[ii] == (x@[ii] ^ y@[ii]),
        decreases x@.len() - i,
    {
        out.push(x[i] ^ y[i]);
        i += 1;
    }
    proof {
        assert forall|i: int| 0 <= i < spec_decode(out@).len() implies #[trigger] spec_decode(
            out@,
        )[i] == gf_add(spec_decode(x@)[i], spec_decode(y@)[i]) by {
            let a: u8 = x@[i / 2];
            let b: u8 = y@[i / 2];
            assert(((a ^ b) & 0x0f) == ((a & 0x0f) ^ (b & 0x0f)) && ((a ^ b) >> 4) == ((a >> 4) ^ (
            b >> 4))) by (bit_vector);
        }
    }
    out
}

/// Batched subtraction: identical to batched addition, as the scalar
/// `sub` is to the scalar `add`.
#[verifier::loop_isolation(false)]
pub fn batched_sub(x: &Vec<u8>, y: &Vec<u8>) -> (r: Vec<u8>)
    requires
        x@.len() == y@.len(),
    ensures
        r@.len() == x@.len(),
        forall|i: int| 0 <= i < spec_decode(r@).len() ==> #[trigger] spec_decode(r@)[i] == gf_sub(
            spec_decode(x@)[i],
            spec_decode(y@)[i],
        ),
{
    let mut out: Vec<u8> = Vec::new();
    let mut i: usize = 0;
    while i < x.len()
        invariant
            i <= x@.len(),
            out@.len() == i,
            forall|ii: int| 0 <= ii < i ==> #[trigger] out@[ii] == (x@[ii] ^ y@[ii]),
        decreases x@.len() - i,
    {
        out.push(x[i] ^ y[i]);
        i += 1;
    }
    proof {
        assert forall|i: int| 0 <= i < spec_decode(out@).len() implies #[trigger] spec_decode(
            out@,
        )[i] == gf_sub(spec_decode(x@)[i], spec_decode(y@)[i]) by {
            let a: u8 = x@[i / 2];
            let b: u8 = y@[i / 2];
            assert(((a ^ b) & 0x0f) == ((a & 0x0f) ^ (b & 0x0f)) && ((a ^ b) >> 4) == ((a >> 4) ^ (
            b >> 4))) by (bit_vector);
        }
    }
    out
}

/// Batched multiplication: each byte's two nibbles are multiplied
/// independently and repacked.  Decoding the result gives the scalar
/// product of each pair of decoded elements.
#[verifier::loop_isolation(false)]
pub fn batched_mul(x: &Vec<u8>, y: &Vec<u8>) -> (r: Vec<u8>)
    requires
        x@.len() == y@.len(),
    ensures
        r@.len() == x@.len(),
        forall|i: int| 0 <= i < spec_decode(r@).len() ==> #[trigger] spec_decode(r@)[i] == gf_mul(
            spec_decode(x@)[i],
            spec_decode(y@)[i],
        ),
{
    let mut out: Vec<u8> = Vec::new();
    let mut i: usize = 0;
    while i < x.len()
        invariant
            i <= x@.len(),
            out@.len() == i,
            forall|ii: int| 0 <= ii < i ==> #[trigger] out@[ii] & 0x0f == gf_mul(
                x@[ii] & 0x0f,
                y@[ii] & 0x0f,
            ),
            forall|ii: int| 0 <= ii < i ==> #[trigger] out@[ii] >> 4 == gf_mul(
                x@[ii] >> 4,
                y@[ii] >> 4,
            ),
        decreases x@.len() - i,
    {
        let a: u8 = x[i];
        let b: u8 = y[i];
        proof {
            assert((a & 0x0f) < 16 && (a >> 4) < 16 && (b & 0x0f) < 16 && (b >> 4) < 16)
                by (bit_vector);
        }
        let lo: u8 = crate::finite_field::mul(a & 0x0f, b & 0x0f);
        let hi: u8 = crate::finite_field::mul(a >> 4, b >> 4);
        proof {
            assert(lo < 16 && hi < 16 ==> ((lo | (hi << 4)) & 0x0f) == lo && ((lo | (hi << 4))
                >> 4) == hi) by (bit_vector);
        }
        out.push(lo | (hi << 4));
        i += 1;
    }
    proof {
        assert forall|i: int| 0 <= i < spec_decode(out@).len() implies #[trigger] spec_decode(
            out@,
        )[i] == gf_mul(spec_decode(x@)[i], spec_decode(y@)[i]) by {}
    }
    out
}

} // verus!
