use gf16::batched;
use gf16::finite_field;

fn sample_elems(n: usize, seed: u8) -> Vec<u8> {
    let mut v = Vec::new();
    for i in 0..n {
        v.push(((i as u8).wrapping_mul(11) ^ seed) & 0x0f);
    }
    v
}

#[test]
fn encode_then_decode_round_trips() {
    let elems = sample_elems(20, 6);
    let packed = batched::encode(&elems);
    assert_eq!(packed.len(), 10);
    assert_eq!(batched::decode(&packed), elems);
}

#[test]
fn encode_packs_two_nibbles_per_byte() {
    let packed = batched::encode(&vec![0x3u8, 0xa, 0xf, 0x0]);
    assert_eq!(packed, vec![0xa3u8, 0x0f]);
}

#[test]
fn batched_add_matches_scalar_add_elementwise() {
    let xs = sample_elems(16, 3);
    let ys = sample_elems(16, 12);
    let result = batched::batched_add(&batched::encode(&xs), &batched::encode(&ys));
    let decoded = batched::decode(&result);
    for i in 0..16 {
        assert_eq!(decoded[i], finite_field::add(xs[i], ys[i]));
    }
}

#[test]
fn batched_sub_matches_scalar_sub_elementwise() {
    let xs = sample_elems(16, 7);
    let ys = sample_elems(16, 1);
    let result = batched::batched_sub(&batched::encode(&xs), &batched::encode(&ys));
    let decoded = batched::decode(&result);
    for i in 0..16 {
        assert_eq!(decoded[i], finite_field::sub(xs[i], ys[i]));
    }
}

#[test]
fn batched_mul_matches_scalar_mul_elementwise() {
    // Every pair of field elements appears in some batch position.
    let mut xs = Vec::new();
    let mut ys = Vec::new();
    for x in 0u8..16 {
        for y in 0u8..16 {
            xs.push(x);
            ys.push(y);
        }
    }
    let result = batched::batched_mul(&batched::encode(&xs), &batched::encode(&ys));
    let decoded = batched::decode(&result);
    for i in 0..xs.len() {
        assert_eq!(decoded[i], finite_field::mul(xs[i], ys[i]));
    }
}

#[test]
fn batched_neg_matches_scalar_neg_elementwise() {
    let xs = sample_elems(16, 9);
    let result = batched::batched_neg(&batched::encode(&xs));
    let decoded = batched::decode(&result);
    for i in 0..16 {
        assert_eq!(decoded[i], finite_field::neg(xs[i]));
    }
}
