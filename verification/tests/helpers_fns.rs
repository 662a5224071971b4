use rand::{RngCore, SeedableRng};
use sha2::Digest;
use two_round_fully_adaptive::helpers::{
    coeff_at, coeff_at_chacha8, h2p, horner_eval, next_pow2, rand_scalar,
};
use two_round_fully_adaptive::point::Point;
use two_round_fully_adaptive::scalar::Scalar;

#[test]
fn next_pow2_values() {
    let cases = [(0usize, 1usize), (1, 1), (2, 2), (3, 4), (5, 8), (64, 64), (65, 128), (257, 512)];
    for (n, p) in cases {
        assert_eq!(next_pow2(n), p, "next_pow2({n})");
        assert_eq!(next_pow2(next_pow2(n)), next_pow2(n));
    }
}

#[test]
fn horner_evaluates_polynomials() {
    let c = [Scalar::from_u64(1), Scalar::from_u64(2), Scalar::from_u64(3)];
    assert_eq!(horner_eval(&c, &Scalar::from_u64(5)), Scalar::from_u64(86));
    assert_eq!(horner_eval(&[], &Scalar::from_u64(5)), Scalar::zero());
    assert_eq!(horner_eval(&c, &Scalar::zero()), Scalar::from_u64(1));
}

#[test]
fn h2p_is_hash_of_domain_label_index() {
    let p = h2p("Dom", "lab", 7);
    let mut input = b"Dom/lab/".to_vec();
    input.extend_from_slice(&7u64.to_le_bytes());
    assert_eq!(p, Point::hash_from_bytes(&input));
    assert_ne!(p, h2p("Dom", "lab", 8));
    assert_ne!(p, h2p("Dom", "lac", 7));
}

#[test]
fn coeff_at_is_wide_reduced_sha512() {
    let key = Scalar::from_u64(42);
    let mut input = b"poly-coeff".to_vec();
    input.extend_from_slice(&key.to_bytes());
    input.extend_from_slice(&3u64.to_le_bytes());
    let d = sha2::Sha512::digest(&input);
    let mut wide = [0u8; 64];
    wide.copy_from_slice(&d);
    assert_eq!(coeff_at(&key, 3), Scalar::from_bytes_mod_order_wide(&wide));
    assert_ne!(coeff_at(&key, 3), coeff_at(&key, 4));
    assert_eq!(coeff_at(&key, 3), coeff_at(&key, 3));
}

#[test]
fn coeff_at_chacha8_is_wide_reduced_keystream() {
    let key = rand_scalar();
    let mut rng = rand_chacha::ChaCha8Rng::from_seed(key.to_bytes());
    rng.set_stream(5);
    let mut wide = [0u8; 64];
    rng.fill_bytes(&mut wide);
    assert_eq!(coeff_at_chacha8(&key, 5), Scalar::from_bytes_mod_order_wide(&wide));
    assert_ne!(coeff_at_chacha8(&key, 5), coeff_at_chacha8(&key, 6));
}
