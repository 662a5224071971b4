use two_round_fully_adaptive::scalar::Scalar;

/// The group order ℓ, little-endian.
const ELL: [u8; 32] = [
    0xed, 0xd3, 0xf5, 0x5c, 0x1a, 0x63, 0x12, 0x58, 0xd6, 0x9c, 0xf7, 0xa2, 0xde, 0xf9, 0xde, 0x14,
    0, 0, 0, 0, 0, 0, 0, 0, 0, 0, 0, 0, 0, 0, 0, 0x10,
];

#[test]
fn scalar_add_and_mul_small_values() {
    let two = Scalar::from_u64(2);
    let three = Scalar::from_u64(3);
    assert_eq!(two.add(&three), Scalar::from_u64(5));
    assert_eq!(two.mul(&three), Scalar::from_u64(6));
    assert!(two.mul(&three).equals(&Scalar::from_u64(6)));
    assert!(!two.equals(&three));
}

#[test]
fn scalar_zero_one_and_encoding() {
    assert_eq!(Scalar::zero().to_bytes(), [0u8; 32]);
    let mut one = [0u8; 32];
    one[0] = 1;
    assert_eq!(Scalar::one().to_bytes(), one);
    let x = Scalar::from_u64(0x0102030405060708);
    let b = x.to_bytes();
    assert_eq!(&b[..8], &[8, 7, 6, 5, 4, 3, 2, 1]);
    assert!(b[8..].iter().all(|&v| v == 0));
}

#[test]
fn scalar_reduces_modulo_group_order() {
    assert_eq!(Scalar::from_bytes_mod_order(ELL), Scalar::zero());
    let mut ell_plus_five = ELL;
    ell_plus_five[0] += 5;
    assert_eq!(Scalar::from_bytes_mod_order(ell_plus_five), Scalar::from_u64(5));
    let mut ell_minus_one = ELL;
    ell_minus_one[0] -= 1;
    let minus_one = Scalar::from_bytes_mod_order(ell_minus_one);
    assert_eq!(minus_one.add(&Scalar::one()), Scalar::zero());
    assert_eq!(minus_one.mul(&minus_one), Scalar::one());
}

#[test]
fn scalar_wide_reduction() {
    let mut wide = [0u8; 64];
    wide[..32].copy_from_slice(&ELL);
    wide[0] += 9;
    assert_eq!(Scalar::from_bytes_mod_order_wide(&wide), Scalar::from_u64(9));
    let mut big = [0u8; 64];
    big[32] = 1; // 2^256
    let two_256 = Scalar::from_bytes_mod_order_wide(&big);
    let mut two_128 = [0u8; 32];
    two_128[16] = 1;
    let t = Scalar::from_bytes_mod_order(two_128);
    assert_eq!(t.mul(&t), two_256);
}

#[test]
fn scalar_random_is_reduced() {
    for _ in 0..20 {
        let r = Scalar::random();
        let b = r.to_bytes();
        assert!(b[31] <= 0x10);
        assert_eq!(Scalar::from_bytes_mod_order(b), r);
    }
}
