use two_round_fully_adaptive::helpers::{h2p, msm};
use two_round_fully_adaptive::point::Point;
use two_round_fully_adaptive::scalar::Scalar;

#[test]
fn point_decoding_accepts_canonical_and_rejects_others() {
    assert!(Point::from_bytes([0u8; 32]).is_some());
    assert!(Point::from_bytes([0xffu8; 32]).is_none());
    let p = h2p("PointTest", "p", 0);
    let q = Point::from_bytes(p.to_bytes()).unwrap();
    assert!(q.equals(&p));
    assert_eq!(q, p);
}

#[test]
fn point_group_operations_agree() {
    let p = h2p("PointTest", "p", 1);
    let two = Scalar::from_u64(2);
    let three = Scalar::from_u64(3);
    let pp = p.add(&p);
    assert!(!pp.equals(&p));
    assert_eq!(p.mul(&two), pp);
    assert_eq!(p.mul(&three), pp.add(&p));
    assert_eq!(p.mul(&Scalar::one()), p);
    assert_eq!(p.mul(&Scalar::zero()).to_bytes(), [0u8; 32]);
    let q = h2p("PointTest", "q", 0);
    let s = msm(&[two, three], &[p, q]);
    assert_eq!(s, p.mul(&two).add(&q.mul(&three)));
    assert_eq!(Point::multiscalar_mul(&[], &[]).to_bytes(), [0u8; 32]);
}

#[test]
fn hash_to_point_is_deterministic_and_separated() {
    let a = Point::hash_from_bytes(b"abc");
    assert_eq!(a, Point::hash_from_bytes(b"abc"));
    assert_ne!(a, Point::hash_from_bytes(b"abd"));
    assert_ne!(a.to_bytes()[..3], b"abc"[..]);
}

#[test]
fn multiscalar_product_is_sum_of_terms() {
    let p = h2p("PointTest", "p", 2);
    let q = h2p("PointTest", "q", 2);
    let o = h2p("PointTest", "o", 2);
    let a = Scalar::from_u64(5);
    let b = Scalar::from_u64(7);
    let c = Scalar::from_u64(9);
    let s = Point::multiscalar_mul(&[a, b, c], &[p, q, o]);
    assert_eq!(s, p.mul(&a).add(&q.mul(&b)).add(&o.mul(&c)));
    let with_zero = Point::multiscalar_mul(&[a, Scalar::zero(), c], &[p, q, o]);
    assert_eq!(with_zero, p.mul(&a).add(&o.mul(&c)));
    assert_eq!(Point::multiscalar_mul(&[a], &[p]), p.mul(&a));
    let zero = Point::identity();
    assert_eq!(zero, Point::from_bytes([0u8; 32]).unwrap());
    assert_eq!(p.add(&zero), p);
    assert_eq!(zero.mul(&a), zero);
}
