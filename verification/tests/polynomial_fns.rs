use rand::RngCore;
use rayon::iter::{IntoParallelIterator, ParallelIterator};
use two_round_fully_adaptive::helpers::{
    coeff_at, coeff_at_chacha8, h2p, horner_eval, msm, next_pow2, rand_scalar,
};
use two_round_fully_adaptive::polynomial::{verify_eval, Params, Polynomial};
use two_round_fully_adaptive::scalar::Scalar;

fn small(vals: &[u64]) -> Vec<Scalar> {
    vals.iter().map(|&v| Scalar::from_u64(v)).collect()
}

#[test]
fn params_setup_derives_bases() {
    let pp = Params::setup(5, "ParamsTest");
    assert_eq!(pp.g.len(), 8);
    assert_eq!(pp.g0, h2p("ParamsTest", "g_0", 0));
    assert_eq!(pp.g_rho, h2p("ParamsTest", "g_rho", 0));
    for (i, gi) in pp.g.iter().enumerate() {
        assert_eq!(*gi, h2p("ParamsTest", "g", i as u64));
    }
    let g0 = h2p("Other", "x", 3);
    let pp2 = Params::setup_with_g0(8, "ParamsTest", g0);
    assert_eq!(pp2.g0, g0);
    assert_eq!(pp2.g_rho, pp.g_rho);
    assert_eq!(pp2.g, pp.g);
    let copy = pp.duplicate();
    assert_eq!(copy.g, pp.g);
}

#[test]
fn small_polynomial_eval_and_degree() {
    let pp = Params::setup(4, "PolyTest");
    let p = Polynomial::from_coefficients(small(&[1, 2, 3]), Scalar::from_u64(9), &pp);
    assert_eq!(p.degree(), 2);
    assert_eq!(p.eval(&Scalar::from_u64(5)), Scalar::from_u64(86));
    assert_eq!(p.eval(&Scalar::zero()), Scalar::from_u64(1));
    assert_eq!(p.rho_f, Scalar::from_u64(9));
    assert_eq!(p.get_rho_f(), Scalar::from_u64(9));
    assert_eq!(p.get_cf(), p.cf);
}

#[test]
fn commitment_matches_commit_and_formula() {
    let pp = Params::setup(4, "CommitTest");
    let rho = Scalar::from_u64(11);
    let p = Polynomial::from_coefficients(small(&[1, 2, 3]), rho, &pp);
    assert_eq!(p.commit(&pp, rho), p.cf);
    let padded = small(&[1, 2, 3, 0]);
    let expected = msm(&padded, &pp.g).add(&pp.g_rho.mul(&rho));
    assert_eq!(p.cf, expected);
    assert_ne!(p.commit(&pp, Scalar::from_u64(12)), p.cf);
    let r = Polynomial::random(3, &pp);
    assert_eq!(r.degree(), 3);
    assert_eq!(r.commit(&pp, r.rho_f), r.cf);
}

#[test]
fn blocked_eval_matches_sequential_horner() {
    for degree in [63usize, 64, 65, 95, 96, 100] {
        let coeffs: Vec<Scalar> =
            (0..=degree as u64).map(|i| Scalar::from_u64(3 * i + 1)).collect();
        let z = rand_scalar();
        let expected = horner_eval(&coeffs, &z);
        let pp = Params::setup(degree + 1, "BlockTest");
        let p = Polynomial::from_coefficients(coeffs, Scalar::zero(), &pp);
        assert_eq!(p.eval(&z), expected, "degree {degree}");
    }
}

#[test]
fn eval_with_prf_chacha8_matches_derived_coefficients() {
    for degree in [0usize, 5, 63, 64, 70] {
        let key = rand_scalar();
        let z = rand_scalar();
        let coeffs: Vec<Scalar> = (0..=degree).map(|i| coeff_at_chacha8(&key, i)).collect();
        assert_eq!(
            Polynomial::eval_with_prf_chacha8(&z, degree, &key),
            horner_eval(&coeffs, &z),
            "degree {degree}"
        );
    }
}

#[test]
fn prove_eval_then_verify_eval() {
    let pp = Params::setup(next_pow2(9), "ProveTest");
    let p = Polynomial::random(8, &pp);
    let z = rand_scalar();
    let (y, proof, public, rho_y) = p.prove_eval(&z, &pp);
    assert_eq!(y, p.eval(&z));
    assert_eq!(public.z, z);
    assert_eq!(public.Cf, p.cf);
    assert_eq!(public.a.len(), 16);
    let mut pow = Scalar::one();
    for i in 0..16 {
        if i < 9 {
            assert_eq!(public.a[i], pow);
            pow = pow.mul(&z);
        } else {
            assert_eq!(public.a[i], Scalar::zero());
        }
    }
    assert_eq!(public.Cy, pp.g0.mul(&y).add(&pp.g_rho.mul(&rho_y)));
    assert_eq!(public.P, p.cf.add(&public.Cy));
    assert_eq!(proof.len(), 32 * (2 * 4 + 3));
    assert!(verify_eval(&public, &proof, &pp));

    let mut bad = proof.clone();
    bad[0] ^= 1;
    assert!(!verify_eval(&public, &bad, &pp));
    assert!(!verify_eval(&public, &[], &pp));
}

#[test]
fn verify_eval_rejects_length_mismatch() {
    let pp = Params::setup(4, "ProveTest3");
    let p = Polynomial::random(3, &pp);
    let z = rand_scalar();
    let (_y, proof, mut public, _) = p.prove_eval(&z, &pp);
    assert!(verify_eval(&public, &proof, &pp));
    public.a.push(Scalar::zero());
    assert!(!verify_eval(&public, &proof, &pp));
    public.a.truncate(2);
    assert!(!verify_eval(&public, &proof, &pp));
}

#[test]
fn verify_eval_rejects_wrong_claims() {
    let pp = Params::setup(4, "ProveTest2");
    let p = Polynomial::random(3, &pp);
    let z = rand_scalar();
    let (_y, proof, mut public, _rho_y) = p.prove_eval(&z, &pp);
    public.z = z.add(&Scalar::one());
    assert!(!verify_eval(&public, &proof, &pp));
    let (_y2, proof2, mut public2, _) = p.prove_eval(&z, &pp);
    public2.Cy = public2.Cy.add(&pp.g0);
    public2.P = p.cf.add(&public2.Cy);
    assert!(!verify_eval(&public2, &proof2, &pp));
}

/// Checks `eval` against `eval_with_ro` for a polynomial of the given degree
/// whose coefficients are derived from a random key.
fn check_eval_against_ro(degree: usize) {
    let pp = Params::setup(degree + 1, "TestDomain");
    let key = rand_scalar();
    let z = rand_scalar();
    let coeffs: Vec<Scalar> = (0..=degree).map(|i| coeff_at(&key, i)).collect();
    let poly = Polynomial::from_coefficients(coeffs, rand_scalar(), &pp);
    assert_eq!(poly.eval(&z), Polynomial::eval_with_ro(&z, degree, &key), "degree {degree}");
}

#[test]
fn eval_matches_eval_with_ro_randomized() {
    let mut degrees = vec![0usize, 1, 2, 7, 31, 32, 33, 63, 64, 65, 128, 255, 256, 511, 512, 1023];
    let mut rng = rand::thread_rng();
    for _ in 0..8 {
        degrees.push((rng.next_u64() as usize) % 1201);
    }
    degrees.into_par_iter().for_each(check_eval_against_ro);
}

#[test]
fn eval_matches_eval_with_ro_many_random_trials() {
    let trials = 50;
    let mut rng = rand::thread_rng();
    let degrees: Vec<usize> = (0..trials).map(|_| (rng.next_u64() as usize) % 300).collect();
    degrees.into_par_iter().for_each(check_eval_against_ro);
}

#[test]
fn commit_unchanged_under_larger_setup() {
    let rho = Scalar::from_u64(21);
    let pp1 = Params::setup(3, "ExtendTest");
    let pp2 = Params::setup(16, "ExtendTest");
    let p = Polynomial::from_coefficients(small(&[4, 5, 6]), rho, &pp1);
    assert_eq!(p.commit(&pp1, rho), p.commit(&pp2, rho));
    let q = Polynomial::from_coefficients(small(&[4, 5, 6]), rho, &pp2);
    assert_eq!(q.cf, p.cf);
    let expected = msm(&small(&[4, 5, 6]), &pp2.g[..3]).add(&pp2.g_rho.mul(&rho));
    assert_eq!(p.cf, expected);
}

#[test]
fn prove_eval_with_seed_is_a_function_of_the_seed() {
    let pp = Params::setup(4, "SeedTest");
    let p = Polynomial::random(3, &pp);
    let z = rand_scalar();
    let (y1, proof1, public1, rho1) = p.prove_eval_with_seed(&z, &pp, [7u8; 32]);
    let (y2, proof2, public2, rho2) = p.prove_eval_with_seed(&z, &pp, [7u8; 32]);
    assert_eq!(y1, y2);
    assert_eq!(proof1, proof2);
    assert_eq!(rho1, rho2);
    assert_eq!(public1.P, public2.P);
    assert!(verify_eval(&public1, &proof1, &pp));
    let (_y3, proof3, _public3, rho3) = p.prove_eval_with_seed(&z, &pp, [8u8; 32]);
    assert_ne!(rho3, rho1);
    assert_ne!(proof3, proof1);
}
