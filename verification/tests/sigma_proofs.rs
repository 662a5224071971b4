#![allow(non_snake_case)]
use two_round_fully_adaptive::helpers::{h2p, msm, rand_scalar};
use two_round_fully_adaptive::rand_eval::compute_r;
use two_round_fully_adaptive::rel_eval::{
    prove_sigma, prove_sigma_with_nonces, verify_sigma, SigmaNonces,
};
use two_round_fully_adaptive::scalar::Scalar;
use two_round_fully_adaptive::sig_keygen::keygen;
use two_round_fully_adaptive::sig_setup::SigParams;
use two_round_fully_adaptive::transcript::ProofTranscript;

#[test]
fn sig_setup_derives_generators() {
    let sp = SigParams::setup(4, 6, "SetupTest");
    assert_eq!(sp.n, 4);
    assert_eq!(sp.d, 6);
    assert_eq!(sp.g, h2p("SetupTest", "sig_g", 0));
    assert_eq!(sp.h, h2p("SetupTest", "sig_h", 0));
    assert_eq!(sp.v, h2p("SetupTest", "sig_v", 0));
    assert_eq!(sp.pp.g0, sp.g);
    assert_eq!(sp.pp.g.len(), 8);
    assert_eq!(sp.pp.g_rho, h2p("SetupTest/ipa", "g_rho", 0));
    assert_eq!(sp.pp.g[3], h2p("SetupTest/ipa", "g", 3));
    assert_eq!(sp.domain, "SetupTest");
}

#[test]
fn keygen_and_compute_r() {
    let sp = SigParams::setup(2, 3, "KeygenTest");
    let (sk, pk) = keygen(&sp);
    assert_eq!(pk.pk, msm(&[sk.x, sk.w, sk.u], &[sp.g, sp.h, sp.v]));
    assert_eq!(pk.cf, sk.poly.cf);
    assert_eq!(sk.poly.degree(), 3);
    assert_eq!(sk.pp.g, sp.pp.g);
    let h1 = h2p("KeygenTest", "h1", 0);
    let h2 = h2p("KeygenTest", "h2", 0);
    let z = rand_scalar();
    let (r, R) = compute_r(&sk, &sp, &h1, &h2, &z);
    assert_eq!(r, sk.poly.eval(&z));
    assert_eq!(R, msm(&[r, sk.w, sk.u], &[sp.g, h1, h2]));
    assert_eq!(R, sp.g.mul(&r).add(&h1.mul(&sk.w)).add(&h2.mul(&sk.u)));
}

#[test]
fn sigma_proof_accepts_honest_and_rejects_tampering() {
    let sp = SigParams::setup(2, 3, "SigmaTest");
    let h1 = h2p("SigmaTest", "h1", 0);
    let h2 = h2p("SigmaTest", "h2", 0);
    let (r, rho) = (rand_scalar(), rand_scalar());
    let (u, w, x) = (rand_scalar(), rand_scalar(), rand_scalar());
    let R = msm(&[r, w, u], &[sp.g, h1, h2]);
    let Cr = msm(&[r, rho], &[sp.g, sp.pp.g_rho]);
    let C = msm(&[x, w, u], &[sp.g, sp.h, sp.v]);
    let nonces = SigmaNonces {
        k_r: Scalar::from_u64(1),
        k_rho: Scalar::from_u64(2),
        k_u: Scalar::from_u64(3),
        k_w: Scalar::from_u64(4),
        k_x: Scalar::from_u64(5),
    };
    let proof = prove_sigma_with_nonces(
        ProofTranscript::new(b"SigmaTest"), &nonces, &sp, &h1, &h2, &C, &R, &Cr, r, rho, u, w, x,
    );
    assert_eq!(proof.T1, msm(&[nonces.k_r, nonces.k_w, nonces.k_u], &[sp.g, h1, h2]));
    assert_eq!(proof.s_r, nonces.k_r.add(&proof.c.mul(&r)));
    assert_eq!(proof.s_x, nonces.k_x.add(&proof.c.mul(&x)));
    assert!(verify_sigma(ProofTranscript::new(b"SigmaTest"), &sp, &h1, &h2, &C, &R, &Cr, &proof));
    let other = ProofTranscript::new(b"OtherLabel");
    assert!(!verify_sigma(other, &sp, &h1, &h2, &C, &R, &Cr, &proof));

    let mut bad = proof;
    bad.s_w = bad.s_w.add(&Scalar::one());
    assert!(!verify_sigma(ProofTranscript::new(b"SigmaTest"), &sp, &h1, &h2, &C, &R, &Cr, &bad));
    let mut bad_c = proof;
    bad_c.c = bad_c.c.add(&Scalar::one());
    assert!(!verify_sigma(ProofTranscript::new(b"SigmaTest"), &sp, &h1, &h2, &C, &R, &Cr, &bad_c));
    let R2 = R.add(&sp.g);
    assert!(!verify_sigma(ProofTranscript::new(b"SigmaTest"), &sp, &h1, &h2, &C, &R2, &Cr, &proof));

    let random = prove_sigma(
        ProofTranscript::new(b"SigmaTest"), &sp, &h1, &h2, &C, &R, &Cr, r, rho, u, w, x,
    );
    let t = ProofTranscript::new(b"SigmaTest");
    assert!(verify_sigma(t, &sp, &h1, &h2, &C, &R, &Cr, &random));
}

#[test]
fn sigma_proof_rejects_wrong_witness() {
    let sp = SigParams::setup(2, 3, "SigmaTest2");
    let h1 = h2p("SigmaTest2", "h1", 0);
    let h2 = h2p("SigmaTest2", "h2", 0);
    let (r, rho) = (rand_scalar(), rand_scalar());
    let (u, w, x) = (rand_scalar(), rand_scalar(), rand_scalar());
    let R = msm(&[r, w, u], &[sp.g, h1, h2]);
    let Cr = msm(&[r, rho], &[sp.g, sp.pp.g_rho]);
    let C = msm(&[x, w, u], &[sp.g, sp.h, sp.v]);
    let other_x = x.add(&Scalar::one());
    let proof = prove_sigma(
        ProofTranscript::new(b"S"), &sp, &h1, &h2, &C, &R, &Cr, r, rho, u, w, other_x,
    );
    assert!(!verify_sigma(ProofTranscript::new(b"S"), &sp, &h1, &h2, &C, &R, &Cr, &proof));
}
