#![allow(non_snake_case)]
use two_round_fully_adaptive::helpers::{h2p, rand_scalar};
use two_round_fully_adaptive::rand_eval::{rel_eval_prove, rel_eval_verify};
use two_round_fully_adaptive::rel_eval::SigmaNonces;
use two_round_fully_adaptive::scalar::Scalar;
use two_round_fully_adaptive::sig_keygen::keygen;
use two_round_fully_adaptive::sig_setup::SigParams;
use two_round_fully_adaptive::transcript::ProofTranscript;

#[test]
fn rel_eval_end_to_end_ok() {
    let n = 16usize;
    let d = 128usize;
    let domain = "RelEvalTest/v3";

    let sp = SigParams::setup(n, d, domain);
    let (sk, pk) = keygen(&sp);
    let C = pk.pk;
    let Cf = pk.cf;

    let h1 = h2p(domain, "h1", 0);
    let h2 = h2p(domain, "h2", 0);
    let z = rand_scalar();

    let (com, polypub) = rel_eval_prove(
        ProofTranscript::new(b"RelEvalSigma"),
        &SigmaNonces::random(),
        &sk,
        &sp,
        &C,
        &h1,
        &h2,
        &z,
    );

    let ok = rel_eval_verify(
        ProofTranscript::new(b"RelEvalSigma"),
        &sp,
        &C,
        &Cf,
        &h1,
        &h2,
        &polypub.a,
        &z,
        &com,
    );
    assert!(ok, "rel_eval verification should pass");
}

#[test]
fn rel_eval_sigma_tamper_fails() {
    let n = 8usize;
    let d = 64usize;
    let domain = "RelEvalTest/v3-bad";

    let sp = SigParams::setup(n, d, domain);
    let (sk, pk) = keygen(&sp);
    let C = pk.pk;
    let Cf = pk.cf;

    let h1 = h2p(domain, "h1", 1);
    let h2 = h2p(domain, "h2", 1);
    let z = rand_scalar();

    let (mut com, polypub) = rel_eval_prove(
        ProofTranscript::new(b"RelEvalSigma"),
        &SigmaNonces::random(),
        &sk,
        &sp,
        &C,
        &h1,
        &h2,
        &z,
    );

    com.sigma.c = com.sigma.c.add(&Scalar::one());
    let ok = rel_eval_verify(
        ProofTranscript::new(b"RelEvalSigma"),
        &sp,
        &C,
        &Cf,
        &h1,
        &h2,
        &polypub.a,
        &z,
        &com,
    );

    assert!(!ok, "tampered sigma proof must fail");
}
