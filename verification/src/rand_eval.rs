//! The RelEval protocol: the signer computes its first-round randomness
//! `r = f(z)` and message `R = r·g + w·h1 + u·h2`, proves with an
//! evaluation proof that the commitment `Cr` holds `f(z)`, and proves with
//! a relation proof that `R`, `Cr` and its key share their secrets.
use crate::arith::{dot, group_order, log2, padded_powers, poly_value};
use crate::ipa::linear_proof_accepts;
use crate::point::{
    point_encodings, ristretto_add, ristretto_multiscalar_mul, ristretto_scalar_mul, scalar_values,
    Point,
};
use crate::polynomial::{
    commitment, eval_proof_made, eval_rounds_regular, eval_transcript_ops, verify_eval, PublicEval,
};
use crate::group::{lemma_msm2, lemma_msm3};
use crate::rel_eval::{
    msm3, prove_sigma_with_nonces, sigma_accepts, sigma_challenge, sigma_equations, sigma_ops,
    sigma_proof_for, sigma_witness, verify_sigma, RelEvalProof, SigmaNonces,
};
use crate::scalar::Scalar;
use crate::sig_keygen::UserSecret;
use crate::sig_setup::SigParams;
use crate::transcript::ProofTranscript;
use vstd::prelude::*;

verus! {

/// What the prover sends: the session commitment `R`, the evaluation
/// commitment `Cr`, the evaluation proof for `Cr`, and the relation proof
/// linking `(R, Cr, C)`.
pub struct RandCommitment {
    /// Session commitment `R`.
    pub R: Point,
    /// Evaluation commitment `C_r`.
    pub Cr: Point,
    /// Serialised evaluation proof for `C_r`.
    pub ipa_proof: Vec<u8>,
    /// Relation proof for `(R, C_r, C)`.
    pub sigma: RelEvalProof,
}

/// Whether `rel_eval_verify` accepts: the evaluation proof verifies for
/// `Cf + Cr` and the public vector `a` at `z`, and the relation proof
/// verifies for `(h1, h2, C, R, Cr)` on a transcript starting with `start`.
pub open spec fn rel_eval_accepts(
    start: Seq<crate::transcript::TranscriptOp>,
    sp: SigParams,
    C: Seq<u8>,
    Cf: Seq<u8>,
    h1: Seq<u8>,
    h2: Seq<u8>,
    a: Seq<nat>,
    z: nat,
    com: RandCommitment,
) -> bool {
    &&& linear_proof_accepts(
        eval_transcript_ops(a.len(), sp.pp.g0@, sp.pp.g_rho@, z),
        com.ipa_proof@,
        ristretto_add(Cf, com.Cr@),
        point_encodings(sp.pp.g@),
        sp.pp.g0@,
        sp.pp.g_rho@,
        a,
    )
    &&& sigma_accepts(start, sp, h1, h2, C, com.R@, com.Cr@, com.sigma)
}

/// The signer's key fits the parameters `sp` and the public key `C`: its
/// evaluation parameters are those of `sp`, both with `g0 = g`, and
/// `C = x·g + w·h + u·v`.
pub open spec fn key_fits(sk: UserSecret, sp: SigParams, C: Seq<u8>) -> bool {
    &&& sp.pp.g0 == sp.g
    &&& sk.pp.g0 == sp.g
    &&& sk.pp.g_rho == sp.pp.g_rho
    &&& sk.pp.g@ == sp.pp.g@
    &&& C == ristretto_multiscalar_mul(seq![sk.x@, sk.w@, sk.u@], seq![sp.g@, sp.h@, sp.v@])
}

/// `r = f(z)` and `R = r·g + w·h1 + u·h2`.
pub fn compute_r(sk: &UserSecret, sp: &SigParams, h1: &Point, h2: &Point, z: &Scalar) -> (res: (
    Scalar,
    Point,
))
    ensures
        res.0@ == poly_value(sk.poly.coefficients(), z@),
        res.1@ == ristretto_multiscalar_mul(seq![res.0@, sk.w@, sk.u@], seq![sp.g@, h1@, h2@]),
        res.1@ == ristretto_add(
            ristretto_add(ristretto_scalar_mul(sp.g@, res.0@), ristretto_scalar_mul(h1@, sk.w@)),
            ristretto_scalar_mul(h2@, sk.u@),
        ),
{
    let r = sk.poly.eval(z);
    let R = msm3(&r, &sk.w, &sk.u, &sp.g, h1, h2);
    let e = Point::identity();
    proof {
        use_type_invariant(&sp.g);
        use_type_invariant(h1);
        use_type_invariant(h2);
        lemma_msm3(e@, r@, sk.w@, sk.u@, sp.g@, h1@, h2@);
    }
    (r, R)
}

/// A copy of a vector of scalars.
fn copy_scalars(a: &Vec<Scalar>) -> (r: Vec<Scalar>)
    ensures
        r@ == a@,
{
    let mut r: Vec<Scalar> = Vec::new();
    let mut i: usize = 0;
    while i < a.len()
        invariant
            i <= a@.len(),
            r@ == a@.subrange(0, i as int),
        decreases a@.len() - i,
    {
        r.push(a[i]);
        i = i + 1;
        assert(r@ =~= a@.subrange(0, i as int));
    }
    assert(r@ =~= a@);
    r
}

/// Prover: computes `(r, R)`, proves the evaluation commitment `C_r` (the
/// `Cy` of the evaluation proof), then proves the relation of `(R, C_r, C)`
/// on the transcript `tr_sigma` with the nonces `nonces` (the values the
/// prover's random generator supplies). Returns the commitment bundle and
/// the public data of the evaluation proof. When the key fits the
/// parameters and `C`, the relation proof is accepted, and the whole bundle
/// is accepted exactly when its evaluation proof is.
pub fn rel_eval_prove(
    tr_sigma: ProofTranscript,
    nonces: &SigmaNonces,
    sk: &UserSecret,
    sp: &SigParams,
    C: &Point,
    h1: &Point,
    h2: &Point,
    z: &Scalar,
) -> (res: (RandCommitment, PublicEval))
    requires
        sk.poly.wf(),
        sk.pp.g@.len() == sk.poly.width(),
    ensures
        res.0.R@ == ristretto_multiscalar_mul(
            seq![poly_value(sk.poly.coefficients(), z@), sk.w@, sk.u@],
            seq![sp.g@, h1@, h2@],
        ),
        res.0.Cr == res.1.Cy,
        res.1.z == *z,
        res.1.Cf == sk.poly.commitment_point(),
        res.1.P@ == ristretto_add(sk.poly.commitment_point()@, res.1.Cy@),
        scalar_values(res.1.a@) == padded_powers(
            z@,
            sk.poly.coefficients().len(),
            sk.poly.width(),
        ),
        dot(sk.poly.padded(), scalar_values(res.1.a@), sk.poly.width()) % (group_order() as int)
            == poly_value(sk.poly.coefficients(), z@),
        res.0.ipa_proof@.len() == 32 * (2 * log2(sk.poly.width()) + 3),
        exists|seed: Seq<u8>, rho: nat|
            #[trigger] eval_proof_made(
                seed,
                sk.poly.width(),
                sk.pp.g0@,
                sk.pp.g_rho@,
                z@,
                sk.poly.padded(),
                sk.poly.blinding()@,
                res.1.P@,
                scalar_values(res.1.a@),
                point_encodings(sk.pp.g@),
                res.0.ipa_proof@,
                rho,
            ) && res.1.Cy@ == ristretto_add(
                ristretto_scalar_mul(sk.pp.g0@, poly_value(sk.poly.coefficients(), z@)),
                ristretto_scalar_mul(sk.pp.g_rho@, rho),
            ) && sigma_proof_for(
                *nonces,
                tr_sigma@,
                *sp,
                h1@,
                h2@,
                C@,
                res.0.R@,
                res.0.Cr@,
                poly_value(sk.poly.coefficients(), z@),
                rho,
                sk.u@,
                sk.w@,
                sk.x@,
                res.0.sigma,
            ),
        key_fits(*sk, *sp, C@) ==> sigma_accepts(
            tr_sigma@,
            *sp,
            h1@,
            h2@,
            C@,
            res.0.R@,
            res.0.Cr@,
            res.0.sigma,
        ),
        key_fits(*sk, *sp, C@) ==> (rel_eval_accepts(
            tr_sigma@,
            *sp,
            C@,
            res.1.Cf@,
            h1@,
            h2@,
            scalar_values(res.1.a@),
            z@,
            res.0,
        ) == linear_proof_accepts(
            eval_transcript_ops(res.1.a@.len() as nat, sp.pp.g0@, sp.pp.g_rho@, z@),
            res.0.ipa_proof@,
            res.1.P@,
            point_encodings(sp.pp.g@),
            sp.pp.g0@,
            sp.pp.g_rho@,
            scalar_values(res.1.a@),
        )),
        key_fits(*sk, *sp, C@) && sk.poly.commitment_point()@ == commitment(
            sk.poly.padded(),
            sk.poly.blinding()@,
            point_encodings(sk.pp.g@),
            sk.pp.g_rho@,
        ) && sk.poly.width() < 0x1_0000_0000 && eval_rounds_regular(
            sp.pp.g0@,
            sp.pp.g_rho@,
            z@,
            res.1.P@,
            scalar_values(res.1.a@),
            point_encodings(sp.pp.g@),
            res.0.ipa_proof@,
        ) ==> rel_eval_accepts(
            tr_sigma@,
            *sp,
            C@,
            res.1.Cf@,
            h1@,
            h2@,
            scalar_values(res.1.a@),
            z@,
            res.0,
        ),
{
    let ghost start = tr_sigma@;
    let (r, R) = compute_r(sk, sp, h1, h2, z);
    let (r_again, ipa_proof, poly_pub, rho_r) = sk.poly.prove_eval(z, &sk.pp);
    let sigma = prove_sigma_with_nonces(
        tr_sigma,
        nonces,
        sp,
        h1,
        h2,
        C,
        &R,
        &poly_pub.Cy,
        r,
        rho_r,
        sk.u,
        sk.w,
        sk.x,
    );
    let e = Point::identity();
    proof {
        if key_fits(*sk, *sp, C@) {
            use_type_invariant(&sp.g);
            use_type_invariant(&sp.pp.g_rho);
            lemma_msm2(e@, r@, rho_r@, sp.g@, sp.pp.g_rho@);
            assert(sigma_witness(
                *sp,
                h1@,
                h2@,
                C@,
                R@,
                poly_pub.Cy@,
                r@,
                rho_r@,
                sk.u@,
                sk.w@,
                sk.x@,
            ));
        }
    }
    let Cr = poly_pub.Cy;
    let ghost pv = poly_pub;
    let ghost ip = ipa_proof@;
    let res = (RandCommitment { R, Cr, ipa_proof, sigma }, poly_pub);
    proof {
        let seed = choose|seed: Seq<u8>|
            #[trigger] eval_proof_made(
                seed,
                sk.poly.width(),
                sk.pp.g0@,
                sk.pp.g_rho@,
                z@,
                sk.poly.padded(),
                sk.poly.blinding()@,
                pv.P@,
                scalar_values(pv.a@),
                point_encodings(sk.pp.g@),
                ip,
                rho_r@,
            );
        assert(eval_proof_made(
            seed,
            sk.poly.width(),
            sk.pp.g0@,
            sk.pp.g_rho@,
            z@,
            sk.poly.padded(),
            sk.poly.blinding()@,
            res.1.P@,
            scalar_values(res.1.a@),
            point_encodings(sk.pp.g@),
            res.0.ipa_proof@,
            rho_r@,
        ));
    }
    res
}

/// Verifier: rebuilds the evaluation proof's public data from `Cf`, the
/// prover's `a` and `C_r`, and `z`; returns `true` iff the evaluation proof
/// and then the relation proof verify.
pub fn rel_eval_verify(
    tr_sigma: ProofTranscript,
    sp: &SigParams,
    C: &Point,
    Cf: &Point,
    h1: &Point,
    h2: &Point,
    a: &Vec<Scalar>,
    z: &Scalar,
    com: &RandCommitment,
) -> (ok: bool)
    ensures
        ok == rel_eval_accepts(
            tr_sigma@,
            *sp,
            C@,
            Cf@,
            h1@,
            h2@,
            scalar_values(a@),
            z@,
            *com,
        ),
        ok ==> ristretto_add(
            ristretto_add(
                ristretto_scalar_mul(sp.g@, com.sigma.s_r@),
                ristretto_scalar_mul(h1@, com.sigma.s_w@),
            ),
            ristretto_scalar_mul(h2@, com.sigma.s_u@),
        ) == ristretto_add(com.sigma.T1@, ristretto_scalar_mul(com.R@, com.sigma.c@)),
        ok ==> ristretto_add(
            ristretto_scalar_mul(sp.g@, com.sigma.s_r@),
            ristretto_scalar_mul(sp.pp.g_rho@, com.sigma.s_rho@),
        ) == ristretto_add(com.sigma.T2@, ristretto_scalar_mul(com.Cr@, com.sigma.c@)),
        ok ==> ristretto_add(
            ristretto_add(
                ristretto_scalar_mul(sp.g@, com.sigma.s_x@),
                ristretto_scalar_mul(sp.h@, com.sigma.s_w@),
            ),
            ristretto_scalar_mul(sp.v@, com.sigma.s_u@),
        ) == ristretto_add(com.sigma.T3@, ristretto_scalar_mul(C@, com.sigma.c@)),
{
    let poly_pub = PublicEval {
        Cf: *Cf,
        Cy: com.Cr,
        z: *z,
        a: copy_scalars(a),
        P: Cf.add(&com.Cr),
    };
    let ipa_ok = verify_eval(&poly_pub, com.ipa_proof.as_slice(), &sp.pp);
    if !ipa_ok {
        return false;
    }
    verify_sigma(tr_sigma, sp, h1, h2, C, &com.R, &com.Cr, &com.sigma)
}

/// For a bundle as `rel_eval_prove` returns it, checked against the
/// signer's `Cf` with the prover's `a` and `z` and a transcript with the
/// prover's operations, the verifier rebuilds the prover's `P = Cf + Cr`
/// and recomputes the prover's challenge: acceptance comes down to the
/// evaluation proof verifying on the prover's public data and the three
/// relation equations.
pub proof fn lemma_honest_bundle_checks(
    start: Seq<crate::transcript::TranscriptOp>,
    sp: SigParams,
    C: Seq<u8>,
    h1: Seq<u8>,
    h2: Seq<u8>,
    public: PublicEval,
    com: RandCommitment,
)
    requires
        com.Cr == public.Cy,
        public.P@ == ristretto_add(public.Cf@, public.Cy@),
        com.sigma.c@ == sigma_challenge(
            sigma_ops(
                start,
                sp,
                h1,
                h2,
                C,
                com.R@,
                com.Cr@,
                com.sigma.T1@,
                com.sigma.T2@,
                com.sigma.T3@,
            ),
        ),
    ensures
        rel_eval_accepts(
            start,
            sp,
            C,
            public.Cf@,
            h1,
            h2,
            scalar_values(public.a@),
            public.z@,
            com,
        ) == (linear_proof_accepts(
            eval_transcript_ops(public.a@.len() as nat, sp.pp.g0@, sp.pp.g_rho@, public.z@),
            com.ipa_proof@,
            public.P@,
            point_encodings(sp.pp.g@),
            sp.pp.g0@,
            sp.pp.g_rho@,
            scalar_values(public.a@),
        ) && sigma_equations(sp, h1, h2, C, com.R@, com.Cr@, com.sigma)),
{
}

/// A bundle whose relation proof carries another challenge than the one its
/// transcript yields (for instance a challenge changed after proving) is
/// rejected, whatever the evaluation proof.
pub proof fn lemma_tampered_challenge_rejected(
    start: Seq<crate::transcript::TranscriptOp>,
    sp: SigParams,
    C: Seq<u8>,
    Cf: Seq<u8>,
    h1: Seq<u8>,
    h2: Seq<u8>,
    a: Seq<nat>,
    z: nat,
    com: RandCommitment,
)
    requires
        com.sigma.c@ != sigma_challenge(
            sigma_ops(
                start,
                sp,
                h1,
                h2,
                C,
                com.R@,
                com.Cr@,
                com.sigma.T1@,
                com.sigma.T2@,
                com.sigma.T3@,
            ),
        ),
    ensures
        !rel_eval_accepts(start, sp, C, Cf, h1, h2, a, z, com),
{
}

} // verus!
