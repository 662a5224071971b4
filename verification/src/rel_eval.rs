//! Chaum–Pedersen style proof that the first-round message `R`, the
//! evaluation commitment `Cr` and the signer's key `C` share their secrets:
//! knowledge of `(r, rho, u, w, x)` with
//! `R = r·g + w·h1 + u·h2`, `Cr = r·g + rho·g_rho` and `C = x·g + w·h + u·v`,
//! made non-interactive with a Fiat–Shamir transcript.
use crate::arith::{group_order, le_nat};
use crate::group::{lemma_msm2, lemma_msm3, lemma_msm_linear, scalars_combined};
use crate::helpers::rand_scalar;
use crate::point::{
    identity_encoding, ristretto_add, ristretto_decodes, ristretto_group, ristretto_multiscalar_mul,
    ristretto_scalar_mul, Point,
};
use crate::scalar::Scalar;
use crate::sig_setup::SigParams;
use crate::transcript::{merlin_challenge, ProofTranscript, TranscriptOp};
use vstd::prelude::*;

verus! {

/// `"g"`.
pub const LABEL_G: [u8; 1] = [103u8];

/// `"h"`.
pub const LABEL_H: [u8; 1] = [104u8];

/// `"v"`.
pub const LABEL_V: [u8; 1] = [118u8];

/// `"g_rho"`.
pub const LABEL_G_RHO: [u8; 5] = [103u8, 95u8, 114u8, 104u8, 111u8];

/// `"h1"`.
pub const LABEL_H1: [u8; 2] = [104u8, 49u8];

/// `"h2"`.
pub const LABEL_H2: [u8; 2] = [104u8, 50u8];

/// `"C"`.
pub const LABEL_C: [u8; 1] = [67u8];

/// `"R"`.
pub const LABEL_R: [u8; 1] = [82u8];

/// `"Cr"`.
pub const LABEL_CR: [u8; 2] = [67u8, 114u8];

/// `"T1"`.
pub const LABEL_T1: [u8; 2] = [84u8, 49u8];

/// `"T2"`.
pub const LABEL_T2: [u8; 2] = [84u8, 50u8];

/// `"T3"`.
pub const LABEL_T3: [u8; 2] = [84u8, 51u8];

/// `"c"`, the label of the challenge.
pub const LABEL_CHALLENGE: [u8; 1] = [99u8];

/// A proof of the relation: the prover's commitments `T1`, `T2`, `T3`, the
/// challenge `c` and the responses.
#[derive(Clone, Copy, Debug)]
pub struct RelEvalProof {
    /// `k_r·g + k_w·h1 + k_u·h2`.
    pub T1: Point,
    /// `k_r·g + k_rho·g_rho`.
    pub T2: Point,
    /// `k_x·g + k_w·h + k_u·v`.
    pub T3: Point,
    /// The Fiat–Shamir challenge.
    pub c: Scalar,
    /// `k_r + c·r`.
    pub s_r: Scalar,
    /// `k_rho + c·rho`.
    pub s_rho: Scalar,
    /// `k_u + c·u`.
    pub s_u: Scalar,
    /// `k_w + c·w`.
    pub s_w: Scalar,
    /// `k_x + c·x`.
    pub s_x: Scalar,
}

/// The prover's one-time nonces.
#[derive(Clone, Copy, Debug)]
pub struct SigmaNonces {
    /// Nonce for `r`.
    pub k_r: Scalar,
    /// Nonce for `rho`.
    pub k_rho: Scalar,
    /// Nonce for `u`.
    pub k_u: Scalar,
    /// Nonce for `w`.
    pub k_w: Scalar,
    /// Nonce for `x`.
    pub k_x: Scalar,
}

impl SigmaNonces {
    /// Five nonces drawn by the operating system's random generator.
    pub fn random() -> (k: SigmaNonces) {
        SigmaNonces {
            k_r: rand_scalar(),
            k_rho: rand_scalar(),
            k_u: rand_scalar(),
            k_w: rand_scalar(),
            k_x: rand_scalar(),
        }
    }
}

/// The transcript operations of the proof, after those already on the
/// transcript (`start`): the public parameters, the statement and the
/// prover's commitments, each under its label.
pub open spec fn sigma_ops(
    start: Seq<TranscriptOp>,
    sp: SigParams,
    h1: Seq<u8>,
    h2: Seq<u8>,
    C: Seq<u8>,
    R: Seq<u8>,
    Cr: Seq<u8>,
    T1: Seq<u8>,
    T2: Seq<u8>,
    T3: Seq<u8>,
) -> Seq<TranscriptOp> {
    start + seq![
        TranscriptOp::Message(LABEL_G@, sp.g@),
        TranscriptOp::Message(LABEL_H@, sp.h@),
        TranscriptOp::Message(LABEL_V@, sp.v@),
        TranscriptOp::Message(LABEL_G_RHO@, sp.pp.g_rho@),
        TranscriptOp::Message(LABEL_H1@, h1),
        TranscriptOp::Message(LABEL_H2@, h2),
        TranscriptOp::Message(LABEL_C@, C),
        TranscriptOp::Message(LABEL_R@, R),
        TranscriptOp::Message(LABEL_CR@, Cr),
        TranscriptOp::Message(LABEL_T1@, T1),
        TranscriptOp::Message(LABEL_T2@, T2),
        TranscriptOp::Message(LABEL_T3@, T3),
    ]
}

/// The challenge a transcript with operations `ops` yields: 64 challenge
/// bytes under `"c"`, read as an integer modulo `ℓ`.
pub open spec fn sigma_challenge(ops: Seq<TranscriptOp>) -> nat {
    le_nat(merlin_challenge(ops, LABEL_CHALLENGE@, 64)) % group_order()
}

/// The three verification equations:
/// `s_r·g + s_w·h1 + s_u·h2 = T1 + c·R`, `s_r·g + s_rho·g_rho = T2 + c·Cr`,
/// `s_x·g + s_w·h + s_u·v = T3 + c·C`.
pub open spec fn sigma_equations(
    sp: SigParams,
    h1: Seq<u8>,
    h2: Seq<u8>,
    C: Seq<u8>,
    R: Seq<u8>,
    Cr: Seq<u8>,
    proof: RelEvalProof,
) -> bool {
    &&& ristretto_multiscalar_mul(seq![proof.s_r@, proof.s_w@, proof.s_u@], seq![sp.g@, h1, h2])
        == ristretto_add(proof.T1@, ristretto_scalar_mul(R, proof.c@))
    &&& ristretto_multiscalar_mul(seq![proof.s_r@, proof.s_rho@], seq![sp.g@, sp.pp.g_rho@])
        == ristretto_add(proof.T2@, ristretto_scalar_mul(Cr, proof.c@))
    &&& ristretto_multiscalar_mul(
        seq![proof.s_x@, proof.s_w@, proof.s_u@],
        seq![sp.g@, sp.h@, sp.v@],
    ) == ristretto_add(proof.T3@, ristretto_scalar_mul(C, proof.c@))
}

/// Whether the verifier accepts `proof` for the statement `(h1, h2, C, R,
/// Cr)` on a transcript that starts with `start`: the challenge is the one
/// the transcript yields, and the equations hold.
pub open spec fn sigma_accepts(
    start: Seq<TranscriptOp>,
    sp: SigParams,
    h1: Seq<u8>,
    h2: Seq<u8>,
    C: Seq<u8>,
    R: Seq<u8>,
    Cr: Seq<u8>,
    proof: RelEvalProof,
) -> bool {
    &&& proof.c@ == sigma_challenge(
        sigma_ops(start, sp, h1, h2, C, R, Cr, proof.T1@, proof.T2@, proof.T3@),
    )
    &&& sigma_equations(sp, h1, h2, C, R, Cr, proof)
}

/// `(r, rho, u, w, x)` is a witness for the statement `(h1, h2, C, R, Cr)`:
/// `R = r·g + w·h1 + u·h2`, `Cr = r·g + rho·g_rho` and `C = x·g + w·h + u·v`.
pub open spec fn sigma_witness(
    sp: SigParams,
    h1: Seq<u8>,
    h2: Seq<u8>,
    C: Seq<u8>,
    R: Seq<u8>,
    Cr: Seq<u8>,
    r: nat,
    rho: nat,
    u: nat,
    w: nat,
    x: nat,
) -> bool {
    &&& R == ristretto_multiscalar_mul(seq![r, w, u], seq![sp.g@, h1, h2])
    &&& Cr == ristretto_multiscalar_mul(seq![r, rho], seq![sp.g@, sp.pp.g_rho@])
    &&& C == ristretto_multiscalar_mul(seq![x, w, u], seq![sp.g@, sp.h@, sp.v@])
}

/// `proof` is the proof that the nonces `k` give for the witness
/// `(r, rho, u, w, x)` and the statement `(h1, h2, C, R, Cr)` on a
/// transcript that starts with `start`: the commitments of the nonces, the
/// transcript's challenge, and the responses `k + c·witness`.
pub open spec fn sigma_proof_for(
    k: SigmaNonces,
    start: Seq<TranscriptOp>,
    sp: SigParams,
    h1: Seq<u8>,
    h2: Seq<u8>,
    C: Seq<u8>,
    R: Seq<u8>,
    Cr: Seq<u8>,
    r: nat,
    rho: nat,
    u: nat,
    w: nat,
    x: nat,
    proof: RelEvalProof,
) -> bool {
    &&& proof.T1@ == ristretto_multiscalar_mul(seq![k.k_r@, k.k_w@, k.k_u@], seq![sp.g@, h1, h2])
    &&& proof.T2@ == ristretto_multiscalar_mul(seq![k.k_r@, k.k_rho@], seq![sp.g@, sp.pp.g_rho@])
    &&& proof.T3@ == ristretto_multiscalar_mul(
        seq![k.k_x@, k.k_w@, k.k_u@],
        seq![sp.g@, sp.h@, sp.v@],
    )
    &&& proof.c@ == sigma_challenge(
        sigma_ops(start, sp, h1, h2, C, R, Cr, proof.T1@, proof.T2@, proof.T3@),
    )
    &&& proof.s_r@ == (k.k_r@ + (proof.c@ * r) % group_order()) % group_order()
    &&& proof.s_rho@ == (k.k_rho@ + (proof.c@ * rho) % group_order()) % group_order()
    &&& proof.s_u@ == (k.k_u@ + (proof.c@ * u) % group_order()) % group_order()
    &&& proof.s_w@ == (k.k_w@ + (proof.c@ * w) % group_order()) % group_order()
    &&& proof.s_x@ == (k.k_x@ + (proof.c@ * x) % group_order()) % group_order()
}

/// `a·p + b·q`.
fn msm2(a: &Scalar, b: &Scalar, p: &Point, q: &Point) -> (r: Point)
    ensures
        r@ == ristretto_multiscalar_mul(seq![a@, b@], seq![p@, q@]),
{
    let s = vec![*a, *b];
    let g = vec![*p, *q];
    let r = Point::multiscalar_mul(s.as_slice(), g.as_slice());
    assert(crate::point::scalar_values(s@) =~= seq![a@, b@]);
    assert(crate::point::point_encodings(g@) =~= seq![p@, q@]);
    r
}

/// `a·p + b·q + c·o`.
pub(crate) fn msm3(a: &Scalar, b: &Scalar, c: &Scalar, p: &Point, q: &Point, o: &Point) -> (r:
    Point)
    ensures
        r@ == ristretto_multiscalar_mul(seq![a@, b@, c@], seq![p@, q@, o@]),
{
    let s = vec![*a, *b, *c];
    let g = vec![*p, *q, *o];
    let r = Point::multiscalar_mul(s.as_slice(), g.as_slice());
    assert(crate::point::scalar_values(s@) =~= seq![a@, b@, c@]);
    assert(crate::point::point_encodings(g@) =~= seq![p@, q@, o@]);
    r
}

/// Appends the parameters, the statement and the commitments, then draws
/// the challenge.
fn sigma_challenge_of(
    tr: &mut ProofTranscript,
    sp: &SigParams,
    h1: &Point,
    h2: &Point,
    C: &Point,
    R: &Point,
    Cr: &Point,
    T1: &Point,
    T2: &Point,
    T3: &Point,
) -> (c: Scalar)
    ensures
        c@ == sigma_challenge(
            sigma_ops(old(tr)@, *sp, h1@, h2@, C@, R@, Cr@, T1@, T2@, T3@),
        ),
{
    let ghost start = tr@;
    tr.append_message(&LABEL_G, &sp.g.to_bytes());
    tr.append_message(&LABEL_H, &sp.h.to_bytes());
    tr.append_message(&LABEL_V, &sp.v.to_bytes());
    tr.append_message(&LABEL_G_RHO, &sp.pp.g_rho.to_bytes());
    tr.append_message(&LABEL_H1, &h1.to_bytes());
    tr.append_message(&LABEL_H2, &h2.to_bytes());
    tr.append_message(&LABEL_C, &C.to_bytes());
    tr.append_message(&LABEL_R, &R.to_bytes());
    tr.append_message(&LABEL_CR, &Cr.to_bytes());
    tr.append_message(&LABEL_T1, &T1.to_bytes());
    tr.append_message(&LABEL_T2, &T2.to_bytes());
    tr.append_message(&LABEL_T3, &T3.to_bytes());
    assert(tr@ =~= sigma_ops(start, *sp, h1@, h2@, C@, R@, Cr@, T1@, T2@, T3@));
    tr.challenge_scalar(&LABEL_CHALLENGE)
}

/// Completeness: under the group laws, a proof made for a witness of the
/// statement (with any nonces) is accepted on a transcript with the
/// prover's operations.
pub proof fn lemma_sigma_complete(
    e: Seq<u8>,
    k: SigmaNonces,
    start: Seq<TranscriptOp>,
    sp: SigParams,
    h1: Seq<u8>,
    h2: Seq<u8>,
    C: Seq<u8>,
    R: Seq<u8>,
    Cr: Seq<u8>,
    r: nat,
    rho: nat,
    u: nat,
    w: nat,
    x: nat,
    proof: RelEvalProof,
)
    requires
        ristretto_group(e),
        e == identity_encoding(),
        ristretto_decodes(sp.g@),
        ristretto_decodes(sp.h@),
        ristretto_decodes(sp.v@),
        ristretto_decodes(sp.pp.g_rho@),
        ristretto_decodes(h1),
        ristretto_decodes(h2),
        sigma_witness(sp, h1, h2, C, R, Cr, r, rho, u, w, x),
        sigma_proof_for(k, start, sp, h1, h2, C, R, Cr, r, rho, u, w, x, proof),
    ensures
        sigma_accepts(start, sp, h1, h2, C, R, Cr, proof),
{
    let c = proof.c@;
    let g3 = seq![sp.g@, h1, h2];
    let g2 = seq![sp.g@, sp.pp.g_rho@];
    let g4 = seq![sp.g@, sp.h@, sp.v@];
    assert forall|i: int| 0 <= i < 3 implies ristretto_decodes(#[trigger] g3[i]) by {}
    assert forall|i: int| 0 <= i < 2 implies ristretto_decodes(#[trigger] g2[i]) by {}
    assert forall|i: int| 0 <= i < 3 implies ristretto_decodes(#[trigger] g4[i]) by {}
    lemma_msm_linear(e, seq![k.k_r@, k.k_w@, k.k_u@], seq![r, w, u], c, g3);
    lemma_msm_linear(e, seq![k.k_r@, k.k_rho@], seq![r, rho], c, g2);
    lemma_msm_linear(e, seq![k.k_x@, k.k_w@, k.k_u@], seq![x, w, u], c, g4);
    assert(scalars_combined(seq![k.k_r@, k.k_w@, k.k_u@], seq![r, w, u], c) =~= seq![
        proof.s_r@,
        proof.s_w@,
        proof.s_u@,
    ]);
    assert(scalars_combined(seq![k.k_r@, k.k_rho@], seq![r, rho], c) =~= seq![
        proof.s_r@,
        proof.s_rho@,
    ]);
    assert(scalars_combined(seq![k.k_x@, k.k_w@, k.k_u@], seq![x, w, u], c) =~= seq![
        proof.s_x@,
        proof.s_w@,
        proof.s_u@,
    ]);
}

/// The proof for the witness `(r, rho_r, u, w, x)` with the given nonces;
/// the verifier accepts it when the witness fits the statement.
pub fn prove_sigma_with_nonces(
    tr: ProofTranscript,
    nonces: &SigmaNonces,
    sp: &SigParams,
    h1: &Point,
    h2: &Point,
    C: &Point,
    R: &Point,
    Cr: &Point,
    r: Scalar,
    rho_r: Scalar,
    u: Scalar,
    w: Scalar,
    x: Scalar,
) -> (proof: RelEvalProof)
    ensures
        sigma_proof_for(
            *nonces,
            tr@,
            *sp,
            h1@,
            h2@,
            C@,
            R@,
            Cr@,
            r@,
            rho_r@,
            u@,
            w@,
            x@,
            proof,
        ),
        sigma_witness(*sp, h1@, h2@, C@, R@, Cr@, r@, rho_r@, u@, w@, x@) ==> sigma_accepts(
            tr@,
            *sp,
            h1@,
            h2@,
            C@,
            R@,
            Cr@,
            proof,
        ),
{
    let ghost start = tr@;
    let mut tr = tr;
    let T1 = msm3(&nonces.k_r, &nonces.k_w, &nonces.k_u, &sp.g, h1, h2);
    let T2 = msm2(&nonces.k_r, &nonces.k_rho, &sp.g, &sp.pp.g_rho);
    let T3 = msm3(&nonces.k_x, &nonces.k_w, &nonces.k_u, &sp.g, &sp.h, &sp.v);
    let c = sigma_challenge_of(&mut tr, sp, h1, h2, C, R, Cr, &T1, &T2, &T3);
    let proof = RelEvalProof {
        T1,
        T2,
        T3,
        c,
        s_r: nonces.k_r.add(&c.mul(&r)),
        s_rho: nonces.k_rho.add(&c.mul(&rho_r)),
        s_u: nonces.k_u.add(&c.mul(&u)),
        s_w: nonces.k_w.add(&c.mul(&w)),
        s_x: nonces.k_x.add(&c.mul(&x)),
    };
    let e = Point::identity();
    proof {
        use_type_invariant(&sp.g);
        use_type_invariant(&sp.h);
        use_type_invariant(&sp.v);
        use_type_invariant(&sp.pp.g_rho);
        use_type_invariant(h1);
        use_type_invariant(h2);
        if sigma_witness(*sp, h1@, h2@, C@, R@, Cr@, r@, rho_r@, u@, w@, x@) {
            lemma_sigma_complete(
                e@,
                *nonces,
                start,
                *sp,
                h1@,
                h2@,
                C@,
                R@,
                Cr@,
                r@,
                rho_r@,
                u@,
                w@,
                x@,
                proof,
            );
        }
    }
    proof
}

/// The proof for the witness `(r, rho_r, u, w, x)`, with fresh random
/// nonces: whatever the nonces drawn, the proof they give, which the
/// verifier accepts when the witness fits the statement.
pub fn prove_sigma(
    tr: ProofTranscript,
    sp: &SigParams,
    h1: &Point,
    h2: &Point,
    C: &Point,
    R: &Point,
    Cr: &Point,
    r: Scalar,
    rho_r: Scalar,
    u: Scalar,
    w: Scalar,
    x: Scalar,
) -> (proof: RelEvalProof)
    ensures
        exists|k: SigmaNonces|
            #[trigger] sigma_proof_for(
                k,
                tr@,
                *sp,
                h1@,
                h2@,
                C@,
                R@,
                Cr@,
                r@,
                rho_r@,
                u@,
                w@,
                x@,
                proof,
            ),
        sigma_witness(*sp, h1@, h2@, C@, R@, Cr@, r@, rho_r@, u@, w@, x@) ==> sigma_accepts(
            tr@,
            *sp,
            h1@,
            h2@,
            C@,
            R@,
            Cr@,
            proof,
        ),
{
    let nonces = SigmaNonces::random();
    let ghost start = tr@;
    let proof = prove_sigma_with_nonces(tr, &nonces, sp, h1, h2, C, R, Cr, r, rho_r, u, w, x);
    assert(sigma_proof_for(
        nonces,
        start,
        *sp,
        h1@,
        h2@,
        C@,
        R@,
        Cr@,
        r@,
        rho_r@,
        u@,
        w@,
        x@,
        proof,
    ));
    proof
}

/// Verifies a proof for the statement `(h1, h2, C, R, Cr)`: recomputes the
/// challenge from the transcript and checks the three equations.
pub fn verify_sigma(
    tr: ProofTranscript,
    sp: &SigParams,
    h1: &Point,
    h2: &Point,
    C: &Point,
    R: &Point,
    Cr: &Point,
    proof: &RelEvalProof,
) -> (ok: bool)
    ensures
        ok == sigma_accepts(tr@, *sp, h1@, h2@, C@, R@, Cr@, *proof),
        ok ==> proof.c@ == le_nat(
            merlin_challenge(
                sigma_ops(tr@, *sp, h1@, h2@, C@, R@, Cr@, proof.T1@, proof.T2@, proof.T3@),
                LABEL_CHALLENGE@,
                64,
            ),
        ) % group_order(),
        ok ==> ristretto_add(
            ristretto_add(
                ristretto_scalar_mul(sp.g@, proof.s_r@),
                ristretto_scalar_mul(h1@, proof.s_w@),
            ),
            ristretto_scalar_mul(h2@, proof.s_u@),
        ) == ristretto_add(proof.T1@, ristretto_scalar_mul(R@, proof.c@)),
        ok ==> ristretto_add(
            ristretto_scalar_mul(sp.g@, proof.s_r@),
            ristretto_scalar_mul(sp.pp.g_rho@, proof.s_rho@),
        ) == ristretto_add(proof.T2@, ristretto_scalar_mul(Cr@, proof.c@)),
        ok ==> ristretto_add(
            ristretto_add(
                ristretto_scalar_mul(sp.g@, proof.s_x@),
                ristretto_scalar_mul(sp.h@, proof.s_w@),
            ),
            ristretto_scalar_mul(sp.v@, proof.s_u@),
        ) == ristretto_add(proof.T3@, ristretto_scalar_mul(C@, proof.c@)),
{
    let e = Point::identity();
    proof {
        use_type_invariant(&sp.g);
        use_type_invariant(&sp.h);
        use_type_invariant(&sp.v);
        use_type_invariant(&sp.pp.g_rho);
        use_type_invariant(h1);
        use_type_invariant(h2);
        lemma_msm3(e@, proof.s_r@, proof.s_w@, proof.s_u@, sp.g@, h1@, h2@);
        lemma_msm2(e@, proof.s_r@, proof.s_rho@, sp.g@, sp.pp.g_rho@);
        lemma_msm3(e@, proof.s_x@, proof.s_w@, proof.s_u@, sp.g@, sp.h@, sp.v@);
    }
    let mut tr = tr;
    let c = sigma_challenge_of(&mut tr, sp, h1, h2, C, R, Cr, &proof.T1, &proof.T2, &proof.T3);
    if !c.equals(&proof.c) {
        return false;
    }
    let lhs1 = msm3(&proof.s_r, &proof.s_w, &proof.s_u, &sp.g, h1, h2);
    let rhs1 = proof.T1.add(&R.mul(&proof.c));
    if !lhs1.equals(&rhs1) {
        return false;
    }
    let lhs2 = msm2(&proof.s_r, &proof.s_rho, &sp.g, &sp.pp.g_rho);
    let rhs2 = proof.T2.add(&Cr.mul(&proof.c));
    if !lhs2.equals(&rhs2) {
        return false;
    }
    let lhs3 = msm3(&proof.s_x, &proof.s_w, &proof.s_u, &sp.g, &sp.h, &sp.v);
    let rhs3 = proof.T3.add(&C.mul(&proof.c));
    lhs3.equals(&rhs3)
}

/// Soundness of the check: under the group laws, a proof that the verifier
/// accepts satisfies the three relation equations, as sums of multiples:
/// `s_r·g + s_w·h1 + s_u·h2 = T1 + c·R`, `s_r·g + s_rho·g_rho = T2 + c·Cr`
/// and `s_x·g + s_w·h + s_u·v = T3 + c·C`.
pub proof fn lemma_accepted_proof_equations(
    e: Seq<u8>,
    start: Seq<TranscriptOp>,
    sp: SigParams,
    h1: Seq<u8>,
    h2: Seq<u8>,
    C: Seq<u8>,
    R: Seq<u8>,
    Cr: Seq<u8>,
    proof: RelEvalProof,
)
    requires
        ristretto_group(e),
        e == identity_encoding(),
        ristretto_decodes(sp.g@),
        ristretto_decodes(sp.h@),
        ristretto_decodes(sp.v@),
        ristretto_decodes(sp.pp.g_rho@),
        ristretto_decodes(h1),
        ristretto_decodes(h2),
        sigma_accepts(start, sp, h1, h2, C, R, Cr, proof),
    ensures
        ristretto_add(
            ristretto_add(
                ristretto_scalar_mul(sp.g@, proof.s_r@),
                ristretto_scalar_mul(h1, proof.s_w@),
            ),
            ristretto_scalar_mul(h2, proof.s_u@),
        ) == ristretto_add(proof.T1@, ristretto_scalar_mul(R, proof.c@)),
        ristretto_add(
            ristretto_scalar_mul(sp.g@, proof.s_r@),
            ristretto_scalar_mul(sp.pp.g_rho@, proof.s_rho@),
        ) == ristretto_add(proof.T2@, ristretto_scalar_mul(Cr, proof.c@)),
        ristretto_add(
            ristretto_add(
                ristretto_scalar_mul(sp.g@, proof.s_x@),
                ristretto_scalar_mul(sp.h@, proof.s_w@),
            ),
            ristretto_scalar_mul(sp.v@, proof.s_u@),
        ) == ristretto_add(proof.T3@, ristretto_scalar_mul(C, proof.c@)),
{
    lemma_msm3(e, proof.s_r@, proof.s_w@, proof.s_u@, sp.g@, h1, h2);
    lemma_msm2(e, proof.s_r@, proof.s_rho@, sp.g@, sp.pp.g_rho@);
    lemma_msm3(e, proof.s_x@, proof.s_w@, proof.s_u@, sp.g@, sp.h@, sp.v@);
}

/// The relation transcript binds the statement and the commitments: on the
/// same starting operations and parameters, two different tuples
/// `(h1, h2, C, R, Cr, T1, T2, T3)` give transcripts with different
/// operations before the challenge.
pub proof fn lemma_sigma_transcript_binds_statement(
    start: Seq<TranscriptOp>,
    sp: SigParams,
    a: (Seq<u8>, Seq<u8>, Seq<u8>, Seq<u8>, Seq<u8>, Seq<u8>, Seq<u8>, Seq<u8>),
    b: (Seq<u8>, Seq<u8>, Seq<u8>, Seq<u8>, Seq<u8>, Seq<u8>, Seq<u8>, Seq<u8>),
)
    requires
        a != b,
    ensures
        sigma_ops(start, sp, a.0, a.1, a.2, a.3, a.4, a.5, a.6, a.7) != sigma_ops(
            start,
            sp,
            b.0,
            b.1,
            b.2,
            b.3,
            b.4,
            b.5,
            b.6,
            b.7,
        ),
{
    let oa = sigma_ops(start, sp, a.0, a.1, a.2, a.3, a.4, a.5, a.6, a.7);
    let ob = sigma_ops(start, sp, b.0, b.1, b.2, b.3, b.4, b.5, b.6, b.7);
    let n = start.len() as int;
    if oa == ob {
        assert(oa[n + 4] == ob[n + 4]);
        assert(oa[n + 5] == ob[n + 5]);
        assert(oa[n + 6] == ob[n + 6]);
        assert(oa[n + 7] == ob[n + 7]);
        assert(oa[n + 8] == ob[n + 8]);
        assert(oa[n + 9] == ob[n + 9]);
        assert(oa[n + 10] == ob[n + 10]);
        assert(oa[n + 11] == ob[n + 11]);
        assert(a == b);
    }
}

/// A proof whose challenge is not the one its transcript yields is
/// rejected, whatever its other components.
pub proof fn lemma_wrong_challenge_rejected(
    start: Seq<TranscriptOp>,
    sp: SigParams,
    h1: Seq<u8>,
    h2: Seq<u8>,
    C: Seq<u8>,
    R: Seq<u8>,
    Cr: Seq<u8>,
    proof: RelEvalProof,
)
    requires
        proof.c@ != sigma_challenge(
            sigma_ops(start, sp, h1, h2, C, R, Cr, proof.T1@, proof.T2@, proof.T3@),
        ),
    ensures
        !sigma_accepts(start, sp, h1, h2, C, R, Cr, proof),
{
}

/// The verifier recomputes the prover's challenge: for a proof made by
/// `prove_sigma` on a transcript with the same operations and the same
/// statement, acceptance comes down to the three equations.
pub proof fn lemma_prover_challenge_recomputed(
    start: Seq<TranscriptOp>,
    sp: SigParams,
    h1: Seq<u8>,
    h2: Seq<u8>,
    C: Seq<u8>,
    R: Seq<u8>,
    Cr: Seq<u8>,
    proof: RelEvalProof,
)
    requires
        proof.c@ == sigma_challenge(
            sigma_ops(start, sp, h1, h2, C, R, Cr, proof.T1@, proof.T2@, proof.T3@),
        ),
    ensures
        sigma_accepts(start, sp, h1, h2, C, R, Cr, proof) == sigma_equations(
            sp,
            h1,
            h2,
            C,
            R,
            Cr,
            proof,
        ),
{
}

} // verus!
