//! Linear proofs (`bulletproofs::LinearProof`): proofs that the vector
//! committed to in `C` has a given inner product with a public vector.
//! Proofs travel as their serialised bytes.
use crate::arith::{dot, group_order, is_pow2, le_bytes, le_nat, log2};
use crate::point::{
    identity_encoding, point_encodings, ristretto_multiscalar_mul, scalar_values, Point,
};
use crate::scalar::Scalar;
use crate::transcript::{
    dom_sep_label, merlin_challenge, ProofTranscript, ProverRng, RngRecord, TranscriptOp,
};
use vstd::prelude::*;

verus! {

/// Whether `bulletproofs::LinearProof::from_bytes(proof)` succeeds and the
/// proof then verifies (`LinearProof::verify` returns `Ok`) against the
/// commitment `c`, the generators `g`, `f`, `b` and the public vector
/// `b_vec`, on a transcript to which the operations `ops` were applied.
pub uninterp spec fn linear_proof_accepts(
    ops: Seq<TranscriptOp>,
    proof: Seq<u8>,
    c: Seq<u8>,
    g: Seq<Seq<u8>>,
    f: Seq<u8>,
    b: Seq<u8>,
    b_vec: Seq<nat>,
) -> bool;

/// The serialised proof that `bulletproofs::LinearProof::create` makes on a
/// transcript with the operations `ops`, with a prover RNG in the state
/// `rng`, for the commitment `c`, the blinding `r`, the secret vector `a`,
/// the public vector `b` and the generators `g`, `f`, `bb`.
pub uninterp spec fn linear_proof_made(
    ops: Seq<TranscriptOp>,
    rng: RngRecord,
    c: Seq<u8>,
    r: nat,
    a: Seq<nat>,
    b: Seq<nat>,
    g: Seq<Seq<u8>>,
    f: Seq<u8>,
    bb: Seq<u8>,
) -> Seq<u8>;

/// The operations that `LinearProof::create` and `LinearProof::verify` put
/// on a transcript with the operations `ops` before the first round: the
/// domain separator `"ipp v1"`, `n`, the commitment `c`, the public vector
/// `b`, the generators `g`, then `f` and `bb`, each under its label.
pub open spec fn linear_proof_public_ops(
    ops: Seq<TranscriptOp>,
    c: Seq<u8>,
    b: Seq<nat>,
    g: Seq<Seq<u8>>,
    f: Seq<u8>,
    bb: Seq<u8>,
) -> Seq<TranscriptOp> {
    ops + seq![
        TranscriptOp::Message(dom_sep_label(), seq![105u8, 112u8, 112u8, 32u8, 118u8, 49u8]),
        TranscriptOp::Message(seq![110u8], le_bytes(b.len(), 8)),
        TranscriptOp::Message(seq![67u8], c),
    ] + Seq::new(
        b.len(),
        |i: int| TranscriptOp::Message(seq![98u8, 95u8, 105u8], le_bytes(b[i], 32)),
    ) + Seq::new(g.len(), |i: int| TranscriptOp::Message(seq![71u8, 95u8, 105u8], g[i])) + seq![
        TranscriptOp::Message(seq![70u8], f),
        TranscriptOp::Message(seq![66u8], bb),
    ]
}

/// The 32-byte element `i` of a serialised proof: `L_j` is element `2j` and
/// `R_j` element `2j + 1`.
pub open spec fn proof_element(p: Seq<u8>, i: nat) -> Seq<u8> {
    p.subrange(32 * i as int, 32 * i as int + 32)
}

/// The operations on the transcript when round `j` draws its challenge:
/// after `start`, each round appends `L` and `R` and draws the challenge
/// `"x_j"`.
pub open spec fn linear_proof_round_ops(start: Seq<TranscriptOp>, p: Seq<u8>, j: nat) -> Seq<
    TranscriptOp,
>
    decreases j,
{
    let lr = seq![
        TranscriptOp::Message(seq![76u8], proof_element(p, 2 * j)),
        TranscriptOp::Message(seq![82u8], proof_element(p, 2 * j + 1)),
    ];
    if j == 0 {
        start + lr
    } else {
        linear_proof_round_ops(start, p, (j - 1) as nat).push(
            TranscriptOp::Challenge(seq![120u8, 95u8, 106u8], 64),
        ) + lr
    }
}

/// The challenge `x_j` of round `j`: 64 challenge bytes read as an integer
/// modulo `ℓ`.
pub open spec fn linear_proof_round_challenge(start: Seq<TranscriptOp>, p: Seq<u8>, j: nat) -> nat {
    le_nat(merlin_challenge(linear_proof_round_ops(start, p, j), seq![120u8, 95u8, 106u8], 64))
        % group_order()
}

/// In none of the first `k` rounds of the proof `p`, on a transcript whose
/// operations before the first round are `start`, is `L_j` or `R_j` the
/// identity or the challenge `x_j` zero.
pub open spec fn linear_proof_rounds_regular(start: Seq<TranscriptOp>, p: Seq<u8>, k: nat) -> bool {
    forall|j: nat|
        j < k ==> {
            &&& proof_element(p, 2 * j) != identity_encoding()
            &&& proof_element(p, 2 * j + 1) != identity_encoding()
            &&& #[trigger] linear_proof_round_challenge(start, p, j) != 0
        }
}

/// `bulletproofs::LinearProof::create`, serialised with `to_bytes`.
/// - Its source returns an error exactly when the generator and secret
///   vectors do not have the length `n` of the public vector, or `n` is not
///   a power of two; otherwise a proof, a function of its arguments and of
///   the states of the transcript and the RNG.
/// - `to_bytes` writes `2·log2(n) + 3` elements of 32 bytes
///   (`serialized_size`).
/// - Completeness: when `c` is `sum_i a_i·G_i + <a, b>·F + r·B` (what the
///   crate documents the proof to show), `verify` on a transcript with the
///   same operations accepts the proof, unless a round point `L_j` or `R_j`
///   is the identity (`verify` refuses those, `create` does not avoid them)
///   or a round challenge is zero (which has no inverse), or `n` reaches
///   `2^32` (`verify` refuses 32 rounds or more).
/// Nothing is stated of the transcript and the RNG afterwards.
#[verifier::external_body]
pub(crate) fn linear_proof_create(
    t: &mut ProofTranscript,
    rng: &mut ProverRng,
    c: &Point,
    r: &Scalar,
    a_vec: &[Scalar],
    b_vec: &[Scalar],
    g_vec: &[Point],
    f: &Point,
    b: &Point,
) -> (res: Option<Vec<u8>>)
    ensures
        res is Some <==> (g_vec@.len() == b_vec@.len() && a_vec@.len() == b_vec@.len() && is_pow2(
            b_vec@.len() as nat,
        )),
        res matches Some(p) ==> p@ == linear_proof_made(
            old(t)@,
            old(rng)@,
            c@,
            r@,
            scalar_values(a_vec@),
            scalar_values(b_vec@),
            point_encodings(g_vec@),
            f@,
            b@,
        ),
        res matches Some(p) ==> p@.len() == 32 * (2 * log2(b_vec@.len() as nat) + 3),
        res matches Some(p) ==> (c@ == ristretto_multiscalar_mul(
            scalar_values(a_vec@) + seq![
                (dot(scalar_values(a_vec@), scalar_values(b_vec@), b_vec@.len() as nat) % (
                group_order() as int)) as nat,
                r@,
            ],
            point_encodings(g_vec@) + seq![f@, b@],
        ) && b_vec@.len() < 0x1_0000_0000 && linear_proof_rounds_regular(
            linear_proof_public_ops(
                old(t)@,
                c@,
                scalar_values(b_vec@),
                point_encodings(g_vec@),
                f@,
                b@,
            ),
            p@,
            log2(b_vec@.len() as nat),
        ) ==> linear_proof_accepts(
            old(t)@,
            p@,
            c@,
            point_encodings(g_vec@),
            f@,
            b@,
            scalar_values(b_vec@),
        )),
{
    let dec = |p: &Point|
        curve25519_dalek::ristretto::CompressedRistretto(p.bytes).decompress().unwrap();
    let sc = |s: &Scalar| curve25519_dalek::scalar::Scalar::from_bytes_mod_order(s.bytes);
    bulletproofs::LinearProof::create(
        &mut t.inner, &mut rng.inner,
        &curve25519_dalek::ristretto::CompressedRistretto(c.bytes), sc(r),
        a_vec.iter().map(sc).collect(), b_vec.iter().map(sc).collect(),
        g_vec.iter().map(dec).collect(), &dec(f), &dec(b),
    ).ok().map(|p| p.to_bytes())
}

/// `bulletproofs::LinearProof::from_bytes(proof)` followed, on success, by
/// `LinearProof::verify`; `true` when both return `Ok`. `verify` returns an
/// error when the generators and the public vector differ in length.
#[verifier::external_body]
pub(crate) fn linear_proof_verify(
    t: &mut ProofTranscript,
    proof: &[u8],
    c: &Point,
    g_vec: &[Point],
    f: &Point,
    b: &Point,
    b_vec: &[Scalar],
) -> (ok: bool)
    ensures
        ok == linear_proof_accepts(
            old(t)@,
            proof@,
            c@,
            point_encodings(g_vec@),
            f@,
            b@,
            scalar_values(b_vec@),
        ),
        g_vec@.len() != b_vec@.len() ==> !ok,
{
    let dec = |p: &Point|
        curve25519_dalek::ristretto::CompressedRistretto(p.bytes).decompress().unwrap();
    let sc = |s: &Scalar| curve25519_dalek::scalar::Scalar::from_bytes_mod_order(s.bytes);
    match bulletproofs::LinearProof::from_bytes(proof) {
        Ok(p) => p.verify(
            &mut t.inner, &curve25519_dalek::ristretto::CompressedRistretto(c.bytes),
            &g_vec.iter().map(dec).collect::<Vec<_>>(), &dec(f), &dec(b),
            b_vec.iter().map(sc).collect(),
        ).is_ok(),
        Err(_) => false,
    }
}

} // verus!
