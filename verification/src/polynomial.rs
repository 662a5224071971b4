//! Secret polynomials, their Pedersen commitments, their evaluation (from
//! stored coefficients or from coefficients derived from a key), and proofs
//! of correct evaluation.
use crate::arith::{
    dot, group_order, is_pow2, le_bytes, le_nat, lemma_dot_powers, lemma_dot_prefix,
    lemma_group_order_fits_32_bytes, lemma_le_bytes_injective, lemma_mod_mul_add, lemma_mod_small,
    lemma_poly_sum_split, log2, pad_zeros, padded_powers, poly_sum, poly_value, pow256,
};
use crate::group::{
    all_decode, lemma_add_swap_middle, lemma_msm_decodes, lemma_msm_pad_zeros, lemma_msm_prefix,
    lemma_msm_step, lemma_mul_add_scalars, lemma_mul_canonical,
};
use crate::helpers::{
    chacha_coeff, chacha_coeffs, coeff_at_chacha8, coeff_from_prefix, coeff_prefix, h2p, h2p_spec,
    horner_eval, horner_range, lemma_next_pow2_monotone, msm, next_pow2, next_pow2_spec,
    rand_scalar, ro_coeffs,
    sha512,
};
use crate::ipa::{
    linear_proof_accepts, linear_proof_create, linear_proof_made, linear_proof_public_ops,
    linear_proof_rounds_regular, linear_proof_verify,
};
use crate::parallel::par_map;
use crate::point::{
    identity_encoding, point_encodings, points_canonical, ristretto_add, ristretto_decodes,
    ristretto_group, ristretto_multiscalar_mul, ristretto_scalar_mul, scalar_values, Point,
};
use crate::scalar::Scalar;
use crate::transcript::{
    dom_sep_label, merlin_transcript_rng, os_seed, random_scalar_from, transcript_rng_scalar,
    ProofTranscript, TranscriptOp,
};
use vstd::arithmetic::power::pow;
use vstd::prelude::*;

verus! {

/// Below this many coefficients, evaluation is a plain sequential Horner.
const PAR_THRESHOLD: usize = 64;

/// Number of coefficients per block in blocked (parallel) evaluation.
const BLOCK: usize = 32;

/// `"PolyEval"`, the label of evaluation-proof transcripts.
pub const LABEL_POLY_EVAL: [u8; 8] = [80u8, 111u8, 108u8, 121u8, 69u8, 118u8, 97u8, 108u8];

/// `"m"`.
pub const LABEL_M: [u8; 1] = [109u8];

/// `"g0"`.
pub const LABEL_G0: [u8; 2] = [103u8, 48u8];

/// `"g_rho"`.
pub const LABEL_G_RHO: [u8; 5] = [103u8, 95u8, 114u8, 104u8, 111u8];

/// `"z"`.
pub const LABEL_Z: [u8; 1] = [122u8];

/// Parameters (bases) for Pedersen commitments.
#[derive(Clone, Debug)]
pub struct Params {
    /// Base for the evaluation `y`.
    pub g0: Point,
    /// Blinding base.
    pub g_rho: Point,
    /// Bases for the coefficients (its length is a power of two).
    pub g: Vec<Point>,
}

/// The coefficient bases that setup derives for `domain`: `m` points
/// labelled `"g"`, numbered `0..m`.
pub open spec fn coefficient_bases(domain: Seq<char>, m: nat) -> Seq<Seq<u8>> {
    Seq::new(m, |i: int| h2p_spec(domain, "g"@, i as u64))
}

/// The Pedersen commitment `sum_i x[i] · g[i] + rho · g_rho`.
pub open spec fn commitment(x: Seq<nat>, rho: nat, g: Seq<Seq<u8>>, g_rho: Seq<u8>) -> Seq<u8> {
    ristretto_add(ristretto_multiscalar_mul(x, g), ristretto_scalar_mul(g_rho, rho))
}

/// Number of coefficients in the block that starts at `start`.
pub open spec fn block_len(start: nat, n: nat) -> nat {
    if n - start < 32 {
        (n - start) as nat
    } else {
        32
    }
}

/// The operations an evaluation proof puts on its transcript before the
/// inner-product argument: the label `"PolyEval"`, then `m`, `g0`, `g_rho`
/// and `z`.
pub open spec fn eval_transcript_ops(m: nat, g0: Seq<u8>, g_rho: Seq<u8>, z: nat) -> Seq<
    TranscriptOp,
> {
    seq![
        TranscriptOp::Message(dom_sep_label(), LABEL_POLY_EVAL@),
        TranscriptOp::Message(LABEL_M@, le_bytes(m, 8)),
        TranscriptOp::Message(LABEL_G0@, g0),
        TranscriptOp::Message(LABEL_G_RHO@, g_rho),
        TranscriptOp::Message(LABEL_Z@, le_bytes(z, 32)),
    ]
}

/// The randomness and the proof of an evaluation proof made with the seed
/// `seed`: `rho_y` is the first scalar of the prover RNG built from the
/// transcript `eval_transcript_ops(m, g0, g_rho, z)` and `seed`, and `proof`
/// is the linear proof made on that transcript, with that RNG after one
/// draw, for the commitment `P`, the blinding `rho_f + rho_y`, the padded
/// coefficients `x` and the public vector `a`, over the bases `g`, `g0`,
/// `g_rho`.
pub open spec fn eval_proof_made(
    seed: Seq<u8>,
    m: nat,
    g0: Seq<u8>,
    g_rho: Seq<u8>,
    z: nat,
    x: Seq<nat>,
    rho_f: nat,
    P: Seq<u8>,
    a: Seq<nat>,
    g: Seq<Seq<u8>>,
    proof: Seq<u8>,
    rho_y: nat,
) -> bool {
    let ops = eval_transcript_ops(m, g0, g_rho, z);
    &&& rho_y == le_nat(transcript_rng_scalar((ops, seed, 0)))
    &&& proof == linear_proof_made(
        ops,
        (ops, seed, 1),
        P,
        (rho_f + rho_y) % group_order(),
        x,
        a,
        g,
        g0,
        g_rho,
    )
}

/// The evaluation proof `proof` for the public point `P` and vector `a` has
/// no degenerate round (see `linear_proof_rounds_regular`).
pub open spec fn eval_rounds_regular(
    g0: Seq<u8>,
    g_rho: Seq<u8>,
    z: nat,
    P: Seq<u8>,
    a: Seq<nat>,
    g: Seq<Seq<u8>>,
    proof: Seq<u8>,
) -> bool {
    linear_proof_rounds_regular(
        linear_proof_public_ops(eval_transcript_ops(a.len(), g0, g_rho, z), P, a, g, g0, g_rho),
        proof,
        log2(a.len()),
    )
}

/// The coefficients `start..end` derived through SHA-512 from the hash prefix
/// `prefix`.
pub open spec fn prefix_coeffs(prefix: Seq<u8>, start: nat, end: nat) -> Seq<nat> {
    Seq::new(
        (end - start) as nat,
        |j: int| le_nat(sha512(prefix + le_bytes((start + j) as nat, 8))) % group_order(),
    )
}

/// The coefficient bases for `domain`, numbered `0..m`.
fn derive_bases(m: usize, domain: &str) -> (g: Vec<Point>)
    ensures
        point_encodings(g@) == coefficient_bases(domain@, m as nat),
{
    let mut g: Vec<Point> = Vec::new();
    let mut i: usize = 0;
    while i < m
        invariant
            i <= m,
            g@.len() == i,
            forall|j: int| 0 <= j < i ==> (#[trigger] g@[j])@ == h2p_spec(domain@, "g"@, j as u64),
        decreases m - i,
    {
        let p = h2p(domain, "g", i as u64);
        g.push(p);
        i = i + 1;
    }
    assert(point_encodings(g@) =~= coefficient_bases(domain@, m as nat));
    g
}

impl Params {
    /// Bases for polynomials with up to `m` coefficients, derived from
    /// `domain`: `g0`, `g_rho`, and `next_pow2(m)` coefficient bases.
    pub fn setup(m: usize, domain: &str) -> (pp: Self)
        requires
            m <= usize::MAX / 2 + 1 || is_pow2(m as nat),
        ensures
            pp.g0@ == h2p_spec(domain@, "g_0"@, 0),
            pp.g_rho@ == h2p_spec(domain@, "g_rho"@, 0),
            point_encodings(pp.g@) == coefficient_bases(domain@, next_pow2_spec(m as nat)),
            pp.g@.len() == next_pow2_spec(m as nat),
            is_pow2(pp.g@.len() as nat),
            pp.g@.len() >= m,
    {
        let m = next_pow2(m);
        let g0 = h2p(domain, "g_0", 0);
        let g_rho = h2p(domain, "g_rho", 0);
        let g = derive_bases(m, domain);
        assert(g@.len() == point_encodings(g@).len());
        Params { g0, g_rho, g }
    }

    /// Like `setup`, but with `g0` given by the caller (so that the base of
    /// the signature scheme can serve for the evaluation).
    pub fn setup_with_g0(m: usize, domain: &str, g0: Point) -> (pp: Self)
        requires
            m <= usize::MAX / 2 + 1 || is_pow2(m as nat),
        ensures
            pp.g0 == g0,
            pp.g_rho@ == h2p_spec(domain@, "g_rho"@, 0),
            point_encodings(pp.g@) == coefficient_bases(domain@, next_pow2_spec(m as nat)),
            pp.g@.len() == next_pow2_spec(m as nat),
            is_pow2(pp.g@.len() as nat),
            pp.g@.len() >= m,
    {
        let m = next_pow2(m);
        let g_rho = h2p(domain, "g_rho", 0);
        let g = derive_bases(m, domain);
        assert(g@.len() == point_encodings(g@).len());
        Params { g0, g_rho, g }
    }

    /// A copy of the parameters.
    pub fn duplicate(&self) -> (r: Params)
        ensures
            r.g0 == self.g0,
            r.g_rho == self.g_rho,
            r.g@ == self.g@,
    {
        let mut g: Vec<Point> = Vec::new();
        let mut i: usize = 0;
        while i < self.g.len()
            invariant
                i <= self.g@.len(),
                g@ == self.g@.subrange(0, i as int),
            decreases self.g@.len() - i,
        {
            g.push(self.g[i]);
            i = i + 1;
            assert(g@ =~= self.g@.subrange(0, i as int));
        }
        assert(g@ =~= self.g@);
        Params { g0: self.g0, g_rho: self.g_rho, g }
    }
}

/// A univariate polynomial `f(X) = a_0 + a_1 X + ... + a_d X^d` with its
/// commitment.
#[derive(Clone, Debug)]
pub struct Polynomial {
    /// `a_0, ..., a_d`.
    coeffs: Vec<Scalar>,
    /// Blinding of the commitment `cf`.
    pub rho_f: Scalar,
    /// Commitment to the coefficients.
    pub cf: Point,
    /// The coefficients padded with zeros to `m` entries.
    x_padded: Vec<Scalar>,
    /// Number of coefficient bases of the parameters (a power of two).
    m: usize,
}

/// Public data of a polynomial evaluation proof.
pub struct PublicEval {
    /// Commitment to the coefficients.
    pub Cf: Point,
    /// Commitment to the evaluation.
    pub Cy: Point,
    /// The evaluation point.
    pub z: Scalar,
    /// `[1, z, ..., z^d, 0, ..., 0]`.
    pub a: Vec<Scalar>,
    /// `Cf + Cy`.
    pub P: Point,
}

/// `[z^0, ..., z^k]` modulo `ℓ`.
fn powers(z: &Scalar, k: usize) -> (r: Vec<Scalar>)
    requires
        k < usize::MAX,
    ensures
        r@.len() == k + 1,
        forall|j: int| 0 <= j <= k ==> (#[trigger] r@[j])@ == pow(z@ as int, j as nat) % (
        group_order() as int),
{
    let mut r: Vec<Scalar> = Vec::new();
    let mut p = Scalar::one();
    let mut j: usize = 0;
    proof {
        vstd::arithmetic::power::lemma_pow0(z@ as int);
        lemma_mod_small(1);
    }
    while j <= k
        invariant
            j <= k + 1,
            k < usize::MAX,
            r@.len() == j,
            p@ == pow(z@ as int, j as nat) % (group_order() as int),
            forall|i: int| 0 <= i < j ==> (#[trigger] r@[i])@ == pow(z@ as int, i as nat) % (
            group_order() as int),
        decreases k + 1 - j,
    {
        r.push(p);
        let q = p.mul(z);
        proof {
            let pj = pow(z@ as int, j as nat);
            vstd::arithmetic::power::lemma_pow_adds(z@ as int, j as nat, 1);
            vstd::arithmetic::power::lemma_pow1(z@ as int);
            vstd::arithmetic::div_mod::lemma_mul_mod_noop_left(pj, z@ as int, group_order() as int);
        }
        p = q;
        j = j + 1;
    }
    r
}

/// Block start indices `0, 32, 64, ...` covering `0..n`.
fn block_starts(n: usize) -> (s: Vec<usize>)
    requires
        n >= 1,
    ensures
        s@.len() >= 1,
        (s@.len() - 1) * 32 < n <= s@.len() * 32,
        forall|k: int| 0 <= k < s@.len() ==> #[trigger] s@[k] == k * 32,
{
    let mut s: Vec<usize> = Vec::new();
    let mut start: usize = 0;
    loop
        invariant_except_break
            start < n,
            start == s@.len() * 32,
            forall|k: int| 0 <= k < s@.len() ==> #[trigger] s@[k] == k * 32,
        ensures
            s@.len() >= 1,
            (s@.len() - 1) * 32 < n <= s@.len() * 32,
            forall|k: int| 0 <= k < s@.len() ==> #[trigger] s@[k] == k * 32,
        decreases n - start,
    {
        s.push(start);
        if n - start <= BLOCK {
            break;
        }
        start = start + BLOCK;
    }
    s
}

/// Combines block values from the last block to the first:
/// `acc = acc · z^len(block) + value(block)`.
fn combine_blocks(
    blocks: &Vec<(Scalar, usize)>,
    z_pows: &Vec<Scalar>,
    Ghost(c): Ghost<Seq<nat>>,
    Ghost(z): Ghost<nat>,
) -> (r: Scalar)
    requires
        blocks@.len() >= 1,
        (blocks@.len() - 1) * 32 < c.len() <= blocks@.len() * 32,
        z_pows@.len() == 33,
        forall|j: int| 0 <= j <= 32 ==> (#[trigger] z_pows@[j])@ == pow(z as int, j as nat) % (
        group_order() as int),
        forall|k: int|
            0 <= k < blocks@.len() ==> (#[trigger] blocks@[k]).1 == block_len(
                (k * 32) as nat,
                c.len(),
            ) && blocks@[k].0@ == poly_value(c.subrange(k * 32, k * 32 + blocks@[k].1), z),
    ensures
        r@ == poly_value(c, z),
{
    let mut acc = Scalar::zero();
    let mut k = blocks.len();
    let ghost n = c.len();
    proof {
        assert(c.subrange(n as int, n as int) =~= Seq::<nat>::empty());
        lemma_mod_small(0);
    }
    while k > 0
        invariant
            k <= blocks@.len(),
            blocks@.len() >= 1,
            (blocks@.len() - 1) * 32 < c.len() <= blocks@.len() * 32,
            n == c.len(),
            z_pows@.len() == 33,
            forall|j: int| 0 <= j <= 32 ==> (#[trigger] z_pows@[j])@ == pow(z as int, j as nat) % (
            group_order() as int),
            forall|k: int|
                0 <= k < blocks@.len() ==> (#[trigger] blocks@[k]).1 == block_len(
                    (k * 32) as nat,
                    c.len(),
                ) && blocks@[k].0@ == poly_value(c.subrange(k * 32, k * 32 + blocks@[k].1), z),
            k == blocks@.len() ==> acc@ == poly_value(c.subrange(n as int, n as int), z),
            k < blocks@.len() ==> acc@ == poly_value(c.subrange(k * 32, n as int), z),
        decreases k,
    {
        k = k - 1;
        let (bval, blen) = blocks[k];
        let ghost start = k * 32;
        proof {
            assert(blocks@[k as int].1 == blen);
            assert(start < n);
            assert(blen <= 32);
        }
        let zp = z_pows[blen];
        let prev = acc;
        acc = prev.mul(&zp).add(&bval);
        proof {
            let end = start + blen;
            let chunk = c.subrange(start as int, end as int);
            let rest = c.subrange(end as int, n as int);
            assert(c.subrange(start as int, n as int) =~= chunk + rest);
            if k + 1 == blocks@.len() {
                assert(end == n);
                assert(rest =~= c.subrange(n as int, n as int));
            } else {
                assert(end == (k + 1) * 32);
            }
            lemma_poly_sum_split(chunk, rest, z);
            let a = poly_sum(rest, z);
            let v = poly_sum(chunk, z);
            let p = pow(z as int, blen as nat);
            lemma_mod_mul_add(a, p, v);
            assert(a * p + v == v + p * a) by (nonlinear_arith);
        }
    }
    proof {
        assert(c.subrange(0, n as int) =~= c);
    }
    acc
}

/// Evaluation at `z` of the coefficients `start..end` derived from the
/// hash prefix `prefix`.
fn ro_block(prefix: &Vec<u8>, start: usize, end: usize, z: &Scalar) -> (r: Scalar)
    requires
        start <= end,
    ensures
        r@ == poly_value(prefix_coeffs(prefix@, start as nat, end as nat), z@),
{
    let mut buf: Vec<Scalar> = Vec::new();
    let mut i = start;
    while i < end
        invariant
            start <= i <= end,
            buf@.len() == i - start,
            forall|j: int| 0 <= j < buf@.len() ==> (#[trigger] buf@[j])@ == prefix_coeffs(
                prefix@,
                start as nat,
                end as nat,
            )[j],
        decreases end - i,
    {
        let c = coeff_from_prefix(prefix, i);
        buf.push(c);
        i = i + 1;
    }
    assert(scalar_values(buf@) =~= prefix_coeffs(prefix@, start as nat, end as nat));
    horner_eval(buf.as_slice(), z)
}

/// Evaluation at `z` of the coefficients `start..end` derived from `key`
/// through ChaCha8.
fn chacha_block(key: &Scalar, start: usize, end: usize, z: &Scalar) -> (r: Scalar)
    requires
        start <= end,
    ensures
        r@ == poly_value(chacha_coeffs(key@, end as nat).subrange(start as int, end as int), z@),
{
    let mut buf: Vec<Scalar> = Vec::new();
    let mut i = start;
    while i < end
        invariant
            start <= i <= end,
            buf@.len() == i - start,
            forall|j: int| 0 <= j < buf@.len() ==> (#[trigger] buf@[j])@ == chacha_coeff(
                key@,
                (start + j) as nat,
            ),
        decreases end - i,
    {
        let c = coeff_at_chacha8(key, i);
        buf.push(c);
        i = i + 1;
    }
    assert(scalar_values(buf@) =~= chacha_coeffs(key@, end as nat).subrange(
        start as int,
        end as int,
    ));
    horner_eval(buf.as_slice(), z)
}

impl Polynomial {
    /// The coefficients `a_0, ..., a_d`.
    pub closed spec fn coefficients(&self) -> Seq<nat> {
        scalar_values(self.coeffs@)
    }

    /// The coefficients padded with zeros to `width()` entries.
    pub closed spec fn padded(&self) -> Seq<nat> {
        scalar_values(self.x_padded@)
    }

    /// The blinding `rho_f` of the stored commitment.
    pub closed spec fn blinding(&self) -> Scalar {
        self.rho_f
    }

    /// The stored commitment `cf`.
    pub closed spec fn commitment_point(&self) -> Point {
        self.cf
    }

    /// The number of coefficient bases the polynomial was committed with.
    pub closed spec fn width(&self) -> nat {
        self.m as nat
    }

    /// At least one coefficient, a power-of-two width that is at least the
    /// number of coefficients, and the padded coefficients are the
    /// coefficients followed by zeros.
    pub closed spec fn wf(&self) -> bool {
        &&& self.coeffs@.len() >= 1
        &&& self.coeffs@.len() <= self.m
        &&& is_pow2(self.m as nat)
        &&& self.x_padded@.len() == self.m
        &&& self.padded() == pad_zeros(
            self.coefficients(),
            (self.m - self.coeffs@.len()) as nat,
        )
    }

    /// The polynomial with coefficients `coeffs`, committed with blinding
    /// `rho_f` under `pp`.
    pub fn from_coefficients(coeffs: Vec<Scalar>, rho_f: Scalar, pp: &Params) -> (p: Polynomial)
        requires
            1 <= coeffs@.len() <= pp.g@.len(),
            is_pow2(pp.g@.len() as nat),
        ensures
            p.wf(),
            p.coefficients() == scalar_values(coeffs@),
            p.width() == pp.g@.len(),
            p.blinding() == rho_f,
            p.commitment_point()@ == commitment(
                p.padded(),
                rho_f@,
                point_encodings(pp.g@),
                pp.g_rho@,
            ),
            p.commitment_point()@ == commitment(
                scalar_values(coeffs@),
                rho_f@,
                point_encodings(pp.g@),
                pp.g_rho@,
            ),
    {
        let n = coeffs.len();
        let m = pp.g.len();
        let mut x_padded: Vec<Scalar> = Vec::new();
        let mut i: usize = 0;
        while i < m
            invariant
                i <= m,
                n == coeffs@.len(),
                n <= m,
                x_padded@.len() == i,
                forall|j: int|
                    0 <= j < i ==> (#[trigger] x_padded@[j])@ == pad_zeros(
                        scalar_values(coeffs@),
                        (m - n) as nat,
                    )[j],
            decreases m - i,
        {
            if i < n {
                x_padded.push(coeffs[i]);
            } else {
                x_padded.push(Scalar::zero());
            }
            i = i + 1;
        }
        assert(scalar_values(x_padded@) =~= pad_zeros(scalar_values(coeffs@), (m - n) as nat));
        let cf = msm(x_padded.as_slice(), pp.g.as_slice()).add(&pp.g_rho.mul(&rho_f));
        proof {
            lemma_msm_pad_zeros(scalar_values(coeffs@), (m - n) as nat, point_encodings(pp.g@));
        }
        Polynomial { coeffs, rho_f, cf, x_padded, m }
    }

    /// A polynomial of the given degree with random coefficients, committed
    /// under `pp` with a random blinding.
    pub fn random(degree: usize, pp: &Params) -> (p: Self)
        requires
            degree < pp.g@.len(),
            is_pow2(pp.g@.len() as nat),
        ensures
            p.wf(),
            p.coefficients().len() == degree + 1,
            p.width() == pp.g@.len(),
            p.commitment_point()@ == commitment(
                p.padded(),
                p.blinding()@,
                point_encodings(pp.g@),
                pp.g_rho@,
            ),
            p.commitment_point()@ == commitment(
                p.coefficients(),
                p.blinding()@,
                point_encodings(pp.g@),
                pp.g_rho@,
            ),
    {
        let glen = pp.g.len();
        let mut coeffs: Vec<Scalar> = Vec::new();
        let mut i: usize = 0;
        while i <= degree
            invariant
                i <= degree + 1,
                degree < glen,
                coeffs@.len() == i,
            decreases degree + 1 - i,
        {
            coeffs.push(rand_scalar());
            i = i + 1;
        }
        let rho_f = rand_scalar();
        Polynomial::from_coefficients(coeffs, rho_f, pp)
    }

    /// The stored blinding `rho_f`.
    pub fn get_rho_f(&self) -> (r: Scalar)
        ensures
            r == self.blinding(),
    {
        self.rho_f
    }

    /// The stored commitment `cf`.
    pub fn get_cf(&self) -> (c: Point)
        ensures
            c == self.commitment_point(),
    {
        self.cf
    }

    /// The degree `d` (one less than the number of coefficients).
    pub fn degree(&self) -> (d: usize)
        requires
            self.wf(),
        ensures
            d == self.coefficients().len() - 1,
    {
        self.coeffs.len() - 1
    }

    /// `f(z)`. Below 64 coefficients a sequential Horner evaluation;
    /// otherwise blocks of 32 coefficients are evaluated in parallel and
    /// combined with `z^len(block)`.
    pub fn eval(&self, z: &Scalar) -> (y: Scalar)
        ensures
            y@ == poly_value(self.coefficients(), z@),
    {
        let n = self.coeffs.len();
        if n < PAR_THRESHOLD {
            return horner_eval(self.coeffs.as_slice(), z);
        }
        let z_pows = powers(z, BLOCK);
        let starts = block_starts(n);
        let coeffs = &self.coeffs;
        let zz = *z;
        let ghost starts_v = starts@;
        let blocks = par_map(
            starts,
            (|start: usize| -> (r: (Scalar, usize))
                requires
                    start < coeffs@.len(),
                ensures
                    r.1 == block_len(start as nat, coeffs@.len()),
                    r.0@ == poly_value(
                        scalar_values(coeffs@).subrange(start as int, start + r.1),
                        zz@,
                    ),
                {
                    let len = if coeffs.len() - start < BLOCK {
                        coeffs.len() - start
                    } else {
                        BLOCK
                    };
                    (horner_range(coeffs.as_slice(), start, start + len, &zz), len)
                }),
        );
        combine_blocks(&blocks, &z_pows, Ghost(scalar_values(self.coeffs@)), Ghost(z@))
    }

    /// `f(z)` for the polynomial of degree `degree` whose coefficients are
    /// derived from `key` through SHA-512 (`coeff_at`), computed without
    /// storing them. Blocks of 32 coefficients are evaluated in parallel
    /// from 64 coefficients on.
    pub fn eval_with_ro(z: &Scalar, degree: usize, key: &Scalar) -> (y: Scalar)
        requires
            degree < usize::MAX,
        ensures
            y@ == poly_value(ro_coeffs(key@, (degree + 1) as nat), z@),
    {
        let n = degree + 1;
        let prefix = coeff_prefix(key);
        let ghost c = ro_coeffs(key@, n as nat);
        proof {
            assert(prefix_coeffs(prefix@, 0, n as nat) =~= c);
        }
        if degree < PAR_THRESHOLD {
            return ro_block(&prefix, 0, n, z);
        }
        let z_pows = powers(z, BLOCK);
        let starts = block_starts(n);
        let pre = &prefix;
        let zz = *z;
        let blocks = par_map(
            starts,
            (|start: usize| -> (r: (Scalar, usize))
                requires
                    start < n,
                ensures
                    r.1 == block_len(start as nat, n as nat),
                    r.0@ == poly_value(
                        prefix_coeffs(pre@, start as nat, (start + r.1) as nat),
                        zz@,
                    ),
                {
                    let len = if n - start < BLOCK {
                        n - start
                    } else {
                        BLOCK
                    };
                    (ro_block(pre, start, start + len, &zz), len)
                }),
        );
        proof {
            assert forall|k: int| 0 <= k < blocks@.len() implies (#[trigger] blocks@[k]).1
                == block_len((k * 32) as nat, c.len()) && blocks@[k].0@ == poly_value(
                c.subrange(k * 32, k * 32 + blocks@[k].1),
                z@,
            ) by {
                let s = k * 32;
                assert(prefix_coeffs(prefix@, s as nat, (s + blocks@[k].1) as nat) =~= c.subrange(
                    s,
                    s + blocks@[k].1,
                ));
            }
        }
        combine_blocks(&blocks, &z_pows, Ghost(c), Ghost(z@))
    }

    /// `f(z)` for the polynomial of degree `degree` whose coefficients are
    /// derived from `key` through ChaCha8 (`coeff_at_chacha8`), computed
    /// without storing them, blocked as in `eval_with_ro`.
    pub fn eval_with_prf_chacha8(z: &Scalar, degree: usize, key: &Scalar) -> (y: Scalar)
        requires
            degree < usize::MAX,
        ensures
            y@ == poly_value(chacha_coeffs(key@, (degree + 1) as nat), z@),
    {
        let n = degree + 1;
        let ghost c = chacha_coeffs(key@, n as nat);
        proof {
            assert(c.subrange(0, n as int) =~= c);
        }
        if degree < PAR_THRESHOLD {
            return chacha_block(key, 0, n, z);
        }
        let z_pows = powers(z, BLOCK);
        let starts = block_starts(n);
        let kk = *key;
        let zz = *z;
        let blocks = par_map(
            starts,
            (|start: usize| -> (r: (Scalar, usize))
                requires
                    start < n,
                ensures
                    r.1 == block_len(start as nat, n as nat),
                    r.0@ == poly_value(
                        chacha_coeffs(kk@, (start + r.1) as nat).subrange(
                            start as int,
                            start + r.1,
                        ),
                        zz@,
                    ),
                {
                    let len = if n - start < BLOCK {
                        n - start
                    } else {
                        BLOCK
                    };
                    (chacha_block(&kk, start, start + len, &zz), len)
                }),
        );
        proof {
            assert forall|k: int| 0 <= k < blocks@.len() implies (#[trigger] blocks@[k]).1
                == block_len((k * 32) as nat, c.len()) && blocks@[k].0@ == poly_value(
                c.subrange(k * 32, k * 32 + blocks@[k].1),
                z@,
            ) by {
                let s = k * 32;
                let e = s + blocks@[k].1;
                assert(chacha_coeffs(key@, e as nat).subrange(s, e) =~= c.subrange(s, e));
            }
        }
        combine_blocks(&blocks, &z_pows, Ghost(c), Ghost(z@))
    }

    /// Commitment to the coefficients with blinding `rho_f`:
    /// `sum_i a_i · g_i + rho_f · g_rho`, the coefficients padded with zeros
    /// to the number of bases.
    pub fn commit(&self, pp: &Params, rho_f: Scalar) -> (c: Point)
        requires
            self.coefficients().len() <= pp.g@.len(),
            is_pow2(pp.g@.len() as nat),
        ensures
            c@ == commitment(
                pad_zeros(self.coefficients(), (pp.g@.len() - self.coefficients().len()) as nat),
                rho_f@,
                point_encodings(pp.g@),
                pp.g_rho@,
            ),
            c@ == commitment(self.coefficients(), rho_f@, point_encodings(pp.g@), pp.g_rho@),
    {
        let n = self.coeffs.len();
        let m = pp.g.len();
        let mut scalars: Vec<Scalar> = Vec::new();
        let mut i: usize = 0;
        while i < m
            invariant
                i <= m,
                n == self.coeffs@.len(),
                n <= m,
                scalars@.len() == i,
                forall|j: int|
                    0 <= j < i ==> (#[trigger] scalars@[j])@ == pad_zeros(
                        scalar_values(self.coeffs@),
                        (m - n) as nat,
                    )[j],
            decreases m - i,
        {
            if i < n {
                scalars.push(self.coeffs[i]);
            } else {
                scalars.push(Scalar::zero());
            }
            i = i + 1;
        }
        assert(scalar_values(scalars@) =~= pad_zeros(scalar_values(self.coeffs@), (m - n) as nat));
        proof {
            lemma_msm_pad_zeros(
                scalar_values(self.coeffs@),
                (m - n) as nat,
                point_encodings(pp.g@),
            );
        }
        msm(scalars.as_slice(), pp.g.as_slice()).add(&pp.g_rho.mul(&rho_f))
    }

    /// Evaluates `f(z)` and proves it: returns `y = f(z)`, a serialised
    /// linear proof that the committed coefficient vector has inner product
    /// `y` with `a = [1, z, ..., z^d, 0, ...]`, the public data, and the
    /// blinding `rho_y` of `Cy = y · g0 + rho_y · g_rho`. The prover's
    /// randomness comes from a seed of 32 bytes of the operating system's
    /// generator (see `prove_eval_with_seed`).
    pub fn prove_eval(&self, z: &Scalar, pp: &Params) -> (res: (
        Scalar,
        Vec<u8>,
        PublicEval,
        Scalar,
    ))
        requires
            self.wf(),
            pp.g@.len() == self.width(),
        ensures
            res.0@ == poly_value(self.coefficients(), z@),
            scalar_values(res.2.a@) == padded_powers(
                z@,
                self.coefficients().len(),
                self.width(),
            ),
            dot(self.padded(), scalar_values(res.2.a@), self.width()) % (group_order() as int)
                == res.0@,
            res.2.z == *z,
            res.2.Cf == self.commitment_point(),
            res.2.Cy@ == ristretto_add(
                ristretto_scalar_mul(pp.g0@, res.0@),
                ristretto_scalar_mul(pp.g_rho@, res.3@),
            ),
            res.2.P@ == ristretto_add(self.commitment_point()@, res.2.Cy@),
            exists|seed: Seq<u8>|
                #[trigger] eval_proof_made(
                    seed,
                    self.width(),
                    pp.g0@,
                    pp.g_rho@,
                    z@,
                    self.padded(),
                    self.blinding()@,
                    res.2.P@,
                    scalar_values(res.2.a@),
                    point_encodings(pp.g@),
                    res.1@,
                    res.3@,
                ),
            res.1@.len() == 32 * (2 * log2(self.width()) + 3),
            self.commitment_point()@ == commitment(
                self.padded(),
                self.blinding()@,
                point_encodings(pp.g@),
                pp.g_rho@,
            ) ==> res.2.P@ == ristretto_multiscalar_mul(
                self.padded() + seq![res.0@, (self.blinding()@ + res.3@) % group_order()],
                point_encodings(pp.g@) + seq![pp.g0@, pp.g_rho@],
            ),
            self.commitment_point()@ == commitment(
                self.padded(),
                self.blinding()@,
                point_encodings(pp.g@),
                pp.g_rho@,
            ) && self.width() < 0x1_0000_0000 && eval_rounds_regular(
                pp.g0@,
                pp.g_rho@,
                z@,
                res.2.P@,
                scalar_values(res.2.a@),
                point_encodings(pp.g@),
                res.1@,
            ) ==> linear_proof_accepts(
                eval_transcript_ops(res.2.a@.len() as nat, pp.g0@, pp.g_rho@, z@),
                res.1@,
                res.2.P@,
                point_encodings(pp.g@),
                pp.g0@,
                pp.g_rho@,
                scalar_values(res.2.a@),
            ),
    {
        let seed = os_seed();
        self.prove_eval_with_seed(z, pp, seed)
    }

    /// Evaluates `f(z)` and proves it, with the prover's randomness drawn
    /// from the transcript RNG finalized with `seed`: returns `y = f(z)`, a
    /// serialised linear proof that the committed coefficient vector has
    /// inner product `y` with `a = [1, z, ..., z^d, 0, ...]`, the public
    /// data, and the blinding `rho_y` of `Cy = y · g0 + rho_y · g_rho`.
    pub fn prove_eval_with_seed(&self, z: &Scalar, pp: &Params, seed: [u8; 32]) -> (res: (
        Scalar,
        Vec<u8>,
        PublicEval,
        Scalar,
    ))
        requires
            self.wf(),
            pp.g@.len() == self.width(),
        ensures
            res.0@ == poly_value(self.coefficients(), z@),
            scalar_values(res.2.a@) == padded_powers(
                z@,
                self.coefficients().len(),
                self.width(),
            ),
            dot(self.padded(), scalar_values(res.2.a@), self.width()) % (group_order() as int)
                == res.0@,
            res.2.z == *z,
            res.2.Cf == self.commitment_point(),
            res.2.Cy@ == ristretto_add(
                ristretto_scalar_mul(pp.g0@, res.0@),
                ristretto_scalar_mul(pp.g_rho@, res.3@),
            ),
            res.2.P@ == ristretto_add(self.commitment_point()@, res.2.Cy@),
            eval_proof_made(
                seed@,
                self.width(),
                pp.g0@,
                pp.g_rho@,
                z@,
                self.padded(),
                self.blinding()@,
                res.2.P@,
                scalar_values(res.2.a@),
                point_encodings(pp.g@),
                res.1@,
                res.3@,
            ),
            res.1@.len() == 32 * (2 * log2(self.width()) + 3),
            self.commitment_point()@ == commitment(
                self.padded(),
                self.blinding()@,
                point_encodings(pp.g@),
                pp.g_rho@,
            ) ==> res.2.P@ == ristretto_multiscalar_mul(
                self.padded() + seq![res.0@, (self.blinding()@ + res.3@) % group_order()],
                point_encodings(pp.g@) + seq![pp.g0@, pp.g_rho@],
            ),
            self.commitment_point()@ == commitment(
                self.padded(),
                self.blinding()@,
                point_encodings(pp.g@),
                pp.g_rho@,
            ) && self.width() < 0x1_0000_0000 && eval_rounds_regular(
                pp.g0@,
                pp.g_rho@,
                z@,
                res.2.P@,
                scalar_values(res.2.a@),
                point_encodings(pp.g@),
                res.1@,
            ) ==> linear_proof_accepts(
                eval_transcript_ops(res.2.a@.len() as nat, pp.g0@, pp.g_rho@, z@),
                res.1@,
                res.2.P@,
                point_encodings(pp.g@),
                pp.g0@,
                pp.g_rho@,
                scalar_values(res.2.a@),
            ),
    {
        let n = self.coeffs.len();
        let m = pp.g.len();
        let ghost c = scalar_values(self.coeffs@);
        let ghost pows = padded_powers(z@, n as nat, m as nat);
        let mut a: Vec<Scalar> = Vec::new();
        let mut pw = Scalar::one();
        let mut y = Scalar::zero();
        let mut i: usize = 0;
        proof {
            vstd::arithmetic::power::lemma_pow0(z@ as int);
            lemma_mod_small(1);
            lemma_mod_small(0);
        }
        while i < n
            invariant
                i <= n,
                n == self.coeffs@.len(),
                n <= m,
                c == scalar_values(self.coeffs@),
                pows == padded_powers(z@, n as nat, m as nat),
                a@.len() == i,
                forall|j: int| 0 <= j < i ==> (#[trigger] a@[j])@ == pows[j],
                pw@ == pow(z@ as int, i as nat) % (group_order() as int),
                y@ == dot(c, scalar_values(a@), i as nat) % (group_order() as int),
            decreases n - i,
        {
            let ghost d = dot(c, scalar_values(a@), i as nat);
            let ghost a_before = a@;
            a.push(pw);
            let t = self.coeffs[i].mul(&pw);
            y = y.add(&t);
            proof {
                let av = scalar_values(a@);
                let old_av = scalar_values(a_before);
                assert forall|j: int| 0 <= j < i implies av[j] == old_av[j] by {
                    assert(a@[j] == a_before[j]);
                }
                dot_agree(c, av, old_av, i as nat);
                assert(av[i as int] == pw@);
                assert(dot(c, av, (i + 1) as nat) == d + c[i as int] * pw@);
                vstd::arithmetic::div_mod::lemma_add_mod_noop(
                    d,
                    (c[i as int] * pw@) as int,
                    group_order() as int,
                );
                lemma_mod_small(0);
                let pj = pow(z@ as int, i as nat);
                vstd::arithmetic::power::lemma_pow_adds(z@ as int, i as nat, 1);
                vstd::arithmetic::power::lemma_pow1(z@ as int);
                vstd::arithmetic::div_mod::lemma_mul_mod_noop_left(
                    pj,
                    z@ as int,
                    group_order() as int,
                );
            }
            pw = pw.mul(z);
            i = i + 1;
        }
        let ghost a_n = a@;
        while a.len() < m
            invariant
                n <= a@.len() <= m,
                pows == padded_powers(z@, n as nat, m as nat),
                forall|j: int| 0 <= j < a@.len() ==> (#[trigger] a@[j])@ == pows[j],
            decreases m - a@.len(),
        {
            a.push(Scalar::zero());
        }
        proof {
            assert(scalar_values(a@) =~= pows);
            assert(c.subrange(0, n as int) =~= c);
            lemma_dot_powers(c, pows, z@, n as nat);
            assert forall|j: int| 0 <= j < n implies scalar_values(a_n)[j] == pows[j] by {
                assert(a_n[j]@ == pows[j]);
            }
            dot_agree(c, scalar_values(a_n), pows, n as nat);
            let xp = self.padded();
            assert(xp == pad_zeros(c, (m - n) as nat));
            assert forall|j: int| 0 <= j < n implies xp[j] == c[j] by {}
            assert forall|j: int| n <= j < m implies xp[j] == 0 by {}
            lemma_dot_prefix(xp, c, pows, n as nat, m as nat);
        }
        let mut t = ProofTranscript::new(&LABEL_POLY_EVAL);
        t.append_u64(&LABEL_M, m as u64);
        let g0_bytes = pp.g0.to_bytes();
        t.append_message(&LABEL_G0, &g0_bytes);
        let g_rho_bytes = pp.g_rho.to_bytes();
        t.append_message(&LABEL_G_RHO, &g_rho_bytes);
        let z_bytes = z.to_bytes();
        t.append_message(&LABEL_Z, &z_bytes);
        let ghost ops = t@;
        let mut tr_rng = merlin_transcript_rng(&t, seed);
        let rho_y = random_scalar_from(&mut tr_rng);
        let cy = pp.g0.mul(&y).add(&pp.g_rho.mul(&rho_y));
        let cf = self.cf;
        let p = cf.add(&cy);
        let rho = self.rho_f.add(&rho_y);
        let e = Point::identity();
        points_canonical(pp.g.as_slice());
        proof {
            use_type_invariant(&pp.g0);
            use_type_invariant(&pp.g_rho);
            let g = point_encodings(pp.g@);
            assert forall|i: int| 0 <= i < g.len() implies ristretto_decodes(#[trigger] g[i]) by {
                assert(g[i] == pp.g@[i]@);
            }
            if self.commitment_point()@ == commitment(
                self.padded(),
                self.blinding()@,
                g,
                pp.g_rho@,
            ) {
                lemma_eval_statement(
                    e@,
                    self.padded(),
                    self.blinding()@,
                    y@,
                    rho_y@,
                    g,
                    pp.g0@,
                    pp.g_rho@,
                );
            }
        }
        let created = linear_proof_create(
            &mut t,
            &mut tr_rng,
            &p,
            &rho,
            self.x_padded.as_slice(),
            a.as_slice(),
            pp.g.as_slice(),
            &pp.g0,
            &pp.g_rho,
        );
        let proof = match created {
            Some(bytes) => bytes,
            None => Vec::new(),
        };
        proof {
            assert(ops =~= eval_transcript_ops(m as nat, pp.g0@, pp.g_rho@, z@));
            assert(eval_proof_made(
                seed@,
                m as nat,
                pp.g0@,
                pp.g_rho@,
                z@,
                self.padded(),
                self.blinding()@,
                p@,
                scalar_values(a@),
                point_encodings(pp.g@),
                proof@,
                rho_y@,
            ));
        }
        let ghost av = a@;
        let public = PublicEval { Cf: cf, Cy: cy, z: *z, a, P: p };
        let res = (y, proof, public, rho_y);
        assert(res.2.P == p && res.2.a@ == av && res.3 == rho_y && res.1@ == proof@);
        res
    }
}

/// The commitment a well-formed polynomial stores (as `from_coefficients`
/// and `random` compute it) is the one `commit` computes for its
/// coefficients and its blinding.
pub proof fn lemma_stored_commitment_is_commit(p: Polynomial, pp: Params)
    requires
        p.wf(),
        p.width() == pp.g@.len(),
        p.commitment_point()@ == commitment(
            p.padded(),
            p.blinding()@,
            point_encodings(pp.g@),
            pp.g_rho@,
        ),
    ensures
        p.commitment_point()@ == commitment(
            pad_zeros(p.coefficients(), (pp.g@.len() - p.coefficients().len()) as nat),
            p.blinding()@,
            point_encodings(pp.g@),
            pp.g_rho@,
        ),
{
}

/// Bases depend only on the domain, the label and the index: a setup for
/// more coefficients has at least as many bases, and the bases of a setup
/// for fewer coefficients are its first ones.
pub proof fn lemma_setup_bases_extend(domain: Seq<char>, m1: nat, m2: nat)
    requires
        m1 <= m2,
    ensures
        next_pow2_spec(m1) <= next_pow2_spec(m2),
        coefficient_bases(domain, next_pow2_spec(m1)) == coefficient_bases(
            domain,
            next_pow2_spec(m2),
        ).subrange(0, next_pow2_spec(m1) as int),
{
    lemma_next_pow2_monotone(m1, m2);
    assert(coefficient_bases(domain, next_pow2_spec(m1)) =~= coefficient_bases(
        domain,
        next_pow2_spec(m2),
    ).subrange(0, next_pow2_spec(m1) as int));
}

/// A commitment does not depend on how many bases the parameters hold:
/// coefficients that fit the setup for `m1` coefficients have the same
/// commitment under the setup for any `m2 >= m1` from the same domain (the
/// extra bases meet zero padding).
pub proof fn lemma_commit_setup_extend(
    c: Seq<nat>,
    rho: nat,
    domain: Seq<char>,
    g_rho: Seq<u8>,
    m1: nat,
    m2: nat,
)
    requires
        c.len() <= next_pow2_spec(m1),
        m1 <= m2,
    ensures
        commitment(
            pad_zeros(c, (next_pow2_spec(m1) - c.len()) as nat),
            rho,
            coefficient_bases(domain, next_pow2_spec(m1)),
            g_rho,
        ) == commitment(
            pad_zeros(c, (next_pow2_spec(m2) - c.len()) as nat),
            rho,
            coefficient_bases(domain, next_pow2_spec(m2)),
            g_rho,
        ),
{
    let n1 = next_pow2_spec(m1);
    let n2 = next_pow2_spec(m2);
    let b1 = coefficient_bases(domain, n1);
    let b2 = coefficient_bases(domain, n2);
    lemma_setup_bases_extend(domain, m1, m2);
    lemma_msm_pad_zeros(c, (n1 - c.len()) as nat, b1);
    lemma_msm_pad_zeros(c, (n2 - c.len()) as nat, b2);
    assert(b1.subrange(0, c.len() as int) =~= b2.subrange(0, c.len() as int));
    lemma_msm_prefix(c, b1, b2);
}

/// `setup_with_g0` and `setup` for the same number of coefficients and the
/// same domain give the same blinding base and coefficient bases; only `g0`
/// differs, and `setup_with_g0` keeps the caller's.
pub proof fn lemma_setup_with_g0_matches_setup(
    p: Params,
    q: Params,
    m: nat,
    domain: Seq<char>,
    g0: Point,
)
    requires
        p.g0 == g0,
        p.g_rho@ == h2p_spec(domain, "g_rho"@, 0),
        point_encodings(p.g@) == coefficient_bases(domain, next_pow2_spec(m)),
        q.g_rho@ == h2p_spec(domain, "g_rho"@, 0),
        point_encodings(q.g@) == coefficient_bases(domain, next_pow2_spec(m)),
    ensures
        p.g0 == g0,
        p.g_rho@ == q.g_rho@,
        point_encodings(p.g@) == point_encodings(q.g@),
{
}

/// Under the group laws, `P = Cf + Cy` for a commitment `Cf` to `x` with
/// blinding `rho_f` and `Cy = y·g0 + rho_y·g_rho` commits to `x`, `y` and
/// the summed blinding over the coefficient bases, `g0` and `g_rho`.
proof fn lemma_eval_statement(
    e: Seq<u8>,
    x: Seq<nat>,
    rho_f: nat,
    y: nat,
    rho_y: nat,
    g: Seq<Seq<u8>>,
    g0: Seq<u8>,
    g_rho: Seq<u8>,
)
    requires
        ristretto_group(e),
        e == identity_encoding(),
        x.len() == g.len(),
        all_decode(g, g.len()),
        ristretto_decodes(g0),
        ristretto_decodes(g_rho),
    ensures
        ristretto_add(
            commitment(x, rho_f, g, g_rho),
            ristretto_add(ristretto_scalar_mul(g0, y), ristretto_scalar_mul(g_rho, rho_y)),
        ) == ristretto_multiscalar_mul(
            x + seq![y, (rho_f + rho_y) % group_order()],
            g + seq![g0, g_rho],
        ),
{
    let r = (rho_f + rho_y) % group_order();
    let s = x + seq![y, r];
    let gg = g + seq![g0, g_rho];
    let n = x.len();
    let xy = x + seq![y];
    assert forall|i: int| 0 <= i < s.len() implies ristretto_decodes(#[trigger] gg[i]) by {
        if i < n {
            assert(gg[i] == g[i]);
        }
    }
    assert(s.drop_last() =~= xy);
    assert(xy.drop_last() =~= x);
    assert(s[s.len() - 1] == r && gg[s.len() - 1] == g_rho);
    assert(xy[xy.len() - 1] == y && gg[xy.len() - 1] == g0);
    lemma_msm_step(e, s, gg);
    lemma_msm_step(e, xy, gg);
    assert(gg.subrange(0, n as int) =~= g.subrange(0, n as int));
    lemma_msm_prefix(x, gg, g);
    let a = ristretto_multiscalar_mul(x, g);
    let b = ristretto_scalar_mul(g_rho, rho_f);
    let c = ristretto_scalar_mul(g0, y);
    let d = ristretto_scalar_mul(g_rho, rho_y);
    lemma_msm_decodes(e, x, g);
    lemma_mul_canonical(e, g_rho, rho_f);
    lemma_mul_canonical(e, g0, y);
    lemma_mul_canonical(e, g_rho, rho_y);
    lemma_add_swap_middle(e, a, b, c, d);
    lemma_mul_add_scalars(e, g_rho, rho_f, rho_y);
}

/// The evaluation transcript binds the point and the number of
/// coefficients: for any bases, two evaluation proofs at different points
/// (or for different numbers of coefficients) run their linear proofs on
/// transcripts with different operations, whatever the number of
/// coefficients.
pub proof fn lemma_eval_transcript_binds_point(
    m1: nat,
    m2: nat,
    g0: Seq<u8>,
    g_rho: Seq<u8>,
    z1: nat,
    z2: nat,
)
    requires
        m1 < pow256(8),
        m2 < pow256(8),
        z1 < group_order(),
        z2 < group_order(),
        m1 != m2 || z1 != z2,
    ensures
        eval_transcript_ops(m1, g0, g_rho, z1) != eval_transcript_ops(m2, g0, g_rho, z2),
{
    let o1 = eval_transcript_ops(m1, g0, g_rho, z1);
    let o2 = eval_transcript_ops(m2, g0, g_rho, z2);
    lemma_group_order_fits_32_bytes();
    if z1 != z2 {
        lemma_le_bytes_injective(z1, z2, 32);
        assert(o1[4] != o2[4]);
    } else {
        lemma_le_bytes_injective(m1, m2, 8);
        assert(o1[1] != o2[1]);
    }
}

/// Dot products with two vectors that agree on the first `k` entries.
proof fn dot_agree(c: Seq<nat>, a: Seq<nat>, b: Seq<nat>, k: nat)
    requires
        k <= a.len(),
        k <= b.len(),
        forall|j: int| 0 <= j < k ==> a[j] == b[j],
    ensures
        dot(c, a, k) == dot(c, b, k),
    decreases k,
{
    if k > 0 {
        dot_agree(c, a, b, (k - 1) as nat);
    }
}

/// Verifies an evaluation proof: replays the prover's transcript (label
/// `"PolyEval"`, then `m = a.len()`, `g0`, `g_rho`, `z`) and checks the
/// linear proof that the vector committed in `P` has the claimed inner
/// product with `a`.
pub fn verify_eval(public: &PublicEval, proof: &[u8], pp: &Params) -> (ok: bool)
    ensures
        ok == linear_proof_accepts(
            eval_transcript_ops(public.a@.len() as nat, pp.g0@, pp.g_rho@, public.z@),
            proof@,
            public.P@,
            point_encodings(pp.g@),
            pp.g0@,
            pp.g_rho@,
            scalar_values(public.a@),
        ),
        public.a@.len() != pp.g@.len() ==> !ok,
{
    let mut tr = ProofTranscript::new(&LABEL_POLY_EVAL);
    let m = public.a.len();
    tr.append_u64(&LABEL_M, m as u64);
    let g0_bytes = pp.g0.to_bytes();
    tr.append_message(&LABEL_G0, &g0_bytes);
    let g_rho_bytes = pp.g_rho.to_bytes();
    tr.append_message(&LABEL_G_RHO, &g_rho_bytes);
    let z_bytes = public.z.to_bytes();
    tr.append_message(&LABEL_Z, &z_bytes);
    assert(tr@ =~= eval_transcript_ops(m as nat, pp.g0@, pp.g_rho@, public.z@));
    linear_proof_verify(
        &mut tr,
        proof,
        &public.P,
        pp.g.as_slice(),
        &pp.g0,
        &pp.g_rho,
        public.a.as_slice(),
    )
}

} // verus!
