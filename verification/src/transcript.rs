//! Fiat–Shamir transcripts (`merlin`), together with the record of the
//! operations performed on them, which is what determines their challenges.
use crate::arith::{group_order, le_bytes, le_nat};
use crate::scalar::Scalar;
use vstd::prelude::*;

verus! {

/// One operation on a transcript.
pub enum TranscriptOp {
    /// `append_message(label, message)`.
    Message(Seq<u8>, Seq<u8>),
    /// `challenge_bytes(label, dest)` with a destination of the given length.
    Challenge(Seq<u8>, nat),
}

#[verifier::external_type_specification]
#[verifier::external_body]
pub struct ExMerlinTranscript(merlin::Transcript);

#[verifier::external_type_specification]
#[verifier::external_body]
pub struct ExMerlinTranscriptRng(merlin::TranscriptRng);

/// The `len` bytes that `merlin::Transcript::challenge_bytes(label, ..)`
/// produces on a transcript to which the operations `ops` were applied, in
/// order, since its STROBE state was initialised.
pub uninterp spec fn merlin_challenge(ops: Seq<TranscriptOp>, label: Seq<u8>, len: nat) -> Seq<u8>;

/// The label under which `merlin::Transcript::new` appends its own label.
pub open spec fn dom_sep_label() -> Seq<u8> {
    seq![100u8, 111u8, 109u8, 45u8, 115u8, 101u8, 112u8]
}

/// A merlin transcript and the operations applied to it so far.
pub struct ProofTranscript {
    pub(crate) inner: merlin::Transcript,
    ops: Ghost<Seq<TranscriptOp>>,
}

impl View for ProofTranscript {
    type V = Seq<TranscriptOp>;

    /// The operations applied to the transcript, oldest first.
    closed spec fn view(&self) -> Seq<TranscriptOp> {
        self.ops@
    }
}

/// `merlin::Transcript::new`: its source initialises the STROBE state and
/// then appends `label` under the label `"dom-sep"`, which is the one
/// operation the contract records.
#[verifier::external_body]
fn merlin_new(label: &'static [u8]) -> (t: ProofTranscript)
    ensures
        t@ == seq![TranscriptOp::Message(dom_sep_label(), label@)],
{
    ProofTranscript { inner: merlin::Transcript::new(label), ops: Ghost(Seq::empty()) }
}

/// `merlin::Transcript::append_message`; it asserts that the message length
/// fits in a `u32`, hence the `requires`.
#[verifier::external_body]
fn merlin_append_message(t: &mut ProofTranscript, label: &'static [u8], message: &[u8])
    requires
        message@.len() <= u32::MAX,
    ensures
        final(t)@ == old(t)@.push(TranscriptOp::Message(label@, message@)),
{
    t.inner.append_message(label, message)
}

/// `merlin::Transcript::append_u64`, which the crate documents as
/// `append_message` of the 8-byte little-endian encoding of `x`.
#[verifier::external_body]
fn merlin_append_u64(t: &mut ProofTranscript, label: &'static [u8], x: u64)
    ensures
        final(t)@ == old(t)@.push(TranscriptOp::Message(label@, le_bytes(x as nat, 8))),
{
    t.inner.append_u64(label, x)
}

/// `merlin::Transcript::challenge_bytes` into a 64-byte buffer: a
/// deterministic function of the operations applied before it.
#[verifier::external_body]
fn merlin_challenge_bytes(t: &mut ProofTranscript, label: &'static [u8]) -> (r: [u8; 64])
    ensures
        r@ == merlin_challenge(old(t)@, label@, 64),
        final(t)@ == old(t)@.push(TranscriptOp::Challenge(label@, 64)),
{
    let mut out = [0u8; 64];
    t.inner.challenge_bytes(label, &mut out);
    out
}

/// What determines the state of a prover RNG: the operations of the
/// transcript it was built from, the seed it was finalized with, and the
/// number of scalars drawn from it since.
pub type RngRecord = (Seq<TranscriptOp>, Seq<u8>, nat);

/// The bytes of the scalar that `curve25519_dalek::scalar::Scalar::random`
/// draws from a prover RNG in the state `record`.
pub uninterp spec fn transcript_rng_scalar(record: RngRecord) -> Seq<u8>;

/// A transcript RNG (`merlin::TranscriptRng`) bound to a transcript and a
/// seed, with the record of what determines its state.
pub struct ProverRng {
    pub(crate) inner: merlin::TranscriptRng,
    record: Ghost<RngRecord>,
}

impl View for ProverRng {
    type V = RngRecord;

    /// The transcript operations and seed it was built from, and the number
    /// of scalars drawn from it.
    closed spec fn view(&self) -> RngRecord {
        self.record@
    }
}

/// 32 bytes from the operating system's generator
/// (`rand::rngs::OsRng::fill_bytes`). Nothing is stated of them.
#[verifier::external_body]
pub(crate) fn os_seed() -> [u8; 32] {
    let mut out = [0u8; 32];
    rand::RngCore::fill_bytes(&mut rand::rngs::OsRng, &mut out);
    out
}

/// `merlin::Transcript::build_rng().finalize(..)`, where the 32 bytes that
/// `finalize` takes from its generator come from
/// `rand_chacha::ChaCha20Rng::from_seed(seed)`: the RNG's state is then a
/// function of the transcript's operations and the seed alone.
#[verifier::external_body]
pub(crate) fn merlin_transcript_rng(t: &ProofTranscript, seed: [u8; 32]) -> (r: ProverRng)
    ensures
        r@ == (t@, seed@, 0nat),
{
    let mut g = <rand_chacha::ChaCha20Rng as rand::SeedableRng>::from_seed(seed);
    let inner = t.inner.build_rng().finalize(&mut g);
    ProverRng { inner, record: Ghost((Seq::empty(), Seq::empty(), 0nat)) }
}

/// `curve25519_dalek::scalar::Scalar::random` fed by a prover RNG: a reduced
/// scalar ("a random scalar within Z/ℓZ") that is a function of the RNG's
/// state; one more scalar has then been drawn.
#[verifier::external_body]
fn dalek_random_from(rng: &mut ProverRng) -> (r: [u8; 32])
    ensures
        r@ == transcript_rng_scalar(old(rng)@),
        le_nat(r@) < group_order(),
        final(rng)@ == (old(rng)@.0, old(rng)@.1, old(rng)@.2 + 1),
{
    curve25519_dalek::scalar::Scalar::random(&mut rng.inner).to_bytes()
}

/// The next scalar of a prover RNG.
pub(crate) fn random_scalar_from(rng: &mut ProverRng) -> (r: Scalar)
    ensures
        r@ == le_nat(transcript_rng_scalar(old(rng)@)),
        final(rng)@ == (old(rng)@.0, old(rng)@.1, old(rng)@.2 + 1),
{
    Scalar::from_reduced(dalek_random_from(rng))
}

impl ProofTranscript {
    /// A fresh transcript with the domain-separation label `label`; merlin
    /// records it as the message `label` under the label `"dom-sep"`.
    pub fn new(label: &'static [u8]) -> (t: ProofTranscript)
        ensures
            t@ == seq![TranscriptOp::Message(dom_sep_label(), label@)],
    {
        merlin_new(label)
    }

    /// Appends `message` under `label`.
    pub fn append_message(&mut self, label: &'static [u8], message: &[u8])
        requires
            message@.len() <= u32::MAX,
        ensures
            final(self)@ == old(self)@.push(TranscriptOp::Message(label@, message@)),
    {
        merlin_append_message(self, label, message)
    }

    /// Appends the 8-byte little-endian encoding of `x` under `label`.
    pub fn append_u64(&mut self, label: &'static [u8], x: u64)
        ensures
            final(self)@ == old(self)@.push(TranscriptOp::Message(label@, le_bytes(x as nat, 8))),
    {
        merlin_append_u64(self, label, x)
    }

    /// A challenge scalar: 64 challenge bytes under `label`, read as an
    /// integer modulo `ℓ`.
    pub fn challenge_scalar(&mut self, label: &'static [u8]) -> (c: Scalar)
        ensures
            c@ == le_nat(merlin_challenge(old(self)@, label@, 64)) % group_order(),
            final(self)@ == old(self)@.push(TranscriptOp::Challenge(label@, 64)),
    {
        let bytes = merlin_challenge_bytes(self, label);
        Scalar::from_bytes_mod_order_wide(&bytes)
    }
}

} // verus!
