# two_round_fully_adaptive (verified core)

Cryptographic core of a two-round threshold Schnorr prototype, written in
Verus. Polynomial evaluation (sequential Horner and blocked parallel
evaluation), Pedersen commitments to coefficient vectors, evaluation proofs
built on `bulletproofs::LinearProof`, parameter setup, key generation and the
relation proof that links a first-round message to a signer's key.

Layout:

- `src/arith.rs` – group order, little-endian encodings, polynomials over the
  integers and the lemmas about them (Horner's rule, splitting).
- `src/scalar.rs`, `src/point.rs` – scalars and Ristretto points as canonical
  byte encodings; arithmetic is done by `curve25519-dalek`. A multiscalar
  product is written out as the sum of its terms, and the group laws are
  stated with the identity.
- `src/group.rs` – laws of multiscalar products: zero padding, prefixes of
  the bases, linearity in the scalars.
- `src/transcript.rs` – `merlin` transcripts with the record of their
  operations.
- `src/parallel.rs` – ordered parallel map (`rayon`).
- `src/helpers.rs` – powers of two, hashing to the group, Horner evaluation,
  key-derived coefficients (SHA-512, ChaCha8).
- `src/ipa.rs` – linear proofs.
- `src/polynomial.rs` – parameters, polynomials, evaluation proofs.
- `src/sig_setup.rs`, `src/sig_keygen.rs` – scheme parameters and keys.
- `src/rel_eval.rs` – the relation proof.
- `src/rand_eval.rs` – the RelEval protocol (prover and verifier).
- `app/main.rs` – a round-trip demo.

Sums and multiples of points, hashes, the ChaCha8 stream, transcript
challenges and linear proofs are named, not modelled: contracts state results
in terms of these names, of the group laws, and of the completeness of linear
proofs whose rounds are not degenerate. From these, the prover functions
state that honest relation proofs are accepted and that honest evaluation
proofs are accepted unless a round is degenerate.
