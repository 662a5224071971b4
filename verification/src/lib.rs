//! Verified core of a two-round threshold Schnorr prototype: polynomial
//! evaluation and commitment, evaluation proofs, parameter setup and the
//! relation proof that links a first-round message to a signer's key.
#![allow(non_snake_case)]

pub mod arith;
pub mod scalar;
pub mod point;
pub mod group;
pub mod helpers;
pub mod parallel;
pub mod transcript;
pub mod ipa;
pub mod polynomial;
pub mod sig_setup;
pub mod rel_eval;
pub mod sig_keygen;
pub mod rand_eval;
