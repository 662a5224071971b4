//! Elements of the scalar field `Z / ℓZ` of the Ristretto group, held as
//! their canonical 32-byte little-endian encoding. The arithmetic itself is
//! done by `curve25519_dalek`.
use crate::arith::{group_order, le_bytes, le_nat, lemma_le_roundtrip, lemma_mod_range};
use vstd::prelude::*;

verus! {

/// A scalar modulo the group order `ℓ`, stored as its canonical
/// little-endian encoding.
#[derive(Clone, Copy, Debug, PartialEq, Eq)]
pub struct Scalar {
    pub(crate) bytes: [u8; 32],
}

impl View for Scalar {
    type V = nat;

    /// The integer in `[0, ℓ)` that the scalar stands for.
    closed spec fn view(&self) -> nat {
        le_nat(self.bytes@)
    }
}

/// Multiplication in `curve25519_dalek::scalar::Scalar` (`Mul`). Both
/// arguments are read with `Scalar::from_bytes_mod_order` and the result is
/// written with `Scalar::to_bytes`; the crate documents scalar arithmetic as
/// arithmetic modulo `ℓ` with reduced results, which is what the contract
/// states.
#[verifier::external_body]
fn dalek_mul(a: [u8; 32], b: [u8; 32]) -> (r: [u8; 32])
    ensures
        le_nat(r@) == (le_nat(a@) * le_nat(b@)) % group_order(),
{
    let x = curve25519_dalek::scalar::Scalar::from_bytes_mod_order(a);
    let y = curve25519_dalek::scalar::Scalar::from_bytes_mod_order(b);
    (x * y).to_bytes()
}

/// Addition in `curve25519_dalek::scalar::Scalar` (`Add`), with the same
/// conversions as `dalek_mul`: the sum modulo `ℓ`, reduced.
#[verifier::external_body]
fn dalek_add(a: [u8; 32], b: [u8; 32]) -> (r: [u8; 32])
    ensures
        le_nat(r@) == (le_nat(a@) + le_nat(b@)) % group_order(),
{
    let x = curve25519_dalek::scalar::Scalar::from_bytes_mod_order(a);
    let y = curve25519_dalek::scalar::Scalar::from_bytes_mod_order(b);
    (x + y).to_bytes()
}

/// `curve25519_dalek::scalar::Scalar::from_bytes_mod_order`: documented as
/// reducing a 256-bit little-endian integer modulo `ℓ`.
#[verifier::external_body]
fn dalek_from_bytes_mod_order(a: [u8; 32]) -> (r: [u8; 32])
    ensures
        le_nat(r@) == le_nat(a@) % group_order(),
{
    curve25519_dalek::scalar::Scalar::from_bytes_mod_order(a).to_bytes()
}

/// `curve25519_dalek::scalar::Scalar::from_bytes_mod_order_wide`: documented
/// as reducing a 512-bit little-endian integer modulo `ℓ`.
#[verifier::external_body]
fn dalek_from_bytes_mod_order_wide(a: &[u8; 64]) -> (r: [u8; 32])
    ensures
        le_nat(r@) == le_nat(a@) % group_order(),
{
    curve25519_dalek::scalar::Scalar::from_bytes_mod_order_wide(a).to_bytes()
}

/// `From<u64>` for `curve25519_dalek::scalar::Scalar`: the scalar whose value
/// is `x`.
#[verifier::external_body]
fn dalek_from_u64(x: u64) -> (r: [u8; 32])
    ensures
        le_nat(r@) == x,
{
    curve25519_dalek::scalar::Scalar::from(x).to_bytes()
}

/// `curve25519_dalek::scalar::Scalar::random` fed by the operating system's
/// generator (`rand::rngs::OsRng`). Nothing is stated of the value but that
/// it is a reduced scalar, which the crate documents ("a random scalar within
/// Z/ℓZ").
#[verifier::external_body]
fn dalek_random_os() -> (r: [u8; 32])
    ensures
        le_nat(r@) < group_order(),
{
    curve25519_dalek::scalar::Scalar::random(&mut rand::rngs::OsRng).to_bytes()
}

impl Scalar {
    #[verifier::type_invariant]
    spec fn reduced(self) -> bool {
        le_nat(self.bytes@) < group_order()
    }

    /// Wraps bytes already known to encode a reduced scalar.
    pub(crate) fn from_reduced(bytes: [u8; 32]) -> (r: Scalar)
        requires
            le_nat(bytes@) < group_order(),
        ensures
            r@ == le_nat(bytes@),
            r.bytes@ == bytes@,
    {
        Scalar { bytes }
    }

    /// The scalar `0`.
    pub fn zero() -> (r: Scalar)
        ensures
            r@ == 0,
    {
        Scalar::from_reduced(dalek_from_u64(0))
    }

    /// The scalar `1`.
    pub fn one() -> (r: Scalar)
        ensures
            r@ == 1,
    {
        Scalar::from_reduced(dalek_from_u64(1))
    }

    /// The scalar `x mod ℓ` (every `u64` is below `ℓ`).
    pub fn from_u64(x: u64) -> (r: Scalar)
        ensures
            r@ == x,
    {
        Scalar::from_reduced(dalek_from_u64(x))
    }

    /// The scalar whose value is the 256-bit little-endian integer `bytes`
    /// reduced modulo `ℓ`.
    pub fn from_bytes_mod_order(bytes: [u8; 32]) -> (r: Scalar)
        ensures
            r@ == le_nat(bytes@) % group_order(),
    {
        let b = dalek_from_bytes_mod_order(bytes);
        proof {
            lemma_mod_range(le_nat(bytes@) as int);
        }
        Scalar::from_reduced(b)
    }

    /// The scalar whose value is the 512-bit little-endian integer `bytes`
    /// reduced modulo `ℓ`.
    pub fn from_bytes_mod_order_wide(bytes: &[u8; 64]) -> (r: Scalar)
        ensures
            r@ == le_nat(bytes@) % group_order(),
    {
        let b = dalek_from_bytes_mod_order_wide(bytes);
        proof {
            lemma_mod_range(le_nat(bytes@) as int);
        }
        Scalar::from_reduced(b)
    }

    /// A scalar drawn by the operating system's random generator.
    pub fn random() -> (r: Scalar) {
        Scalar::from_reduced(dalek_random_os())
    }

    /// `self + other mod ℓ`.
    pub fn add(&self, other: &Scalar) -> (r: Scalar)
        ensures
            r@ == (self@ + other@) % group_order(),
    {
        let b = dalek_add(self.bytes, other.bytes);
        proof {
            lemma_mod_range((self@ + other@) as int);
        }
        Scalar::from_reduced(b)
    }

    /// `self * other mod ℓ`.
    pub fn mul(&self, other: &Scalar) -> (r: Scalar)
        ensures
            r@ == (self@ * other@) % group_order(),
    {
        let b = dalek_mul(self.bytes, other.bytes);
        proof {
            lemma_mod_range((self@ * other@) as int);
        }
        Scalar::from_reduced(b)
    }

    /// The canonical 32-byte little-endian encoding of the scalar.
    pub fn to_bytes(&self) -> (r: [u8; 32])
        ensures
            r@ == le_bytes(self@, 32),
    {
        proof {
            lemma_le_roundtrip(self.bytes@);
        }
        self.bytes
    }

    /// Whether two scalars are the same element of `Z / ℓZ`.
    pub fn equals(&self, other: &Scalar) -> (r: bool)
        ensures
            r == (self@ == other@),
    {
        let mut i: usize = 0;
        while i < 32
            invariant
                i <= 32,
                forall|j: int| 0 <= j < i ==> self.bytes@[j] == other.bytes@[j],
            decreases 32 - i,
        {
            if self.bytes[i] != other.bytes[i] {
                proof {
                    lemma_le_roundtrip(self.bytes@);
                    lemma_le_roundtrip(other.bytes@);
                    assert(self.bytes@[i as int] != other.bytes@[i as int]);
                }
                return false;
            }
            i = i + 1;
        }
        assert(self.bytes@ =~= other.bytes@);
        true
    }
}

} // verus!
