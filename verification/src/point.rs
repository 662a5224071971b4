//! Elements of the Ristretto group, held as their canonical 32-byte
//! compressed encoding. The group operations are computed by
//! `curve25519_dalek`: sums and scalar multiples are named by the functions
//! below, a multiscalar product is the sum of its terms, and the laws of the
//! group (a group of prime order `ℓ`) are stated in `ristretto_group`.
use crate::arith::group_order;
use crate::scalar::Scalar;
use curve25519_dalek::traits::{Identity, MultiscalarMul};
use vstd::prelude::*;

verus! {

/// Whether `bytes` is the canonical encoding of a Ristretto point, i.e.
/// whether `CompressedRistretto::decompress` returns `Some`.
pub uninterp spec fn ristretto_decodes(bytes: Seq<u8>) -> bool;

/// The encoding of the sum of the points encoded by `p` and `q`
/// (`RistrettoPoint` addition followed by `compress`).
pub uninterp spec fn ristretto_add(p: Seq<u8>, q: Seq<u8>) -> Seq<u8>;

/// The encoding of `s · P` where `p` encodes `P` (`RistrettoPoint * Scalar`),
/// for any natural `s`: the group has order `ℓ`, so only `s mod ℓ` matters.
pub uninterp spec fn ristretto_scalar_mul(p: Seq<u8>, s: nat) -> Seq<u8>;

/// The encoding of the identity: 32 zero bytes.
pub open spec fn identity_encoding() -> Seq<u8> {
    Seq::new(32, |i: int| 0u8)
}

/// The encoding of `sum_i s[i] · P[i]` over the first `s.len()` points of
/// `p` (`RistrettoPoint::multiscalar_mul`): the terms added one after the
/// other to the identity, where a term whose scalar is a multiple of `ℓ` is
/// the identity and changes nothing.
pub open spec fn ristretto_multiscalar_mul(s: Seq<nat>, p: Seq<Seq<u8>>) -> Seq<u8>
    decreases s.len(),
{
    if s.len() == 0 {
        identity_encoding()
    } else {
        let k = s.len() - 1;
        let prev = ristretto_multiscalar_mul(s.drop_last(), p);
        if s[k] % group_order() == 0 {
            prev
        } else {
            ristretto_add(prev, ristretto_scalar_mul(p[k], s[k]))
        }
    }
}

/// The laws of the Ristretto group, with `e` as its identity, over the
/// canonical encodings: closure, `x + e = x`, commutativity and
/// associativity of the sum, scalars acting modulo the group order `ℓ`,
/// `0 · x = e`, and the distributive and compatibility laws of scalar
/// multiplication.
#[verifier::opaque]
pub open spec fn ristretto_group(e: Seq<u8>) -> bool {
    &&& ristretto_decodes(e)
    &&& forall|x: Seq<u8>, y: Seq<u8>|
        ristretto_decodes(x) && ristretto_decodes(y) ==> ristretto_decodes(
            #[trigger] ristretto_add(x, y),
        )
    &&& forall|x: Seq<u8>, a: nat|
        ristretto_decodes(x) ==> ristretto_decodes(#[trigger] ristretto_scalar_mul(x, a))
    &&& forall|x: Seq<u8>| ristretto_decodes(x) ==> #[trigger] ristretto_add(x, e) == x
    &&& forall|x: Seq<u8>, y: Seq<u8>|
        ristretto_decodes(x) && ristretto_decodes(y) ==> #[trigger] ristretto_add(x, y)
            == ristretto_add(y, x)
    &&& forall|x: Seq<u8>, y: Seq<u8>, z: Seq<u8>|
        ristretto_decodes(x) && ristretto_decodes(y) && ristretto_decodes(z) ==> #[trigger]
        ristretto_add(ristretto_add(x, y), z) == ristretto_add(x, ristretto_add(y, z))
    &&& forall|x: Seq<u8>, a: nat|
        ristretto_decodes(x) ==> #[trigger] ristretto_scalar_mul(x, a) == ristretto_scalar_mul(
            x,
            a % group_order(),
        )
    &&& forall|x: Seq<u8>| ristretto_decodes(x) ==> #[trigger] ristretto_scalar_mul(x, 0) == e
    &&& forall|x: Seq<u8>, a: nat, b: nat|
        ristretto_decodes(x) ==> #[trigger] ristretto_scalar_mul(x, a + b) == ristretto_add(
            ristretto_scalar_mul(x, a),
            ristretto_scalar_mul(x, b),
        )
    &&& forall|x: Seq<u8>, y: Seq<u8>, a: nat|
        ristretto_decodes(x) && ristretto_decodes(y) ==> #[trigger] ristretto_scalar_mul(
            ristretto_add(x, y),
            a,
        ) == ristretto_add(ristretto_scalar_mul(x, a), ristretto_scalar_mul(y, a))
    &&& forall|x: Seq<u8>, a: nat, b: nat|
        ristretto_decodes(x) ==> #[trigger] ristretto_scalar_mul(ristretto_scalar_mul(x, a), b)
            == ristretto_scalar_mul(x, a * b)
}

/// The encoding of the point that `RistrettoPoint::hash_from_bytes::<Sha512>`
/// derives from `input`.
pub uninterp spec fn ristretto_hash_from_bytes(input: Seq<u8>) -> Seq<u8>;

/// A point of the Ristretto group, stored as its canonical compressed
/// encoding. Equal points have equal encodings.
#[derive(Clone, Copy, Debug, PartialEq, Eq)]
pub struct Point {
    pub(crate) bytes: [u8; 32],
}

impl View for Point {
    type V = Seq<u8>;

    /// The canonical encoding of the point.
    closed spec fn view(&self) -> Seq<u8> {
        self.bytes@
    }
}

/// The values of a sequence of scalars.
pub open spec fn scalar_values(s: Seq<Scalar>) -> Seq<nat> {
    s.map_values(|x: Scalar| x@)
}

/// The encodings of a sequence of points.
pub open spec fn point_encodings(p: Seq<Point>) -> Seq<Seq<u8>> {
    p.map_values(|x: Point| x@)
}

/// `CompressedRistretto::decompress(..).is_some()`.
#[verifier::external_body]
fn dalek_decodes(bytes: [u8; 32]) -> (r: bool)
    ensures
        r == ristretto_decodes(bytes@),
{
    curve25519_dalek::ristretto::CompressedRistretto(bytes).decompress().is_some()
}

/// `RistrettoPoint` addition. Decompressing a `Point` cannot fail (every
/// `Point` holds a canonical encoding); the sum is compressed again, and a
/// compressed point is a canonical encoding, which `decompress` accepts.
#[verifier::external_body]
fn dalek_add(a: &Point, b: &Point) -> (r: [u8; 32])
    ensures
        r@ == ristretto_add(a@, b@),
        ristretto_decodes(r@),
{
    let x = curve25519_dalek::ristretto::CompressedRistretto(a.bytes).decompress().unwrap();
    let y = curve25519_dalek::ristretto::CompressedRistretto(b.bytes).decompress().unwrap();
    (x + y).compress().to_bytes()
}

/// `RistrettoPoint * Scalar`, with the same conversions as `dalek_add`; the
/// scalar is read with `Scalar::from_bytes_mod_order`.
#[verifier::external_body]
fn dalek_scalar_mul(p: &Point, s: &Scalar) -> (r: [u8; 32])
    ensures
        r@ == ristretto_scalar_mul(p@, s@),
        ristretto_decodes(r@),
{
    let x = curve25519_dalek::ristretto::CompressedRistretto(p.bytes).decompress().unwrap();
    let k = curve25519_dalek::scalar::Scalar::from_bytes_mod_order(s.bytes);
    (x * k).compress().to_bytes()
}

/// `RistrettoPoint::multiscalar_mul`, which asserts that both inputs have
/// the same length; hence the `requires`. It computes `sum_i s_i · P_i`
/// (`curve25519_dalek::traits::MultiscalarMul`), with each scalar read
/// modulo `ℓ`; `ristretto_multiscalar_mul` writes that sum out.
#[verifier::external_body]
fn dalek_multiscalar_mul(s: &[Scalar], p: &[Point]) -> (r: [u8; 32])
    requires
        s@.len() == p@.len(),
    ensures
        r@ == ristretto_multiscalar_mul(scalar_values(s@), point_encodings(p@)),
        ristretto_decodes(r@),
{
    let ks = s.iter().map(|x| curve25519_dalek::scalar::Scalar::from_bytes_mod_order(x.bytes));
    let ps = p.iter().map(
        |x| curve25519_dalek::ristretto::CompressedRistretto(x.bytes).decompress().unwrap(),
    );
    curve25519_dalek::ristretto::RistrettoPoint::multiscalar_mul(ks, ps).compress().to_bytes()
}

/// `RistrettoPoint::hash_from_bytes::<sha2::Sha512>`, compressed.
#[verifier::external_body]
fn dalek_hash_from_bytes(input: &[u8]) -> (r: [u8; 32])
    ensures
        r@ == ristretto_hash_from_bytes(input@),
        ristretto_decodes(r@),
{
    curve25519_dalek::ristretto::RistrettoPoint::hash_from_bytes::<sha2::Sha512>(
        input,
    ).compress().to_bytes()
}

/// `RistrettoPoint::identity()`, compressed: 32 zero bytes. The Ristretto
/// group is a group of prime order `ℓ` (as `curve25519_dalek` documents it)
/// whose sum and scalar multiples are those named by `ristretto_add` and
/// `ristretto_scalar_mul` on canonical encodings; the identity is its
/// neutral element, so the group laws hold with it.
#[verifier::external_body]
fn dalek_identity() -> (r: [u8; 32])
    ensures
        r@ == identity_encoding(),
        ristretto_decodes(r@),
        ristretto_group(r@),
{
    curve25519_dalek::ristretto::RistrettoPoint::identity().compress().to_bytes()
}

/// Every point of `v` holds a canonical encoding (the invariant of `Point`,
/// gathered over a slice).
pub(crate) fn points_canonical(v: &[Point])
    ensures
        forall|i: int| 0 <= i < v@.len() ==> ristretto_decodes(#[trigger] v@[i]@),
{
    let mut i: usize = 0;
    while i < v.len()
        invariant
            i <= v@.len(),
            forall|j: int| 0 <= j < i ==> ristretto_decodes(#[trigger] v@[j]@),
        decreases v@.len() - i,
    {
        let p = &v[i];
        proof {
            use_type_invariant(p);
        }
        i = i + 1;
    }
}

impl Point {
    /// A point holds a canonical encoding.
    #[verifier::type_invariant]
    pub(crate) open spec fn canonical(self) -> bool {
        ristretto_decodes(self@)
    }

    fn from_valid(bytes: [u8; 32]) -> (r: Point)
        requires
            ristretto_decodes(bytes@),
        ensures
            r@ == bytes@,
    {
        Point { bytes }
    }

    /// The point encoded by `bytes`, if `bytes` is a canonical encoding.
    pub fn from_bytes(bytes: [u8; 32]) -> (r: Option<Point>)
        ensures
            r is Some <==> ristretto_decodes(bytes@),
            r matches Some(p) ==> p@ == bytes@,
    {
        if dalek_decodes(bytes) {
            Some(Point::from_valid(bytes))
        } else {
            None
        }
    }

    /// The canonical encoding of the point.
    pub fn to_bytes(&self) -> (r: [u8; 32])
        ensures
            r@ == self@,
    {
        self.bytes
    }

    /// The sum of two points.
    pub fn add(&self, other: &Point) -> (r: Point)
        ensures
            r@ == ristretto_add(self@, other@),
    {
        Point::from_valid(dalek_add(self, other))
    }

    /// The point multiplied by a scalar.
    pub fn mul(&self, s: &Scalar) -> (r: Point)
        ensures
            r@ == ristretto_scalar_mul(self@, s@),
    {
        Point::from_valid(dalek_scalar_mul(self, s))
    }

    /// `sum_i scalars[i] · points[i]`.
    pub fn multiscalar_mul(scalars: &[Scalar], points: &[Point]) -> (r: Point)
        requires
            scalars@.len() == points@.len(),
        ensures
            r@ == ristretto_multiscalar_mul(scalar_values(scalars@), point_encodings(points@)),
    {
        Point::from_valid(dalek_multiscalar_mul(scalars, points))
    }

    /// The identity of the group, with which the group laws hold.
    pub fn identity() -> (r: Point)
        ensures
            r@ == identity_encoding(),
            ristretto_group(r@),
    {
        Point::from_valid(dalek_identity())
    }

    /// The point that SHA-512 hash-to-group derives from `input`.
    pub fn hash_from_bytes(input: &[u8]) -> (r: Point)
        ensures
            r@ == ristretto_hash_from_bytes(input@),
    {
        Point::from_valid(dalek_hash_from_bytes(input))
    }

    /// Whether two points are equal (compared by their canonical encodings).
    pub fn equals(&self, other: &Point) -> (r: bool)
        ensures
            r == (self@ == other@),
    {
        let mut i: usize = 0;
        while i < 32
            invariant
                i <= 32,
                forall|j: int| 0 <= j < i ==> self.bytes@[j] == other.bytes@[j],
            decreases 32 - i,
        {
            if self.bytes[i] != other.bytes[i] {
                return false;
            }
            i = i + 1;
        }
        assert(self.bytes@ =~= other.bytes@);
        true
    }
}

} // verus!
