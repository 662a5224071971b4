//! Building blocks shared by the protocol: powers of two, hashing to the
//! group, multi-scalar multiplication, Horner evaluation, and the two ways
//! of deriving polynomial coefficients from a key (SHA-512 and ChaCha8).
use crate::arith::{
    group_order, is_pow2, le_bytes, le_nat, lemma_mod_horner_step, lemma_mod_range, lemma_mod_small,
    lemma_poly_sum_horner, poly_sum, poly_value,
};
use crate::point::{
    point_encodings, ristretto_hash_from_bytes, ristretto_multiscalar_mul, scalar_values, Point,
};
use crate::scalar::Scalar;
use rand::RngCore;
use rand::SeedableRng;
use sha2::Digest;
use vstd::prelude::*;
use vstd::string::StringSliceAdditionalSpecFns;
use vstd::utf8::encode_utf8;

verus! {

/// The SHA-512 digest of `input`.
pub uninterp spec fn sha512(input: Seq<u8>) -> Seq<u8>;

/// The first 64 bytes of the ChaCha8 key stream with key `seed` and stream
/// number `stream` (`rand_chacha::ChaCha8Rng`).
pub uninterp spec fn chacha8_stream(seed: Seq<u8>, stream: u64) -> Seq<u8>;

/// `sha2::Sha512::digest`, copied into an array.
#[verifier::external_body]
fn sha2_digest(input: &[u8]) -> (r: [u8; 64])
    ensures
        r@ == sha512(input@),
{
    let d = sha2::Sha512::digest(input);
    let mut out = [0u8; 64];
    out.copy_from_slice(&d);
    out
}

/// `rand_chacha::ChaCha8Rng::from_seed(seed)`, moved to stream `stream` by
/// `set_stream`, then `fill_bytes` of 64 bytes: a deterministic function of
/// the seed and the stream number.
#[verifier::external_body]
fn chacha8_keystream(seed: [u8; 32], stream: u64) -> (r: [u8; 64])
    ensures
        r@ == chacha8_stream(seed@, stream),
{
    let mut rng = rand_chacha::ChaCha8Rng::from_seed(seed);
    rng.set_stream(stream);
    let mut out = [0u8; 64];
    rng.fill_bytes(&mut out);
    out
}

/// The smallest power of two that is at least `n` (1 for `n == 0`).
pub open spec fn next_pow2_spec(n: nat) -> nat {
    next_pow2_from(n, 1)
}

/// The first of `p, 2p, 4p, ...` that is at least `n`.
pub open spec fn next_pow2_from(n: nat, p: nat) -> nat
    decreases (if n > p { n - p } else { 0 }),
    when p > 0
{
    if p >= n {
        p
    } else {
        next_pow2_from(n, 2 * p)
    }
}

/// The bytes hashed to obtain the point labelled `label`, number `i`, of
/// the domain `domain`: `domain || "/" || label || "/" || LE64(i)`.
pub open spec fn h2p_input(domain: Seq<char>, label: Seq<char>, i: u64) -> Seq<u8> {
    encode_utf8(domain) + seq![47u8] + encode_utf8(label) + seq![47u8] + le_bytes(i as nat, 8)
}

/// The point labelled `label`, number `i`, of the domain `domain`.
pub open spec fn h2p_spec(domain: Seq<char>, label: Seq<char>, i: u64) -> Seq<u8> {
    ristretto_hash_from_bytes(h2p_input(domain, label, i))
}

/// The domain-separation tag of key-derived coefficients: `"poly-coeff"`.
pub open spec fn coeff_tag() -> Seq<u8> {
    seq![112u8, 111u8, 108u8, 121u8, 45u8, 99u8, 111u8, 101u8, 102u8, 102u8]
}

/// The bytes hashed before the index when deriving coefficients from `key`.
pub open spec fn ro_prefix(key: nat) -> Seq<u8> {
    coeff_tag() + le_bytes(key, 32)
}

/// Coefficient `i` of the polynomial that `key` defines through SHA-512:
/// `SHA512("poly-coeff" || key || LE64(i))` read as an integer mod `ℓ`.
pub open spec fn ro_coeff(key: nat, i: nat) -> nat {
    le_nat(sha512(ro_prefix(key) + le_bytes(i, 8))) % group_order()
}

/// Coefficients `0..n` of the polynomial that `key` defines through SHA-512.
pub open spec fn ro_coeffs(key: nat, n: nat) -> Seq<nat> {
    Seq::new(n, |i: int| ro_coeff(key, i as nat))
}

/// Coefficient `i` of the polynomial that `key` defines through ChaCha8:
/// 64 key-stream bytes of stream `i` under `key`, read as an integer mod `ℓ`.
pub open spec fn chacha_coeff(key: nat, i: nat) -> nat {
    le_nat(chacha8_stream(le_bytes(key, 32), i as u64)) % group_order()
}

/// Coefficients `0..n` of the polynomial that `key` defines through ChaCha8.
pub open spec fn chacha_coeffs(key: nat, n: nat) -> Seq<nat> {
    Seq::new(n, |i: int| chacha_coeff(key, i as nat))
}

proof fn lemma_next_pow2_from(n: nat, p: nat)
    requires
        p > 0,
        is_pow2(p),
    ensures
        next_pow2_from(n, p) >= n,
        next_pow2_from(n, p) >= p,
        is_pow2(next_pow2_from(n, p)),
        next_pow2_from(n, p) == p || next_pow2_from(n, p) / 2 < n,
    decreases (if n > p { n - p } else { 0 }),
{
    if p < n {
        assert((2 * p) / 2 == p);
        assert((2 * p) % 2 == 0);
        lemma_next_pow2_from(n, 2 * p);
    }
}

/// What `next_pow2_spec(n)` is: the least power of two that is `>= n`.
pub proof fn lemma_next_pow2_spec(n: nat)
    ensures
        is_pow2(next_pow2_spec(n)),
        next_pow2_spec(n) >= n,
        next_pow2_spec(n) >= 1,
        next_pow2_spec(n) == 1 || next_pow2_spec(n) / 2 < n,
{
    lemma_next_pow2_from(n, 1);
}

proof fn lemma_pow2_gap(q: nat, n: nat)
    requires
        is_pow2(q),
        is_pow2(n),
        q < n,
    ensures
        2 * q <= n,
    decreases q,
{
    if q > 1 {
        lemma_pow2_gap(q / 2, n / 2);
    }
}

proof fn lemma_next_pow2_from_pow2(n: nat, q: nat)
    requires
        is_pow2(q),
        is_pow2(n),
        q <= n,
    ensures
        next_pow2_from(n, q) == n,
    decreases n - q,
{
    if q < n {
        lemma_pow2_gap(q, n);
        assert((2 * q) / 2 == q);
        assert((2 * q) % 2 == 0);
        lemma_next_pow2_from_pow2(n, 2 * q);
    }
}

proof fn lemma_next_pow2_from_below(n: nat, p: nat, q: nat)
    requires
        p > 0,
        is_pow2(p),
        is_pow2(q),
        p <= q,
        n <= q,
    ensures
        next_pow2_from(n, p) <= q,
    decreases (if n > p { n - p } else { 0 }),
{
    if p < n {
        lemma_pow2_gap(p, q);
        assert((2 * p) / 2 == p);
        assert((2 * p) % 2 == 0);
        lemma_next_pow2_from_below(n, 2 * p, q);
    }
}

/// Rounding up to a power of two is monotone.
pub proof fn lemma_next_pow2_monotone(m1: nat, m2: nat)
    requires
        m1 <= m2,
    ensures
        next_pow2_spec(m1) <= next_pow2_spec(m2),
{
    lemma_next_pow2_spec(m2);
    lemma_next_pow2_from_below(m1, 1, next_pow2_spec(m2));
}

/// A power of two is its own next power of two, so rounding up twice is
/// rounding up once.
pub proof fn lemma_next_pow2_idempotent(n: nat)
    ensures
        is_pow2(n) ==> next_pow2_spec(n) == n,
        next_pow2_spec(next_pow2_spec(n)) == next_pow2_spec(n),
{
    lemma_next_pow2_spec(n);
    if is_pow2(n) {
        lemma_next_pow2_from_pow2(n, 1);
    }
    lemma_next_pow2_from_pow2(next_pow2_spec(n), 1);
}

/// The smallest power of two that is at least `n` (1 for `n == 0`).
pub fn next_pow2(n: usize) -> (r: usize)
    requires
        n <= usize::MAX / 2 + 1 || is_pow2(n as nat),
    ensures
        r == next_pow2_spec(n as nat),
        is_pow2(r as nat),
        r >= n,
        r >= 1,
        r == 1 || r / 2 < n,
{
    let mut p: usize = 1;
    proof {
        lemma_next_pow2_spec(n as nat);
    }
    while p < n
        invariant
            p >= 1,
            is_pow2(p as nat),
            n <= usize::MAX / 2 + 1 || (is_pow2(n as nat) && p <= n),
            next_pow2_from(n as nat, p as nat) == next_pow2_from(n as nat, 1),
        decreases (if n > p { n - p } else { 0 }),
    {
        proof {
            if is_pow2(n as nat) && p <= n {
                lemma_pow2_gap(p as nat, n as nat);
            }
            assert((2 * p) / 2 == p);
            assert((2 * p) % 2 == 0);
        }
        p = p * 2;
    }
    proof {
        lemma_next_pow2_spec(n as nat);
    }
    p
}

/// Appends the 8-byte little-endian encoding of `x`.
pub(crate) fn push_u64_le(v: &mut Vec<u8>, x: u64)
    ensures
        final(v)@ == old(v)@ + le_bytes(x as nat, 8),
{
    let ghost start = v@;
    let mut rest: u64 = x;
    let mut k: usize = 0;
    while k < 8
        invariant
            k <= 8,
            v@ + le_bytes(rest as nat, (8 - k) as nat) == start + le_bytes(x as nat, 8),
        decreases 8 - k,
    {
        let ghost before = v@;
        v.push((rest % 256) as u8);
        proof {
            assert(le_bytes(rest as nat, (8 - k) as nat) == seq![(rest % 256) as u8] + le_bytes(
                (rest / 256) as nat,
                (8 - k - 1) as nat,
            ));
            assert(v@ + le_bytes((rest / 256) as nat, (8 - k - 1) as nat) =~= before + le_bytes(
                rest as nat,
                (8 - k) as nat,
            ));
        }
        rest = rest / 256;
        k = k + 1;
    }
    assert(le_bytes(rest as nat, 0) =~= Seq::<u8>::empty());
    assert(v@ =~= start + le_bytes(x as nat, 8));
}

/// Appends every byte of `s`.
pub(crate) fn push_all(v: &mut Vec<u8>, s: &[u8])
    ensures
        final(v)@ == old(v)@ + s@,
{
    let ghost start = v@;
    let mut i: usize = 0;
    while i < s.len()
        invariant
            i <= s@.len(),
            v@ == start + s@.subrange(0, i as int),
        decreases s@.len() - i,
    {
        v.push(s[i]);
        i = i + 1;
        assert(v@ =~= start + s@.subrange(0, i as int));
    }
    assert(s@.subrange(0, s@.len() as int) =~= s@);
}

/// The point labelled `label`, number `i`, of the domain `domain`: SHA-512
/// hash-to-group of `domain || "/" || label || "/" || LE64(i)`.
pub fn h2p(domain: &str, label: &str, i: u64) -> (r: Point)
    ensures
        r@ == h2p_spec(domain@, label@, i),
{
    let mut input: Vec<u8> = Vec::new();
    push_all(&mut input, domain.as_bytes());
    input.push(47u8);
    push_all(&mut input, label.as_bytes());
    input.push(47u8);
    push_u64_le(&mut input, i);
    assert(input@ =~= h2p_input(domain@, label@, i));
    Point::hash_from_bytes(input.as_slice())
}

/// `sum_i scalars[i] · points[i]`.
pub fn msm(scalars: &[Scalar], points: &[Point]) -> (r: Point)
    requires
        scalars@.len() == points@.len(),
    ensures
        r@ == ristretto_multiscalar_mul(scalar_values(scalars@), point_encodings(points@)),
{
    Point::multiscalar_mul(scalars, points)
}

/// A scalar drawn by the operating system's random generator.
pub fn rand_scalar() -> (r: Scalar) {
    Scalar::random()
}

/// Horner evaluation at `z` of the polynomial whose coefficients are
/// `coeffs[start..end]` (lowest degree first).
pub fn horner_range(coeffs: &[Scalar], start: usize, end: usize, z: &Scalar) -> (r: Scalar)
    requires
        start <= end <= coeffs@.len(),
    ensures
        r@ == poly_value(scalar_values(coeffs@).subrange(start as int, end as int), z@),
{
    let ghost c = scalar_values(coeffs@);
    let mut acc = Scalar::zero();
    let mut i = end;
    proof {
        assert(c.subrange(end as int, end as int) =~= Seq::<nat>::empty());
        lemma_mod_small(0);
        assert(poly_sum(c.subrange(end as int, end as int), z@) == 0);
    }
    while i > start
        invariant
            start <= i <= end,
            end <= coeffs@.len(),
            c == scalar_values(coeffs@),
            acc@ == poly_value(c.subrange(i as int, end as int), z@),
        decreases i - start,
    {
        i = i - 1;
        let prev = acc;
        acc = prev.mul(z).add(&coeffs[i]);
        proof {
            let s = c.subrange(i as int, end as int);
            let t = c.subrange(i + 1, end as int);
            assert(s.subrange(1, s.len() as int) =~= t);
            lemma_poly_sum_horner(s, z@);
            let pt = poly_sum(t, z@);
            lemma_mod_range(pt);
            lemma_mod_horner_step(pt, z@ as int, c[i as int] as int);
            assert(pt * z@ + c[i as int] == c[i as int] + z@ * pt) by (nonlinear_arith);
        }
    }
    acc
}

/// Horner evaluation at `z` of the polynomial with coefficients `coeffs`
/// (lowest degree first).
pub fn horner_eval(coeffs: &[Scalar], z: &Scalar) -> (r: Scalar)
    ensures
        r@ == poly_value(scalar_values(coeffs@), z@),
{
    assert(scalar_values(coeffs@).subrange(0, coeffs@.len() as int) =~= scalar_values(coeffs@));
    horner_range(coeffs, 0, coeffs.len(), z)
}

/// `"poly-coeff" || key`, the bytes hashed before the index.
pub fn coeff_prefix(key: &Scalar) -> (r: Vec<u8>)
    ensures
        r@ == ro_prefix(key@),
{
    let tag: [u8; 10] = [112u8, 111u8, 108u8, 121u8, 45u8, 99u8, 111u8, 101u8, 102u8, 102u8];
    let mut v: Vec<u8> = Vec::new();
    push_all(&mut v, &tag);
    let kb = key.to_bytes();
    push_all(&mut v, &kb);
    assert(v@ =~= ro_prefix(key@));
    v
}

/// Coefficient `i` from the bytes `prefix` already formed for a key.
pub fn coeff_from_prefix(prefix: &Vec<u8>, i: usize) -> (r: Scalar)
    ensures
        r@ == le_nat(sha512(prefix@ + le_bytes(i as nat, 8))) % group_order(),
{
    let mut input: Vec<u8> = Vec::new();
    push_all(&mut input, prefix.as_slice());
    push_u64_le(&mut input, i as u64);
    let d = sha2_digest(input.as_slice());
    Scalar::from_bytes_mod_order_wide(&d)
}

/// Coefficient `i` of the polynomial that `key` defines through SHA-512.
pub fn coeff_at(key: &Scalar, i: usize) -> (r: Scalar)
    ensures
        r@ == ro_coeff(key@, i as nat),
{
    let prefix = coeff_prefix(key);
    coeff_from_prefix(&prefix, i)
}

/// Coefficient `i` of the polynomial that `key` defines through ChaCha8.
pub fn coeff_at_chacha8(key: &Scalar, i: usize) -> (r: Scalar)
    ensures
        r@ == chacha_coeff(key@, i as nat),
{
    let kb = key.to_bytes();
    let block = chacha8_keystream(kb, i as u64);
    Scalar::from_bytes_mod_order_wide(&block)
}

} // verus!
