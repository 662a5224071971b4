//! Mathematical model shared by the whole crate: the order of the Ristretto
//! group, little-endian byte encodings, and univariate polynomials over
//! the integers reduced modulo the group order.
use vstd::arithmetic::div_mod::*;
use vstd::arithmetic::power::*;
use vstd::prelude::*;

verus! {

/// The prime order `ℓ = 2^252 + 27742317777372353535851937790883648493`
/// of the Ristretto group, i.e. the modulus of scalar arithmetic.
pub open spec fn group_order() -> nat {
    7237005577332262213973186563042994240857116359379907606001950938285454250989nat
}

/// The integer whose little-endian base-256 digits are `b`.
pub open spec fn le_nat(b: Seq<u8>) -> nat
    decreases b.len(),
{
    if b.len() == 0 {
        0
    } else {
        b[0] as nat + 256 * le_nat(b.subrange(1, b.len() as int))
    }
}

/// The `k` least significant little-endian base-256 digits of `n`.
pub open spec fn le_bytes(n: nat, k: nat) -> Seq<u8>
    decreases k,
{
    if k == 0 {
        Seq::empty()
    } else {
        seq![(n % 256) as u8] + le_bytes(n / 256, (k - 1) as nat)
    }
}

/// `n` is a power of two (1, 2, 4, ...).
pub open spec fn is_pow2(n: nat) -> bool
    decreases n,
{
    if n == 1 {
        true
    } else if n == 0 || n % 2 != 0 {
        false
    } else {
        is_pow2(n / 2)
    }
}

/// The base-2 logarithm of a power of two.
pub open spec fn log2(n: nat) -> nat
    decreases n,
{
    if n <= 1 {
        0
    } else {
        1 + log2(n / 2)
    }
}

/// The value at `z` of the polynomial with coefficients `c`, over the
/// integers: `c[0] + c[1] z + ... + c[k-1] z^(k-1)`.
pub open spec fn poly_sum(c: Seq<nat>, z: nat) -> int
    decreases c.len(),
{
    if c.len() == 0 {
        0
    } else {
        poly_sum(c.drop_last(), z) + c.last() * pow(z as int, (c.len() - 1) as nat)
    }
}

/// The value at `z` of the polynomial with coefficients `c`, as an element
/// of the scalar field `Z / ℓZ`.
pub open spec fn poly_value(c: Seq<nat>, z: nat) -> nat {
    (poly_sum(c, z) % (group_order() as int)) as nat
}

/// `c` followed by `k` zero coefficients.
pub open spec fn pad_zeros(c: Seq<nat>, k: nat) -> Seq<nat> {
    c + Seq::new(k, |i: int| 0nat)
}

/// `[z^0, z^1, ..., z^(n-1)]` reduced modulo the group order, followed by zeros
/// up to length `m`.
pub open spec fn padded_powers(z: nat, n: nat, m: nat) -> Seq<nat> {
    Seq::new(
        m,
        |i: int|
            if i < n {
                (pow(z as int, i as nat) % (group_order() as int)) as nat
            } else {
                0nat
            },
    )
}

/// `sum_{i<k} a[i] * b[i]` over the integers.
pub open spec fn dot(a: Seq<nat>, b: Seq<nat>, k: nat) -> int
    decreases k,
{
    if k == 0 {
        0
    } else {
        dot(a, b, (k - 1) as nat) + a[k - 1] * b[k - 1]
    }
}

/// Splitting off the lowest digit of a little-endian number.
pub proof fn lemma_le_nat_digit(b: Seq<u8>)
    requires
        b.len() > 0,
    ensures
        le_nat(b) % 256 == b[0] as nat,
        le_nat(b) / 256 == le_nat(b.subrange(1, b.len() as int)),
{
    let q = le_nat(b.subrange(1, b.len() as int)) as int;
    lemma_fundamental_div_mod_converse(le_nat(b) as int, 256, q, b[0] as int);
}

/// Decoding `k` digits and encoding them again gives the same digits.
pub proof fn lemma_le_roundtrip(b: Seq<u8>)
    ensures
        le_bytes(le_nat(b), b.len()) == b,
    decreases b.len(),
{
    if b.len() > 0 {
        let rest = b.subrange(1, b.len() as int);
        lemma_le_nat_digit(b);
        lemma_le_roundtrip(rest);
        assert(le_bytes(le_nat(b), b.len()) =~= b);
    }
}

/// Horner's rule: `p(z) = c[0] + z * (c[1] + c[2] z + ...)`.
pub proof fn lemma_poly_sum_horner(c: Seq<nat>, z: nat)
    requires
        c.len() > 0,
    ensures
        poly_sum(c, z) == c[0] + z * poly_sum(c.subrange(1, c.len() as int), z),
    decreases c.len(),
{
    reveal(pow);
    let n = c.len();
    let tail = c.subrange(1, n as int);
    if n == 1 {
        assert(c.drop_last().len() == 0);
        assert(poly_sum(c.drop_last(), z) == 0);
        assert(tail.len() == 0);
        assert(poly_sum(tail, z) == 0);
        assert(pow(z as int, 0) == 1);
        assert(c.last() == c[0]);
        assert(poly_sum(c, z) == c[0] * 1);
    } else {
        let init = c.drop_last();
        lemma_poly_sum_horner(init, z);
        let init_tail = init.subrange(1, init.len() as int);
        assert(init_tail =~= tail.drop_last());
        assert(tail.last() == c.last());
        let a = poly_sum(init_tail, z);
        let l = c.last() as int;
        let p = pow(z as int, (n - 2) as nat);
        assert(pow(z as int, (n - 1) as nat) == z * p);
        assert(poly_sum(tail, z) == a + l * p);
        assert(init[0] == c[0]);
        assert(poly_sum(init, z) == c[0] + z * a);
        assert(poly_sum(c, z) == poly_sum(init, z) + l * (z * p));
        assert(z * (a + l * p) == z * a + l * (z * p)) by (nonlinear_arith);
    }
}

/// A polynomial with coefficients `a + b` is `p_a(z) + z^|a| * p_b(z)`.
pub proof fn lemma_poly_sum_split(a: Seq<nat>, b: Seq<nat>, z: nat)
    ensures
        poly_sum(a + b, z) == poly_sum(a, z) + pow(z as int, a.len()) * poly_sum(b, z),
    decreases a.len(),
{
    reveal(pow);
    if a.len() == 0 {
        assert(a + b =~= b);
        assert(pow(z as int, 0) == 1);
    } else {
        let ab = a + b;
        let a_tail = a.subrange(1, a.len() as int);
        lemma_poly_sum_horner(ab, z);
        lemma_poly_sum_horner(a, z);
        assert(ab.subrange(1, ab.len() as int) =~= a_tail + b);
        lemma_poly_sum_split(a_tail, b, z);
        let pa = poly_sum(a_tail, z);
        let pb = poly_sum(b, z);
        let w = pow(z as int, a_tail.len());
        assert(pow(z as int, a.len()) == z * w);
        assert(z * (pa + w * pb) == z * pa + (z * w) * pb) by (nonlinear_arith);
    }
}

/// Reducing modulo the group order inside `a * b + c`.
pub proof fn lemma_mod_mul_add(a: int, b: int, c: int)
    ensures
        ((a % (group_order() as int)) * (b % (group_order() as int)) % (group_order() as int)
            + c % (group_order() as int)) % (group_order() as int) == (a * b + c) % (
        group_order() as int),
{
    let m = group_order() as int;
    lemma_mul_mod_noop_general(a, b, m);
    lemma_add_mod_noop(a * b, c, m);
    lemma_mod_twice(a * b, m);
}

/// Reducing modulo the group order inside one Horner step `a * z + c`.
pub proof fn lemma_mod_horner_step(a: int, z: int, c: int)
    ensures
        (((a % (group_order() as int)) * z) % (group_order() as int) + c) % (group_order() as int)
            == (a * z + c) % (group_order() as int),
{
    let m = group_order() as int;
    lemma_mul_mod_noop_left(a, z, m);
    lemma_add_mod_noop_right(c, a * z, m);
    assert(((a * z) % m + c) == c + (a * z) % m);
    assert(a * z + c == c + a * z);
}

/// The dot product of `c` with `[z^0, z^1, ...]` (powers reduced modulo
/// `ℓ`) is the value of the polynomial `c` at `z`, modulo `ℓ`.
pub proof fn lemma_dot_powers(c: Seq<nat>, a: Seq<nat>, z: nat, k: nat)
    requires
        k <= c.len(),
        k <= a.len(),
        forall|i: int| 0 <= i < k ==> a[i] == pow(z as int, i as nat) % (group_order() as int),
    ensures
        dot(c, a, k) % (group_order() as int) == poly_sum(c.subrange(0, k as int), z) % (
        group_order() as int),
    decreases k,
{
    let m = group_order() as int;
    if k == 0 {
        assert(c.subrange(0, 0) =~= Seq::<nat>::empty());
    } else {
        let j = (k - 1) as nat;
        lemma_dot_powers(c, a, z, j);
        let s = c.subrange(0, k as int);
        assert(s.drop_last() =~= c.subrange(0, j as int));
        let d = dot(c, a, j);
        let p = pow(z as int, j);
        let ps = poly_sum(c.subrange(0, j as int), z);
        assert(poly_sum(s, z) == ps + c[j as int] * p);
        assert(dot(c, a, k) == d + c[j as int] * a[j as int]);
        lemma_mul_mod_noop_right(c[j as int] as int, p, m);
        lemma_add_mod_noop(d, (c[j as int] * a[j as int]) as int, m);
        lemma_add_mod_noop(ps, c[j as int] * p, m);
    }
}

/// Dot products only depend on the entries they read, and zero entries
/// past `n` add nothing.
pub proof fn lemma_dot_prefix(x: Seq<nat>, y: Seq<nat>, a: Seq<nat>, n: nat, k: nat)
    requires
        n <= k,
        k <= x.len(),
        k <= a.len(),
        n <= y.len(),
        forall|i: int| 0 <= i < n ==> x[i] == y[i],
        forall|i: int| n <= i < k ==> x[i] == 0,
    ensures
        dot(x, a, k) == dot(y, a, n),
    decreases k,
{
    if k > n {
        lemma_dot_prefix(x, y, a, n, (k - 1) as nat);
        assert(x[k - 1] == 0);
        assert(x[k - 1] * a[k - 1] == 0);
    } else if n > 0 {
        lemma_dot_prefix(x, y, a, (n - 1) as nat, (k - 1) as nat);
    }
}

/// A value below the group order is its own residue.
pub proof fn lemma_mod_small(a: int)
    requires
        0 <= a < group_order(),
    ensures
        a % (group_order() as int) == a,
{
    lemma_small_mod(a as nat, group_order());
}

/// Residues modulo the group order are non-negative and below it.
pub proof fn lemma_mod_range(a: int)
    ensures
        0 <= a % (group_order() as int) < group_order(),
{
    lemma_mod_bound(a, group_order() as int);
}

/// `256^k`, the number of values that `k` bytes hold.
pub open spec fn pow256(k: nat) -> nat
    decreases k,
{
    if k == 0 {
        1
    } else {
        256 * pow256((k - 1) as nat)
    }
}

/// `le_bytes(n, k)` has `k` digits.
pub proof fn lemma_le_bytes_len(n: nat, k: nat)
    ensures
        le_bytes(n, k).len() == k,
    decreases k,
{
    if k > 0 {
        lemma_le_bytes_len(n / 256, (k - 1) as nat);
    }
}

/// A number below `256^k` is read back from its `k` little-endian digits.
pub proof fn lemma_le_bytes_decode(n: nat, k: nat)
    requires
        n < pow256(k),
    ensures
        le_nat(le_bytes(n, k)) == n,
    decreases k,
{
    if k > 0 {
        let b = le_bytes(n, k);
        let rest = le_bytes(n / 256, (k - 1) as nat);
        lemma_le_bytes_len(n, k);
        lemma_le_bytes_len(n / 256, (k - 1) as nat);
        lemma_fundamental_div_mod(n as int, 256);
        assert(n / 256 < pow256((k - 1) as nat));
        lemma_le_bytes_decode(n / 256, (k - 1) as nat);
        assert(b.subrange(1, b.len() as int) =~= rest);
        assert(b[0] as nat == n % 256);
    }
}

/// Scalars below the group order fit in 32 bytes.
pub proof fn lemma_group_order_fits_32_bytes()
    ensures
        group_order() < pow256(32),
{
    reveal_with_fuel(pow256, 33);
}

/// Distinct numbers below `256^k` have distinct `k`-digit encodings.
pub proof fn lemma_le_bytes_injective(a: nat, b: nat, k: nat)
    requires
        a < pow256(k),
        b < pow256(k),
        a != b,
    ensures
        le_bytes(a, k) != le_bytes(b, k),
{
    lemma_le_bytes_decode(a, k);
    lemma_le_bytes_decode(b, k);
}

} // verus!
