//! Laws of multiscalar products: what follows from writing them as sums of
//! their terms, and, under the group laws, their linearity in the scalars.
use crate::arith::{group_order, pad_zeros};
use crate::point::{
    identity_encoding, ristretto_add, ristretto_decodes, ristretto_group,
    ristretto_multiscalar_mul, ristretto_scalar_mul,
};
use vstd::prelude::*;

verus! {

/// The scalars `(s[i] + (c · t[i]) mod ℓ) mod ℓ`: the responses of a
/// sigma proof with nonces `s`, witnesses `t` and challenge `c`.
pub open spec fn scalars_combined(s: Seq<nat>, t: Seq<nat>, c: nat) -> Seq<nat> {
    Seq::new(s.len(), |i: int| (s[i] + (c * t[i]) % group_order()) % group_order())
}

/// Every point of `p` that the first `n` scalars meet is a canonical
/// encoding.
pub open spec fn all_decode(p: Seq<Seq<u8>>, n: nat) -> bool {
    n <= p.len() && forall|i: int| 0 <= i < n ==> ristretto_decodes(#[trigger] p[i])
}

/// Zeros appended to the scalars leave the product unchanged.
pub proof fn lemma_msm_pad_zeros(s: Seq<nat>, k: nat, p: Seq<Seq<u8>>)
    ensures
        ristretto_multiscalar_mul(pad_zeros(s, k), p) == ristretto_multiscalar_mul(s, p),
    decreases k,
{
    if k > 0 {
        let q = pad_zeros(s, k);
        assert(q.drop_last() =~= pad_zeros(s, (k - 1) as nat));
        assert(q[q.len() - 1] == 0);
        lemma_msm_pad_zeros(s, (k - 1) as nat, p);
    } else {
        assert(pad_zeros(s, 0) =~= s);
    }
}

/// The product of `s` depends only on the first `s.len()` points.
pub proof fn lemma_msm_prefix(s: Seq<nat>, p: Seq<Seq<u8>>, q: Seq<Seq<u8>>)
    requires
        s.len() <= p.len(),
        s.len() <= q.len(),
        p.subrange(0, s.len() as int) == q.subrange(0, s.len() as int),
    ensures
        ristretto_multiscalar_mul(s, p) == ristretto_multiscalar_mul(s, q),
    decreases s.len(),
{
    if s.len() > 0 {
        let k = s.len() - 1;
        assert(p[k] == p.subrange(0, s.len() as int)[k]);
        assert(q[k] == q.subrange(0, s.len() as int)[k]);
        assert(p.subrange(0, k) =~= p.subrange(0, s.len() as int).subrange(0, k));
        assert(q.subrange(0, k) =~= q.subrange(0, s.len() as int).subrange(0, k));
        lemma_msm_prefix(s.drop_last(), p, q);
    }
}

/// A multiscalar product of canonical points is a canonical point.
pub proof fn lemma_msm_decodes(e: Seq<u8>, s: Seq<nat>, p: Seq<Seq<u8>>)
    requires
        ristretto_group(e),
        e == identity_encoding(),
        all_decode(p, s.len()),
    ensures
        ristretto_decodes(ristretto_multiscalar_mul(s, p)),
    decreases s.len(),
{
    reveal(ristretto_group);
    if s.len() > 0 {
        let k = s.len() - 1;
        lemma_msm_decodes(e, s.drop_last(), p);
        assert(ristretto_decodes(p[k as int]));
        assert(ristretto_decodes(ristretto_scalar_mul(p[k as int], s[k as int])));
    }
}

/// Under the group laws, the product is the product of all but the last
/// scalar plus the last term, whatever its scalar.
pub proof fn lemma_msm_step(e: Seq<u8>, s: Seq<nat>, p: Seq<Seq<u8>>)
    requires
        ristretto_group(e),
        e == identity_encoding(),
        all_decode(p, s.len()),
        s.len() > 0,
    ensures
        ristretto_multiscalar_mul(s, p) == ristretto_add(
            ristretto_multiscalar_mul(s.drop_last(), p),
            ristretto_scalar_mul(p[s.len() - 1], s[s.len() - 1]),
        ),
{
    reveal(ristretto_group);
    let k = s.len() - 1;
    let prev = ristretto_multiscalar_mul(s.drop_last(), p);
    lemma_msm_decodes(e, s.drop_last(), p);
    assert(ristretto_decodes(p[k as int]));
    if s[k as int] % group_order() == 0 {
        assert(ristretto_scalar_mul(p[k as int], s[k as int]) == ristretto_scalar_mul(
            p[k as int],
            s[k as int] % group_order(),
        ));
        assert(ristretto_scalar_mul(p[k as int], 0) == e);
        assert(ristretto_add(prev, e) == prev);
    }
}

/// Any multiple of the identity is the identity.
proof fn lemma_mul_identity(e: Seq<u8>, c: nat)
    requires
        ristretto_group(e),
    ensures
        ristretto_scalar_mul(e, c) == e,
{
    reveal(ristretto_group);
    assert(ristretto_scalar_mul(e, 0) == e);
    assert(ristretto_scalar_mul(ristretto_scalar_mul(e, 0), c) == ristretto_scalar_mul(e, 0 * c));
    assert(0 * c == 0) by (nonlinear_arith);
}

/// `(a + b) + (c + d) = (a + c) + (b + d)`.
pub proof fn lemma_add_swap_middle(e: Seq<u8>, a: Seq<u8>, b: Seq<u8>, c: Seq<u8>, d: Seq<u8>)
    requires
        ristretto_group(e),
        ristretto_decodes(a),
        ristretto_decodes(b),
        ristretto_decodes(c),
        ristretto_decodes(d),
    ensures
        ristretto_add(ristretto_add(a, b), ristretto_add(c, d)) == ristretto_add(
            ristretto_add(a, c),
            ristretto_add(b, d),
        ),
{
    reveal(ristretto_group);
    let cd = ristretto_add(c, d);
    let bd = ristretto_add(b, d);
    assert(ristretto_decodes(cd));
    assert(ristretto_decodes(bd));
    assert(ristretto_add(ristretto_add(a, b), cd) == ristretto_add(a, ristretto_add(b, cd)));
    assert(ristretto_add(ristretto_add(b, c), d) == ristretto_add(b, cd));
    assert(ristretto_add(b, c) == ristretto_add(c, b));
    assert(ristretto_add(ristretto_add(c, b), d) == ristretto_add(c, bd));
    assert(ristretto_add(ristretto_add(a, c), bd) == ristretto_add(a, ristretto_add(c, bd)));
}

/// Linearity in the scalars: `sum s_i·P_i + c · sum t_i·P_i` is the product
/// with the scalars `s_i + c·t_i` (modulo `ℓ`).
pub proof fn lemma_msm_linear(e: Seq<u8>, s: Seq<nat>, t: Seq<nat>, c: nat, p: Seq<Seq<u8>>)
    requires
        ristretto_group(e),
        e == identity_encoding(),
        s.len() == t.len(),
        all_decode(p, s.len()),
    ensures
        ristretto_add(
            ristretto_multiscalar_mul(s, p),
            ristretto_scalar_mul(ristretto_multiscalar_mul(t, p), c),
        ) == ristretto_multiscalar_mul(scalars_combined(s, t, c), p),
    decreases s.len(),
{
    reveal(ristretto_group);
    let u = scalars_combined(s, t, c);
    if s.len() == 0 {
        lemma_mul_identity(e, c);
        assert(u.len() == 0);
    } else {
        let k = s.len() - 1;
        let l = group_order() as int;
        let pk = p[k as int];
        assert(ristretto_decodes(pk));
        assert(u.drop_last() =~= scalars_combined(s.drop_last(), t.drop_last(), c));
        lemma_msm_linear(e, s.drop_last(), t.drop_last(), c, p);
        lemma_msm_step(e, s, p);
        lemma_msm_step(e, t, p);
        lemma_msm_step(e, u, p);
        let a = ristretto_multiscalar_mul(s.drop_last(), p);
        let b = ristretto_scalar_mul(pk, s[k as int]);
        let mt = ristretto_multiscalar_mul(t.drop_last(), p);
        let tk = ristretto_scalar_mul(pk, t[k as int]);
        lemma_msm_decodes(e, s.drop_last(), p);
        lemma_msm_decodes(e, t.drop_last(), p);
        assert(ristretto_decodes(b));
        assert(ristretto_decodes(tk));
        assert(ristretto_scalar_mul(ristretto_add(mt, tk), c) == ristretto_add(
            ristretto_scalar_mul(mt, c),
            ristretto_scalar_mul(tk, c),
        ));
        assert(ristretto_scalar_mul(tk, c) == ristretto_scalar_mul(pk, t[k as int] * c));
        let cm = ristretto_scalar_mul(mt, c);
        let d = ristretto_scalar_mul(pk, t[k as int] * c);
        assert(ristretto_decodes(cm));
        assert(ristretto_decodes(d));
        lemma_add_swap_middle(e, a, b, cm, d);
        assert(ristretto_add(b, d) == ristretto_scalar_mul(pk, s[k as int] + t[k as int] * c));
        assert(ristretto_scalar_mul(pk, s[k as int] + t[k as int] * c) == ristretto_scalar_mul(
            pk,
            (s[k as int] + t[k as int] * c) % group_order(),
        ));
        assert(t[k as int] * c == c * t[k as int]) by (nonlinear_arith);
        assert(u[k as int] == (s[k as int] + (c * t[k as int]) % group_order()) % group_order());
        assert((s[k as int] + t[k as int] * c) % group_order() == u[k as int]) by {
            vstd::arithmetic::div_mod::lemma_add_mod_noop(
                s[k as int] as int,
                (c * t[k as int]) as int,
                l,
            );
            vstd::arithmetic::div_mod::lemma_mod_twice((c * t[k as int]) as int, l);
            vstd::arithmetic::div_mod::lemma_add_mod_noop(
                s[k as int] as int,
                ((c * t[k as int]) % group_order()) as int,
                l,
            );
        }
    }
}

/// `a·x + b·x = ((a + b) mod ℓ)·x`.
pub proof fn lemma_mul_add_scalars(e: Seq<u8>, x: Seq<u8>, a: nat, b: nat)
    requires
        ristretto_group(e),
        ristretto_decodes(x),
    ensures
        ristretto_add(ristretto_scalar_mul(x, a), ristretto_scalar_mul(x, b))
            == ristretto_scalar_mul(x, (a + b) % group_order()),
{
    reveal(ristretto_group);
    assert(ristretto_scalar_mul(x, a + b) == ristretto_scalar_mul(x, (a + b) % group_order()));
}

/// A multiple of a canonical point is a canonical point.
pub proof fn lemma_mul_canonical(e: Seq<u8>, x: Seq<u8>, a: nat)
    requires
        ristretto_group(e),
        ristretto_decodes(x),
    ensures
        ristretto_decodes(ristretto_scalar_mul(x, a)),
{
    reveal(ristretto_group);
}

/// A product of two terms is their sum.
pub proof fn lemma_msm2(e: Seq<u8>, a: nat, b: nat, p: Seq<u8>, q: Seq<u8>)
    requires
        ristretto_group(e),
        e == identity_encoding(),
        ristretto_decodes(p),
        ristretto_decodes(q),
    ensures
        ristretto_multiscalar_mul(seq![a, b], seq![p, q]) == ristretto_add(
            ristretto_scalar_mul(p, a),
            ristretto_scalar_mul(q, b),
        ),
{
    reveal(ristretto_group);
    let s = seq![a, b];
    let g = seq![p, q];
    assert(all_decode(g, 2));
    assert(s.drop_last() =~= seq![a]);
    assert(seq![a].drop_last() =~= Seq::<nat>::empty());
    assert(all_decode(g, 1));
    lemma_msm_step(e, s, g);
    lemma_msm_step(e, seq![a], g);
    let pa = ristretto_scalar_mul(p, a);
    assert(ristretto_decodes(pa));
    assert(ristretto_add(e, pa) == ristretto_add(pa, e));
}

/// A product of three terms is their sum, added from the left.
pub proof fn lemma_msm3(
    e: Seq<u8>,
    a: nat,
    b: nat,
    c: nat,
    p: Seq<u8>,
    q: Seq<u8>,
    o: Seq<u8>,
)
    requires
        ristretto_group(e),
        e == identity_encoding(),
        ristretto_decodes(p),
        ristretto_decodes(q),
        ristretto_decodes(o),
    ensures
        ristretto_multiscalar_mul(seq![a, b, c], seq![p, q, o]) == ristretto_add(
            ristretto_add(ristretto_scalar_mul(p, a), ristretto_scalar_mul(q, b)),
            ristretto_scalar_mul(o, c),
        ),
{
    let s = seq![a, b, c];
    let g = seq![p, q, o];
    let ab = seq![a, b];
    assert(all_decode(g, 3));
    assert(s.drop_last() =~= ab);
    assert(g[2] == o && s[2] == c);
    lemma_msm_step(e, s, g);
    assert(ristretto_multiscalar_mul(s, g) == ristretto_add(
        ristretto_multiscalar_mul(ab, g),
        ristretto_scalar_mul(o, c),
    ));
    assert(g.subrange(0, 2) =~= seq![p, q].subrange(0, 2));
    lemma_msm_prefix(ab, g, seq![p, q]);
    lemma_msm2(e, a, b, p, q);
}

} // verus!
