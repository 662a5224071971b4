//! Key generation of a signer: a secret polynomial with its commitment, and
//! the partial public key `pk = x·g + w·h + u·v`.
use crate::arith::is_pow2;
use crate::helpers::rand_scalar;
use crate::point::{point_encodings, ristretto_multiscalar_mul, Point};
use crate::polynomial::{commitment, Params, Polynomial};
use crate::rand_eval::key_fits;
use crate::rel_eval::msm3;
use crate::scalar::Scalar;
use crate::sig_setup::SigParams;
use vstd::prelude::*;

verus! {

/// A signer's secret key.
pub struct UserSecret {
    /// The secret polynomial `f` (of degree `d`), committed under `pp`.
    pub poly: Polynomial,
    /// The evaluation-proof parameters `f` is committed under.
    pub pp: Params,
    pub x: Scalar,
    pub w: Scalar,
    pub u: Scalar,
}

/// A signer's partial public key.
pub struct UserPublic {
    /// `x·g + w·h + u·v`.
    pub pk: Point,
    /// The commitment to the secret polynomial.
    pub cf: Point,
}

/// Draws a secret key for the parameters `sp` and derives its public key.
pub fn keygen(sp: &SigParams) -> (keys: (UserSecret, UserPublic))
    requires
        sp.d < sp.pp.g@.len(),
        is_pow2(sp.pp.g@.len() as nat),
    ensures
        keys.0.poly.wf(),
        keys.0.poly.coefficients().len() == sp.d + 1,
        keys.0.poly.width() == sp.pp.g@.len(),
        keys.0.pp.g0 == sp.pp.g0,
        keys.0.pp.g_rho == sp.pp.g_rho,
        keys.0.pp.g@ == sp.pp.g@,
        keys.0.poly.commitment_point()@ == commitment(
            keys.0.poly.padded(),
            keys.0.poly.blinding()@,
            point_encodings(sp.pp.g@),
            sp.pp.g_rho@,
        ),
        keys.1.cf == keys.0.poly.commitment_point(),
        keys.1.pk@ == ristretto_multiscalar_mul(
            seq![keys.0.x@, keys.0.w@, keys.0.u@],
            seq![sp.g@, sp.h@, sp.v@],
        ),
        sp.pp.g0 == sp.g ==> key_fits(keys.0, *sp, keys.1.pk@),
{
    let x = rand_scalar();
    let w = rand_scalar();
    let u = rand_scalar();
    let poly = Polynomial::random(sp.d, &sp.pp);
    let pk = msm3(&x, &w, &u, &sp.g, &sp.h, &sp.v);
    let cf = poly.get_cf();
    let pp = sp.pp.duplicate();
    (UserSecret { poly, pp, x, w, u }, UserPublic { pk, cf })
}

} // verus!
