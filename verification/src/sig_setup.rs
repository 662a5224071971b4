//! Public parameters of the signature scheme and of its evaluation proofs.
use crate::arith::is_pow2;
use crate::helpers::{h2p, h2p_spec, lemma_next_pow2_idempotent, next_pow2, next_pow2_spec};
use crate::point::{point_encodings, Point};
use crate::polynomial::{coefficient_bases, Params};
use vstd::prelude::*;
use vstd::string::StringExecFns;

verus! {

/// Public parameters for the signature scheme and the evaluation proofs
/// (threshold `t = n`).
pub struct SigParams {
    /// Number of signers.
    pub n: usize,
    /// Degree bound of the signers' polynomials.
    pub d: usize,
    /// Generator `g` of the scheme.
    pub g: Point,
    /// Generator `h` of the scheme.
    pub h: Point,
    /// Generator `v` of the scheme.
    pub v: Point,
    /// Evaluation-proof parameters, with `g0 == g`.
    pub pp: Params,
    /// The domain-separation string of all bases.
    pub domain: String,
}

impl SigParams {
    /// Setup(n, t = n, d): derives `g`, `h`, `v` from `domain`, and the
    /// evaluation-proof parameters for `next_pow2(d + 1)` coefficients from
    /// the sub-domain `domain + "/ipa"`, with `g0 = g`.
    pub fn setup(n: usize, d: usize, domain: &str) -> (sp: Self)
        requires
            d <= usize::MAX / 2,
        ensures
            sp.n == n,
            sp.d == d,
            sp.g@ == h2p_spec(domain@, "sig_g"@, 0),
            sp.h@ == h2p_spec(domain@, "sig_h"@, 0),
            sp.v@ == h2p_spec(domain@, "sig_v"@, 0),
            sp.pp.g0 == sp.g,
            sp.pp.g_rho@ == h2p_spec(domain@ + "/ipa"@, "g_rho"@, 0),
            point_encodings(sp.pp.g@) == coefficient_bases(
                domain@ + "/ipa"@,
                next_pow2_spec((d + 1) as nat),
            ),
            sp.pp.g@.len() == next_pow2_spec((d + 1) as nat),
            is_pow2(sp.pp.g@.len() as nat),
            sp.pp.g@.len() >= d + 1,
            sp.domain@ == domain@,
    {
        let g = h2p(domain, "sig_g", 0);
        let h = h2p(domain, "sig_h", 0);
        let v = h2p(domain, "sig_v", 0);
        let m = next_pow2(d + 1);
        proof {
            lemma_next_pow2_idempotent((d + 1) as nat);
        }
        let mut pp_domain = domain.to_owned();
        pp_domain.append("/ipa");
        let pp = Params::setup_with_g0(m, pp_domain.as_str(), g);
        proof {
            lemma_next_pow2_idempotent((d + 1) as nat);
        }
        SigParams { n, d, g, h, v, pp, domain: domain.to_owned() }
    }
}

} // verus!
