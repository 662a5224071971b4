//! Data-parallel map over a vector, run by `rayon`.
use rayon::iter::IntoParallelIterator;
use rayon::iter::ParallelIterator;
use vstd::prelude::*;

verus! {

/// `rayon`: `xs.into_par_iter().map(f).collect::<Vec<_>>()`. The iterator
/// over a `Vec` is indexed and `map` keeps its length, and rayon's
/// `ParallelExtend` for `Vec` writes an iterator of known length into place
/// (`special_extend`), so item `i` of the result is what `f` returned for
/// `xs[i]`; `f` is called once per item.
#[verifier::external_body]
pub(crate) fn par_map<A: Send, B: Send, F: Fn(A) -> B + Sync + Send>(xs: Vec<A>, f: F) -> (r: Vec<
    B,
>)
    requires
        forall|i: int| 0 <= i < xs@.len() ==> f.requires((#[trigger] xs@[i],)),
    ensures
        r@.len() == xs@.len(),
        forall|i: int| 0 <= i < xs@.len() ==> f.ensures((xs@[i],), #[trigger] r@[i]),
{
    xs.into_par_iter().map(f).collect()
}

} // verus!
