use vstd::prelude::*;
use rand::Rng;

verus! {

/// Relies on `rand::thread_rng` and `rand::Rng::gen_range`: sampling from
/// the half-open range `0..n` yields a value strictly below `n`. Nothing
/// more is assumed of the choice, so every caller must be correct for every
/// value below `n`.
#[verifier::external_body]
pub(crate) fn random_below(n: usize) -> (r: usize)
    requires
        n > 0,
    ensures
        r < n,
{
    rand::thread_rng().gen_range(0..n)
}

} // verus!
