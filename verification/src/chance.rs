use vstd::prelude::*;
use rand::Rng;

verus! {

/// `rand::Rng::gen_range(0, bound)` on `rand::thread_rng()`: a number drawn
/// from `0 .. bound`. Which one is a matter of chance. The call panics on an
/// empty range, so `bound` is positive; it also panics where the system has
/// no random bytes to seed the generator of the thread.
#[verifier::external_body]
pub(crate) fn random_index(bound: usize) -> (r: usize)
    requires
        bound > 0,
    ensures
        r < bound,
{
    rand::thread_rng().gen_range(0, bound)
}

} // verus!
