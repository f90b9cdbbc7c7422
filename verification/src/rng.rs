//! The one place the library draws randomness from: block spawning picks
//! a kind, a color and a rotation index uniformly at random.

use vstd::prelude::*;
use rand::Rng;

verus! {

/// Relies on rand::thread_rng and rand::Rng::gen_range: returns a value
/// in [0, n). gen_range panics on an empty range, so n must be positive.
/// Nothing more is promised of the result: it is random.
#[verifier::external_body]
pub(crate) fn rand_below(n: usize) -> (r: usize)
    requires
        1 <= n,
    ensures
        r < n,
{
    rand::thread_rng().gen_range(0..n)
}

} // verus!
