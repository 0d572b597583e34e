//! The source of uniform random draws.

use vstd::prelude::*;
use rand::Rng;

verus! {

/// Relies on `rand::thread_rng().gen_range(0..n)`: a uniform draw from
/// `0..n`. `gen_range` panics on an empty range, which `n > 0` rules out;
/// `thread_rng` panics if the operating system's entropy source cannot be
/// read, a fault of the environment rather than of the input.
#[verifier::external_body]
pub(crate) fn random_below(n: usize) -> (r: usize)
    requires
        n > 0,
    ensures
        r < n,
{
    rand::thread_rng().gen_range(0..n)
}

} // verus!
