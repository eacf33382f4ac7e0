//! Numbers picked by chance.

use vstd::prelude::*;

verus! {

/// A number from `low` up to but not including `high`, picked by `rand::Rng::random_range`
/// with the thread's generator; which one is left to chance.
#[verifier::external_body]
pub(crate) fn random_between(low: i64, high: i64) -> (x: i64)
    requires
        low < high,
    ensures
        low <= x < high,
{
    rand::Rng::random_range(&mut rand::rng(), low..high)
}

/// A place below `n`, picked by chance.
pub fn random_index(n: usize) -> (i: usize)
    requires
        n > 0,
    ensures
        i < n,
{
    let low: i128 = i64::MIN as i128;
    let x: i64 = random_between(i64::MIN, (low + n as i128) as i64);
    (x as i128 - low) as usize
}

} // verus!
