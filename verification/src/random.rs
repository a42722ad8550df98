//! The one source of chance in the library.

use rand::Rng;
use vstd::prelude::*;

verus! {

/// Draws from `rand::thread_rng()` with `rand::Rng::gen_range` over the
/// half-open range `low..high`. The contract claims only what the rand
/// documentation promises of every outcome: the value lies in the range
/// (`gen_range` panics on an empty range, which `requires` rules out).
/// Which value comes back is chance and is not stated; the thread-local
/// generator itself panics only if the operating system cannot seed it.
#[verifier::external_body]
pub(crate) fn random_in(low: i64, high: i64) -> (r: i64)
    requires
        low < high,
    ensures
        low <= r < high,
{
    rand::thread_rng().gen_range(low..high)
}

} // verus!
